//! The values that a container-networking plugin reports for a link it has
//! set up.

use vstd::prelude::*;

verus! {

/// An interface as a plugin's result names it.
#[derive(Debug)]
pub struct Interface<'a> {
    pub name: &'a str,
    pub mac: &'a str,
    pub sandbox: &'a str,
}

impl<'a> Interface<'a> {
    /// The interface `name` with hardware address `mac` in the namespace
    /// `sandbox`.
    pub fn new(name: &'a str, mac: &'a str, sandbox: &'a str) -> (r: Self)
        ensures
            r.name@ == name@,
            r.mac@ == mac@,
            r.sandbox@ == sandbox@,
    {
        Self { name, mac, sandbox }
    }
}

/// An address as a plugin's result names it.
#[derive(Debug)]
pub struct Ip<'a> {
    pub version: &'a str,
    pub address: &'a str,
    pub gateway: &'a str,
    pub interface: u8,
}

impl<'a> Ip<'a> {
    /// The IPv4 address `address` behind `gateway`, on the first interface
    /// of the result.
    pub fn new(address: &'a str, gateway: &'a str) -> (r: Self)
        ensures
            r.version@ == "4"@,
            r.address@ == address@,
            r.gateway@ == gateway@,
            r.interface == 0,
    {
        Self { version: "4", address, gateway, interface: 0 }
    }
}

/// What a plugin reports after it has added a container to a network.
#[derive(Debug)]
pub struct Response<'a> {
    pub cni_version: &'a str,
    pub interfaces: Vec<Interface<'a>>,
    pub ips: Vec<Ip<'a>>,
}

impl<'a> Response<'a> {
    /// The result that names `interfaces` and `ips`, in version 0.3.0 of the
    /// result format.
    pub fn new(interfaces: Vec<Interface<'a>>, ips: Vec<Ip<'a>>) -> (r: Self)
        ensures
            r.cni_version@ == "0.3.0"@,
            r.interfaces == interfaces,
            r.ips == ips,
    {
        Self { cni_version: "0.3.0", interfaces, ips }
    }
}

} // verus!
