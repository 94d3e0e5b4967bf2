//! The verbs of the engine: for each, the request that it sends and the
//! state that reads the replies. One counter of sequence numbers is kept for
//! each protocol family, made when the family is first used.

use std::collections::HashMap;
use vstd::prelude::*;
use crate::addr::{
    addr_request, addr_show_request, build_addr_request, build_addr_show_request, AddrCmd, Address,
};
use crate::attr::all_fit;
use crate::consts::{
    AF_UNSPEC, NETLINK_ROUTE, NLM_F_ACK, NLM_F_APPEND, NLM_F_CREATE, NLM_F_EXCL, NLM_F_REPLACE,
    RTM_DELADDR, RTM_DELROUTE, RTM_NEWADDR, RTM_NEWROUTE,
};
use crate::error::NetlinkError;
use crate::handle::{numbered, Exchange, SocketHandle};
use crate::ip::IpAddr;
use crate::link::{Link, LinkAttrs};
use crate::link_request::{
    build_link_del_request, build_link_get_request, build_link_request, build_link_setup_request,
    link_del_request, link_get_request, link_request, link_setup_request, link_trees,
};
use crate::message::NetlinkMessageHeader;
use crate::request::{NetlinkRequest, RequestView};
use crate::route::{
    build_route_get_request, build_route_request, route_get_request, route_request, Route, RtCmd,
};

verus! {

/// The type and the flags of the request that does `command` to an address.
pub open spec fn addr_verb(command: AddrCmd) -> (u16, i32) {
    match command {
        AddrCmd::Add => (RTM_NEWADDR, NLM_F_CREATE | NLM_F_EXCL | NLM_F_ACK),
        AddrCmd::Change => (RTM_NEWADDR, NLM_F_REPLACE | NLM_F_ACK),
        AddrCmd::Replace => (RTM_NEWADDR, NLM_F_CREATE | NLM_F_REPLACE | NLM_F_ACK),
        AddrCmd::Del => (RTM_DELADDR, NLM_F_ACK),
    }
}

/// The type and the flags of the request that does `command` to a route.
pub open spec fn route_verb(command: RtCmd) -> (u16, i32) {
    match command {
        RtCmd::Add => (RTM_NEWROUTE, NLM_F_CREATE | NLM_F_EXCL | NLM_F_ACK),
        RtCmd::Append => (RTM_NEWROUTE, NLM_F_CREATE | NLM_F_APPEND | NLM_F_ACK),
        RtCmd::Replace => (RTM_NEWROUTE, NLM_F_CREATE | NLM_F_REPLACE | NLM_F_ACK),
        RtCmd::Del => (RTM_DELROUTE, NLM_F_ACK),
    }
}

/// The flags of the request that creates a link, which must not exist yet.
pub open spec fn link_add_flags() -> i32 {
    NLM_F_CREATE | NLM_F_EXCL | NLM_F_ACK
}

impl AddrCmd {
    /// The type and the flags of the request that does this to an address.
    pub fn verb(&self) -> (r: (u16, i32))
        ensures
            r == addr_verb(*self),
    {
        match self {
            AddrCmd::Add => (RTM_NEWADDR, NLM_F_CREATE | NLM_F_EXCL | NLM_F_ACK),
            AddrCmd::Change => (RTM_NEWADDR, NLM_F_REPLACE | NLM_F_ACK),
            AddrCmd::Replace => (RTM_NEWADDR, NLM_F_CREATE | NLM_F_REPLACE | NLM_F_ACK),
            AddrCmd::Del => (RTM_DELADDR, NLM_F_ACK),
        }
    }
}

impl RtCmd {
    /// The type and the flags of the request that does this to a route.
    pub fn verb(&self) -> (r: (u16, i32))
        ensures
            r == route_verb(*self),
    {
        match self {
            RtCmd::Add => (RTM_NEWROUTE, NLM_F_CREATE | NLM_F_EXCL | NLM_F_ACK),
            RtCmd::Append => (RTM_NEWROUTE, NLM_F_CREATE | NLM_F_APPEND | NLM_F_ACK),
            RtCmd::Replace => (RTM_NEWROUTE, NLM_F_CREATE | NLM_F_REPLACE | NLM_F_ACK),
            RtCmd::Del => (RTM_DELROUTE, NLM_F_ACK),
        }
    }
}

/// The engine's state: the counters of sequence numbers, by protocol family.
pub struct Netlink {
    pub sockets: HashMap<i32, SocketHandle>,
}

/// Whether `r` starts the exchange of `req` after `before` requests on the
/// local port `pid`: the bytes are the request with the next sequence number,
/// and the state waits for replies that carry that number to that port.
pub open spec fn starts(req: RequestView, before: u32, pid: u32, r: (Vec<u8>, Exchange)) -> bool {
    &&& r.0@ == numbered(req, (before + 1) as u32).emit()
    &&& r.1.seq == before + 1
    &&& r.1.pid == pid
    &&& r.1.payloads@.len() == 0
    &&& !r.1.done
}

/// What goes out when an exchange starts: the header states the number of
/// bytes that are sent and the sequence number that follows the last one
/// used, and without raw bytes of another length the number of bytes is a
/// multiple of four.
pub proof fn lemma_outgoing_message(req: RequestView, before: u32, pid: u32, r: (Vec<u8>, Exchange))
    requires
        starts(req, before, pid, r),
        req.total_len() <= u32::MAX,
        before < u32::MAX,
    ensures
        NetlinkMessageHeader::decode(r.0@).nlmsg_len == r.0@.len(),
        NetlinkMessageHeader::decode(r.0@).nlmsg_seq == before + 1,
        NetlinkMessageHeader::decode(r.0@).nlmsg_seq == r.1.seq,
        (req.raw_data is None || req.raw_data->Some_0.len() % 4 == 0) ==> r.0@.len() % 4 == 0,
{
    let sent = numbered(req, (before + 1) as u32);
    assert(sent.payload() == req.payload());
    crate::request::lemma_request_length(sent);
    sent.sent_header().lemma_decode_emit(sent.payload());
}

impl Netlink {
    /// The number of requests that went out for the route family.
    pub open spec fn seq(&self) -> u32 {
        if self.sockets@.contains_key(NETLINK_ROUTE) {
            self.sockets@[NETLINK_ROUTE].seq
        } else {
            0
        }
    }

    /// The state of an engine that has sent nothing: one counter, for the
    /// route family, at zero.
    pub fn new() -> (r: Self)
        ensures
            r.sockets@.dom() == set![NETLINK_ROUTE],
            r.seq() == 0,
    {
        let mut sockets: HashMap<i32, SocketHandle> = HashMap::new();
        sockets.insert(NETLINK_ROUTE, SocketHandle::new());
        assert(sockets@.dom() =~= set![NETLINK_ROUTE]);
        Netlink { sockets }
    }

    /// Starts the exchange of `req` on the route family's counter, which is
    /// made where there is none yet.
    fn start(&mut self, req: NetlinkRequest, pid: u32) -> (r: (Vec<u8>, Exchange))
        requires
            old(self).seq() < u32::MAX,
            req.wf(),
        ensures
            final(self).seq() == old(self).seq() + 1,
            starts(req@, old(self).seq(), pid, r),
    {
        let mut handle = match self.sockets.remove(&NETLINK_ROUTE) {
            Some(handle) => handle,
            None => SocketHandle::new(),
        };
        let mut req = req;
        let r = handle.begin(&mut req, pid);
        self.sockets.insert(NETLINK_ROUTE, handle);
        r
    }

    /// Starts the request for the link that `attr` names.
    pub fn link_get(&mut self, attr: &LinkAttrs, pid: u32) -> (r: Result<
        (Vec<u8>, Exchange),
        NetlinkError,
    >)
        requires
            old(self).seq() < u32::MAX,
        ensures
            link_get_request(attr@).fits() ==> r is Ok && starts(
                link_get_request(attr@),
                old(self).seq(),
                pid,
                r->Ok_0,
            ) && final(self).seq() == old(self).seq() + 1,
            !link_get_request(attr@).fits() ==> r is Err && r->Err_0
                == NetlinkError::MalformedMessage && final(self).seq() == old(self).seq(),
    {
        match build_link_get_request(attr) {
            Ok(req) => Ok(self.start(req, pid)),
            Err(e) => Err(e),
        }
    }

    /// Starts the request that creates `link`, which must not exist yet.
    pub fn link_add<T: Link>(&mut self, link: &T, pid: u32) -> (r: Result<
        (Vec<u8>, Exchange),
        NetlinkError,
    >)
        requires
            old(self).seq() < u32::MAX,
        ensures
            all_fit(link_trees(link.model())) ==> r is Ok && starts(
                link_request(link.model(), link_add_flags()),
                old(self).seq(),
                pid,
                r->Ok_0,
            ) && final(self).seq() == old(self).seq() + 1,
            !all_fit(link_trees(link.model())) ==> r is Err && r->Err_0
                == NetlinkError::MalformedMessage && final(self).seq() == old(self).seq(),
    {
        match build_link_request(link, NLM_F_CREATE | NLM_F_EXCL | NLM_F_ACK) {
            Ok(req) => Ok(self.start(req, pid)),
            Err(e) => Err(e),
        }
    }

    /// Starts the request that changes `link`, which must exist.
    pub fn link_modify<T: Link>(&mut self, link: &T, pid: u32) -> (r: Result<
        (Vec<u8>, Exchange),
        NetlinkError,
    >)
        requires
            old(self).seq() < u32::MAX,
        ensures
            all_fit(link_trees(link.model())) ==> r is Ok && starts(
                link_request(link.model(), NLM_F_ACK),
                old(self).seq(),
                pid,
                r->Ok_0,
            ) && final(self).seq() == old(self).seq() + 1,
            !all_fit(link_trees(link.model())) ==> r is Err && r->Err_0
                == NetlinkError::MalformedMessage && final(self).seq() == old(self).seq(),
    {
        match build_link_request(link, NLM_F_ACK) {
            Ok(req) => Ok(self.start(req, pid)),
            Err(e) => Err(e),
        }
    }

    /// Starts the request that deletes `link`.
    pub fn link_del<T: Link>(&mut self, link: &T, pid: u32) -> (r: (Vec<u8>, Exchange))
        requires
            old(self).seq() < u32::MAX,
        ensures
            starts(link_del_request(link.model().attrs().index), old(self).seq(), pid, r),
            final(self).seq() == old(self).seq() + 1,
    {
        let req = build_link_del_request(link);
        self.start(req, pid)
    }

    /// Starts the request that brings `link` up.
    pub fn link_setup<T: Link>(&mut self, link: &T, pid: u32) -> (r: (Vec<u8>, Exchange))
        requires
            old(self).seq() < u32::MAX,
        ensures
            starts(link_setup_request(link.model().attrs().index), old(self).seq(), pid, r),
            final(self).seq() == old(self).seq() + 1,
    {
        let req = build_link_setup_request(link);
        self.start(req, pid)
    }

    /// Starts the request for the addresses of every link, in all families.
    pub fn addr_show(&mut self, pid: u32) -> (r: (Vec<u8>, Exchange))
        requires
            old(self).seq() < u32::MAX,
        ensures
            starts(addr_show_request(AF_UNSPEC), old(self).seq(), pid, r),
            final(self).seq() == old(self).seq() + 1,
    {
        let req = build_addr_show_request(AF_UNSPEC);
        self.start(req, pid)
    }

    /// Starts the request that does `command` with `addr` on the link
    /// `index`.
    pub fn addr_handle(&mut self, command: AddrCmd, index: i32, addr: &Address, pid: u32) -> (r:
        Result<(Vec<u8>, Exchange), NetlinkError>)
        requires
            old(self).seq() < u32::MAX,
        ensures
            match addr_request(addr@, index, addr_verb(command).0, addr_verb(command).1) {
                Ok(req) => r is Ok && starts(req, old(self).seq(), pid, r->Ok_0)
                    && final(self).seq() == old(self).seq() + 1,
                Err(e) => r is Err && r->Err_0 == e && final(self).seq() == old(self).seq(),
            },
    {
        let (proto, flags) = command.verb();
        match build_addr_request(addr, index, proto, flags) {
            Ok(req) => Ok(self.start(req, pid)),
            Err(e) => Err(e),
        }
    }

    /// Starts the request that asks which route leads to `dst`.
    pub fn route_get(&mut self, dst: &IpAddr, pid: u32) -> (r: (Vec<u8>, Exchange))
        requires
            old(self).seq() < u32::MAX,
        ensures
            starts(route_get_request(*dst), old(self).seq(), pid, r),
            final(self).seq() == old(self).seq() + 1,
    {
        let req = build_route_get_request(dst);
        self.start(req, pid)
    }

    /// Starts the request that does `command` with `route`.
    pub fn route_handle(&mut self, command: RtCmd, route: &Route, pid: u32) -> (r: Result<
        (Vec<u8>, Exchange),
        NetlinkError,
    >)
        requires
            old(self).seq() < u32::MAX,
        ensures
            match route_request(*route, route_verb(command).0, route_verb(command).1) {
                Ok(req) => r is Ok && starts(req, old(self).seq(), pid, r->Ok_0)
                    && final(self).seq() == old(self).seq() + 1,
                Err(e) => r is Err && r->Err_0 == e && final(self).seq() == old(self).seq(),
            },
    {
        let (proto, flags) = command.verb();
        match build_route_request(route, proto, flags) {
            Ok(req) => Ok(self.start(req, pid)),
            Err(e) => Err(e),
        }
    }
}

} // verus!
