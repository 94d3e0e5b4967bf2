//! Internet addresses and prefixes as the models carry them: plain octets.

use vstd::prelude::*;
use crate::error::NetlinkError;
use crate::wire::u32_of_be;

verus! {

/// An IPv4 or IPv6 address: its octets in network order.
#[derive(Clone, Copy, Debug, PartialEq, Eq)]
pub enum IpAddr {
    V4([u8; 4]),
    V6([u8; 16]),
}

impl IpAddr {
    /// The octets of the address, in network order.
    pub open spec fn bytes(self) -> Seq<u8> {
        match self {
            IpAddr::V4(a) => a@,
            IpAddr::V6(a) => a@,
        }
    }

    /// The longest prefix an address of this family can have.
    pub open spec fn max_prefix(self) -> u8 {
        match self {
            IpAddr::V4(_) => 32,
            IpAddr::V6(_) => 128,
        }
    }

    /// The address family as the wire names it.
    pub open spec fn wire_family(self) -> u8 {
        match self {
            IpAddr::V4(_) => 2,
            IpAddr::V6(_) => 10,
        }
    }

    /// The octets of the address, in network order.
    pub fn octets(&self) -> (v: Vec<u8>)
        ensures
            v@ == self.bytes(),
    {
        match self {
            IpAddr::V4(a) => vstd::slice::slice_to_vec(a.as_slice()),
            IpAddr::V6(a) => vstd::slice::slice_to_vec(a.as_slice()),
        }
    }

    /// The address family as the wire names it: 2 for IPv4, 10 for IPv6.
    pub fn family(&self) -> (f: u8)
        ensures
            f == self.wire_family(),
    {
        match self {
            IpAddr::V4(_) => 2,
            IpAddr::V6(_) => 10,
        }
    }
}

/// The address that `v` spells: four octets are an IPv4 address, sixteen an
/// IPv6 address, any other number none.
pub open spec fn addr_of_bytes(v: Seq<u8>) -> Option<IpAddr> {
    if v.len() == 4 {
        Some(IpAddr::V4([v[0], v[1], v[2], v[3]]))
    } else if v.len() == 16 {
        Some(
            IpAddr::V6(
                [
                    v[0],
                    v[1],
                    v[2],
                    v[3],
                    v[4],
                    v[5],
                    v[6],
                    v[7],
                    v[8],
                    v[9],
                    v[10],
                    v[11],
                    v[12],
                    v[13],
                    v[14],
                    v[15],
                ],
            ),
        )
    } else {
        None
    }
}

/// The address that `v` spells, or the failure that a payload of another
/// length than four or sixteen is.
pub open spec fn addr_of(v: Seq<u8>) -> Result<IpAddr, NetlinkError> {
    match addr_of_bytes(v) {
        Some(a) => Ok(a),
        None => Err(NetlinkError::InvalidArgument),
    }
}

/// Reads an address from the payload of an attribute.
pub fn vec_to_addr(v: Vec<u8>) -> (r: Result<IpAddr, NetlinkError>)
    ensures
        r == addr_of(v@),
        r is Ok ==> r->Ok_0.bytes() == v@,
{
    if v.len() == 4 {
        let a = IpAddr::V4([v[0], v[1], v[2], v[3]]);
        assert(a.bytes() =~= v@);
        Ok(a)
    } else if v.len() == 16 {
        let a = IpAddr::V6(
            [
                v[0],
                v[1],
                v[2],
                v[3],
                v[4],
                v[5],
                v[6],
                v[7],
                v[8],
                v[9],
                v[10],
                v[11],
                v[12],
                v[13],
                v[14],
                v[15],
            ],
        );
        assert(a.bytes() =~= v@);
        Ok(a)
    } else {
        Err(NetlinkError::InvalidArgument)
    }
}

/// The mask of the host bits of an IPv4 prefix of length `prefix_len`.
pub open spec fn host_mask_v4(prefix_len: u8) -> u32 {
    if prefix_len >= 32 {
        0
    } else {
        0xffff_ffffu32 >> prefix_len
    }
}

/// The four octets of `x`, high octet first.
pub open spec fn be_octets(x: u32) -> Seq<u8> {
    seq![
        (x / 16777216) as u8,
        ((x / 65536) % 256) as u8,
        ((x / 256) % 256) as u8,
        (x % 256) as u8,
    ]
}

/// The highest address of the IPv4 network that `octets` and `prefix_len`
/// name: the address with every host bit set.
pub open spec fn broadcast_v4(octets: Seq<u8>, prefix_len: u8) -> Seq<u8> {
    be_octets(u32_of_be(octets) | host_mask_v4(prefix_len))
}

/// `ipnet::Ipv4Net::broadcast` on the network made by `ipnet::Ipv4Net::new`
/// from the octets and the prefix length. The crate computes the address as a
/// big-endian number or-ed with the host mask, which is all ones shifted
/// right by the prefix length, and zero for a prefix of 32.
#[verifier::external_body]
pub(crate) fn v4_broadcast(octets: [u8; 4], prefix_len: u8) -> (r: [u8; 4])
    requires
        prefix_len <= 32,
    ensures
        r@ == broadcast_v4(octets@, prefix_len),
{
    match ipnet::Ipv4Net::new(octets.into(), prefix_len) {
        Ok(net) => net.broadcast().octets(),
        Err(_) => octets,
    }
}

impl IpAddr {
    /// The IPv6 address that stands for this one: an IPv6 address itself, an
    /// IPv4 address behind the prefix `::ffff:0:0/96`.
    pub open spec fn mapped_v6(self) -> Seq<u8> {
        match self {
            IpAddr::V4(a) => seq![0u8, 0u8, 0u8, 0u8, 0u8, 0u8, 0u8, 0u8, 0u8, 0u8, 0xffu8, 0xffu8]
                + a@,
            IpAddr::V6(a) => a@,
        }
    }

    /// Whether an IPv4 address stands for this one: every IPv4 address does,
    /// and an IPv6 address under `::/96` or `::ffff:0:0/96`.
    pub open spec fn has_v4(self) -> bool {
        match self {
            IpAddr::V4(_) => true,
            IpAddr::V6(a) => {
                &&& forall|i: int| 0 <= i < 10 ==> #[trigger] a@[i] == 0u8
                &&& (a@[10] == 0u8 && a@[11] == 0u8 || a@[10] == 0xffu8 && a@[11] == 0xffu8)
            },
        }
    }

    /// The IPv4 address that stands for this one, where `has_v4` holds: its
    /// last four octets.
    pub open spec fn short_v4(self) -> Seq<u8> {
        match self {
            IpAddr::V4(a) => a@,
            IpAddr::V6(a) => a@.subrange(12, 16),
        }
    }

    /// The sixteen octets of the IPv6 address that stands for this one.
    pub fn to_ipv6_mapped(&self) -> (v: Vec<u8>)
        ensures
            v@ == self.mapped_v6(),
    {
        match self {
            IpAddr::V4(a) => {
                let mut v: Vec<u8> = Vec::new();
                let mut i: usize = 0;
                while i < 10
                    invariant
                        0 <= i <= 10,
                        v@.len() == i,
                        forall|j: int| 0 <= j < i ==> v@[j] == 0u8,
                    decreases 10 - i,
                {
                    v.push(0);
                    i += 1;
                }
                v.push(0xff);
                v.push(0xff);
                v.push(a[0]);
                v.push(a[1]);
                v.push(a[2]);
                v.push(a[3]);
                assert(v@ =~= self.mapped_v6());
                v
            },
            IpAddr::V6(a) => vstd::slice::slice_to_vec(a.as_slice()),
        }
    }

    /// The four octets of the IPv4 address that stands for this one, if
    /// there is one.
    pub fn to_ipv4(&self) -> (r: Option<Vec<u8>>)
        ensures
            self.has_v4() ==> r is Some && r->Some_0@ == self.short_v4(),
            !self.has_v4() ==> r is None,
    {
        match self {
            IpAddr::V4(a) => Some(vstd::slice::slice_to_vec(a.as_slice())),
            IpAddr::V6(a) => {
                let mut i: usize = 0;
                while i < 10
                    invariant
                        0 <= i <= 10,
                        *self == IpAddr::V6(*a),
                        forall|j: int| 0 <= j < i ==> a@[j] == 0u8,
                    decreases 10 - i,
                {
                    if a[i] != 0 {
                        assert(a@[i as int] != 0u8);
                        return None;
                    }
                    i += 1;
                }
                if (a[10] == 0 && a[11] == 0) || (a[10] == 0xff && a[11] == 0xff) {
                    let mut v: Vec<u8> = Vec::new();
                    v.push(a[12]);
                    v.push(a[13]);
                    v.push(a[14]);
                    v.push(a[15]);
                    assert(v@ =~= self.short_v4());
                    Some(v)
                } else {
                    None
                }
            },
        }
    }
}

/// An address with the length of its network prefix.
#[derive(Clone, Copy, Debug, PartialEq, Eq)]
pub struct IpNet {
    pub addr: IpAddr,
    pub prefix_len: u8,
}

impl IpNet {
    /// Whether the prefix is no longer than the address.
    pub open spec fn wf(self) -> bool {
        self.prefix_len <= self.addr.max_prefix()
    }

    /// The prefix of `prefix_len` bits around `addr`; none where the address
    /// has fewer bits.
    pub fn new(addr: IpAddr, prefix_len: u8) -> (r: Result<IpNet, NetlinkError>)
        ensures
            r == net_of(addr, prefix_len),
    {
        let net = IpNet { addr, prefix_len };
        if net.is_valid() {
            Ok(net)
        } else {
            Err(NetlinkError::InvalidArgument)
        }
    }

    /// Whether the prefix is no longer than the address.
    pub fn is_valid(&self) -> (b: bool)
        ensures
            b == self.wf(),
    {
        match self.addr {
            IpAddr::V4(_) => self.prefix_len <= 32,
            IpAddr::V6(_) => self.prefix_len <= 128,
        }
    }

    /// The address.
    pub fn addr(&self) -> (a: IpAddr)
        ensures
            a == self.addr,
    {
        self.addr
    }

    /// The length of the prefix, in bits.
    pub fn prefix_len(&self) -> (n: u8)
        ensures
            n == self.prefix_len,
    {
        self.prefix_len
    }

    /// The highest address of an IPv4 network, with every host bit set; an
    /// IPv6 prefix has none, nor has a prefix that is longer than its
    /// address.
    pub fn broadcast(&self) -> (r: Option<IpAddr>)
        ensures
            match self.addr {
                IpAddr::V4(a) => if self.prefix_len <= 32 {
                    r is Some && r->Some_0 is V4 && r->Some_0.bytes() == broadcast_v4(
                        a@,
                        self.prefix_len,
                    )
                } else {
                    r is None
                },
                IpAddr::V6(_) => r is None,
            },
    {
        match self.addr {
            IpAddr::V4(a) => if self.prefix_len <= 32 {
                Some(IpAddr::V4(v4_broadcast(a, self.prefix_len)))
            } else {
                None
            },
            IpAddr::V6(_) => None,
        }
    }
}

/// The prefix of `prefix_len` bits around `addr`, or the failure that a
/// prefix longer than the address is.
pub open spec fn net_of(addr: IpAddr, prefix_len: u8) -> Result<IpNet, NetlinkError> {
    if prefix_len <= addr.max_prefix() {
        Ok(IpNet { addr, prefix_len })
    } else {
        Err(NetlinkError::InvalidArgument)
    }
}

impl Default for IpNet {
    fn default() -> (r: Self)
        ensures
            r == (IpNet { addr: IpAddr::V4([0, 0, 0, 0]), prefix_len: 0 }),
    {
        IpNet { addr: IpAddr::V4([0, 0, 0, 0]), prefix_len: 0 }
    }
}

/// The octets of an address spell that address.
pub proof fn lemma_addr_of_bytes(ip: IpAddr)
    ensures
        addr_of(ip.bytes()) == Ok::<IpAddr, NetlinkError>(ip),
{
    match ip {
        IpAddr::V4(a) => {
            let b = [a@[0], a@[1], a@[2], a@[3]];
            assert(b =~= a);
        },
        IpAddr::V6(a) => {
            let b = [
                a@[0],
                a@[1],
                a@[2],
                a@[3],
                a@[4],
                a@[5],
                a@[6],
                a@[7],
                a@[8],
                a@[9],
                a@[10],
                a@[11],
                a@[12],
                a@[13],
                a@[14],
                a@[15],
            ];
            assert(b =~= a);
        },
    }
}

} // verus!
