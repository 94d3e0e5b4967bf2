//! Addresses of links: the model, its reading from an address frame, and
//! the request that adds, changes or deletes an address.

use vstd::prelude::*;
use crate::attr::{all_fit, lemma_wf_fits, parse_attrs, trees, AttrTree, NetlinkRouteAttr};
use crate::consts::{
    IFA_ADDRESS, IFA_BROADCAST, IFA_CACHEINFO, IFA_LABEL, IFA_LOCAL, IF_ADDR_MSG_SIZE,
};
use crate::error::NetlinkError;
use crate::ip::{addr_of, broadcast_v4, net_of, vec_to_addr, IpAddr, IpNet};
use crate::link_request::{opt_tree, text_z};
use crate::message::IfAddrMessage;
use crate::request::{request_view, NetlinkRequest, NetlinkRequestData, Part, RequestView};
use crate::utils::{read_text, text_of, zero_terminated};
use crate::wire::{i32_of_le, read_i32};

verus! {

/// What is done with an address.
#[derive(Clone, Copy, Debug, PartialEq, Eq)]
pub enum AddrCmd {
    Add,
    Change,
    Replace,
    Del,
}

/// An address of a link.
#[derive(Clone, Debug, PartialEq, Eq)]
pub struct Address {
    pub index: i32,
    pub ip: IpNet,
    pub label: String,
    pub flags: u8,
    pub scope: u8,
    pub broadcast: Option<IpAddr>,
    pub peer: Option<IpNet>,
    pub local: Option<IpAddr>,
    pub preferred_lifetime: i32,
    pub valid_lifetime: i32,
}

/// An address of a link as a mathematical value.
pub struct AddressView {
    pub index: i32,
    pub ip: IpNet,
    pub label: Seq<char>,
    pub flags: u8,
    pub scope: u8,
    pub broadcast: Option<IpAddr>,
    pub peer: Option<IpNet>,
    pub local: Option<IpAddr>,
    pub preferred_lifetime: i32,
    pub valid_lifetime: i32,
}

impl AddressView {
    /// The address of which nothing is known: the IPv4 prefix of length zero
    /// around the zero address, on no link.
    pub open spec fn empty() -> AddressView {
        AddressView {
            index: 0,
            ip: IpNet { addr: IpAddr::V4([0, 0, 0, 0]), prefix_len: 0 },
            label: Seq::empty(),
            flags: 0,
            scope: 0,
            broadcast: None,
            peer: None,
            local: None,
            preferred_lifetime: 0,
            valid_lifetime: 0,
        }
    }

    /// The address that an address frame's fixed payload states: the link
    /// and the scope.
    pub open spec fn of_header(h: IfAddrMessage) -> AddressView {
        AddressView { index: h.ifa_index as i32, scope: h.ifa_scope, ..AddressView::empty() }
    }
}

impl View for Address {
    type V = AddressView;

    open spec fn view(&self) -> AddressView {
        AddressView {
            index: self.index,
            ip: self.ip,
            label: self.label@,
            flags: self.flags,
            scope: self.scope,
            broadcast: self.broadcast,
            peer: self.peer,
            local: self.local,
            preferred_lifetime: self.preferred_lifetime,
            valid_lifetime: self.valid_lifetime,
        }
    }
}

impl Default for Address {
    fn default() -> (r: Self)
        ensures
            r@ == AddressView::empty(),
    {
        Address {
            index: 0,
            ip: IpNet { addr: IpAddr::V4([0, 0, 0, 0]), prefix_len: 0 },
            label: String::new(),
            flags: 0,
            scope: 0,
            broadcast: None,
            peer: None,
            local: None,
            preferred_lifetime: 0,
            valid_lifetime: 0,
        }
    }
}

/// The address after one more attribute of an address frame is read. The
/// address attribute takes its prefix length from the frame's fixed payload;
/// the cache information holds the preferred and the valid lifetime in its
/// first eight bytes. Attributes of other types than the five named here
/// change nothing.
pub open spec fn addr_step(addr: AddressView, prefix_len: u8, a: AttrTree) -> Result<
    AddressView,
    NetlinkError,
> {
    if a.rta_type == IFA_ADDRESS {
        match addr_of(a.value) {
            Ok(ip) => match net_of(ip, prefix_len) {
                Ok(net) => Ok(AddressView { ip: net, ..addr }),
                Err(e) => Err(e),
            },
            Err(e) => Err(e),
        }
    } else if a.rta_type == IFA_LOCAL {
        match addr_of(a.value) {
            Ok(ip) => Ok(AddressView { local: Some(ip), ..addr }),
            Err(e) => Err(e),
        }
    } else if a.rta_type == IFA_BROADCAST {
        match addr_of(a.value) {
            Ok(ip) => Ok(AddressView { broadcast: Some(ip), ..addr }),
            Err(e) => Err(e),
        }
    } else if a.rta_type == IFA_LABEL {
        match text_of(a.value) {
            Some(t) => Ok(AddressView { label: t, ..addr }),
            None => Err(NetlinkError::MalformedMessage),
        }
    } else if a.rta_type == IFA_CACHEINFO {
        if a.value.len() >= 8 {
            Ok(
                AddressView {
                    preferred_lifetime: i32_of_le(a.value.subrange(0, 4)),
                    valid_lifetime: i32_of_le(a.value.subrange(4, 8)),
                    ..addr
                },
            )
        } else {
            Err(NetlinkError::MalformedMessage)
        }
    } else {
        Ok(addr)
    }
}

/// The address that the attributes from index `i` on make of `addr`.
pub open spec fn addr_fold(addr: AddressView, prefix_len: u8, attrs: Seq<AttrTree>, i: int) -> Result<
    AddressView,
    NetlinkError,
>
    decreases attrs.len() - i,
{
    if i < 0 || i >= attrs.len() {
        Ok(addr)
    } else {
        match addr_step(addr, prefix_len, attrs[i]) {
            Ok(next) => addr_fold(next, prefix_len, attrs, i + 1),
            Err(e) => Err(e),
        }
    }
}

/// The address that the body of an address frame describes: the fixed
/// payload, then the attributes in order. A body that is cut short, an
/// attribute whose length is out of range, a text that is not valid UTF-8 or
/// cache information of fewer than eight bytes is malformed; an address of
/// another length than four or sixteen, or a prefix longer than its address,
/// is an invalid argument.
pub open spec fn addr_of_frame(buf: Seq<u8>) -> Result<AddressView, NetlinkError> {
    if buf.len() < IF_ADDR_MSG_SIZE {
        Err(NetlinkError::MalformedMessage)
    } else {
        let header = IfAddrMessage::decode(buf);
        match parse_attrs(buf.skip(IF_ADDR_MSG_SIZE as int)) {
            Some(attrs) => addr_fold(
                AddressView::of_header(header),
                header.ifa_prefix_len,
                attrs,
                0,
            ),
            None => Err(NetlinkError::MalformedMessage),
        }
    }
}

/// Reads an address from the body of an address frame.
pub fn addr_deserialize(buf: &[u8]) -> (r: Result<Address, NetlinkError>)
    ensures
        match addr_of_frame(buf@) {
            Ok(v) => r is Ok && r->Ok_0@ == v,
            Err(e) => r is Err && r->Err_0 == e,
        },
{
    let header = match IfAddrMessage::deserialize(buf) {
        Ok(h) => h,
        Err(e) => { return Err(e); },
    };
    let rest = vstd::slice::slice_subrange(buf, IF_ADDR_MSG_SIZE, buf.len());
    assert(rest@ =~= buf@.skip(IF_ADDR_MSG_SIZE as int));
    let rt_attrs = match NetlinkRouteAttr::from(rest) {
        Ok(attrs) => attrs,
        Err(e) => { return Err(e); },
    };
    let ghost all = trees(rt_attrs@);
    let mut addr = Address {
        index: header.ifa_index as i32,
        ip: IpNet { addr: IpAddr::V4([0, 0, 0, 0]), prefix_len: 0 },
        label: String::new(),
        flags: 0,
        scope: header.ifa_scope,
        broadcast: None,
        peer: None,
        local: None,
        preferred_lifetime: 0,
        valid_lifetime: 0,
    };
    let mut i: usize = 0;
    while i < rt_attrs.len()
        invariant
            0 <= i <= rt_attrs@.len(),
            all == trees(rt_attrs@),
            addr_of_frame(buf@) == addr_fold(addr@, header.ifa_prefix_len, all, i as int),
        decreases rt_attrs@.len() - i,
    {
        let attr = &rt_attrs[i];
        assert(all[i as int] == attr@);
        let t = attr.rt_attr.rta_type;
        let value = attr.value.as_slice();
        if t == IFA_ADDRESS {
            let ip = match vec_to_addr(vstd::slice::slice_to_vec(value)) {
                Ok(ip) => ip,
                Err(e) => { return Err(e); },
            };
            addr.ip = match IpNet::new(ip, header.ifa_prefix_len) {
                Ok(net) => net,
                Err(e) => { return Err(e); },
            };
        } else if t == IFA_LOCAL {
            let ip = match vec_to_addr(vstd::slice::slice_to_vec(value)) {
                Ok(ip) => ip,
                Err(e) => { return Err(e); },
            };
            addr.local = Some(ip);
        } else if t == IFA_BROADCAST {
            let ip = match vec_to_addr(vstd::slice::slice_to_vec(value)) {
                Ok(ip) => ip,
                Err(e) => { return Err(e); },
            };
            addr.broadcast = Some(ip);
        } else if t == IFA_LABEL {
            addr.label = match read_text(value) {
                Ok(t) => t,
                Err(e) => { return Err(e); },
            };
        } else if t == IFA_CACHEINFO {
            if value.len() < 8 {
                return Err(NetlinkError::MalformedMessage);
            }
            addr.preferred_lifetime = read_i32(value, 0);
            addr.valid_lifetime = read_i32(value, 4);
        }
        i += 1;
    }
    Ok(addr)
}

/// The octets that an address request names as the other end: the peer in
/// the family of the address itself, or the address where there is no peer.
/// None where the peer is an IPv6 address for which no IPv4 address stands
/// while the address itself is IPv4.
pub open spec fn peer_bytes(addr: AddressView) -> Option<Seq<u8>> {
    match addr.peer {
        None => Some(addr.ip.addr.bytes()),
        Some(peer) => match (addr.ip.addr, peer.addr) {
            (IpAddr::V6(_), IpAddr::V4(_)) => Some(peer.addr.mapped_v6()),
            (IpAddr::V4(_), IpAddr::V6(_)) => if peer.addr.has_v4() {
                Some(peer.addr.short_v4())
            } else {
                None
            },
            _ => Some(peer.addr.bytes()),
        },
    }
}

/// The octets of the broadcast address of an IPv4 address request: the one
/// that the address holds, or the highest address of its network.
pub open spec fn broadcast_bytes(addr: AddressView) -> Seq<u8> {
    match addr.broadcast {
        Some(b) => b.bytes(),
        None => broadcast_v4(addr.ip.addr.bytes(), addr.ip.prefix_len),
    }
}

/// The fixed payload of an address request.
pub open spec fn addr_payload(addr: AddressView, index: i32) -> IfAddrMessage {
    IfAddrMessage {
        ifa_family: addr.ip.addr.wire_family(),
        ifa_prefix_len: addr.ip.prefix_len,
        ifa_flags: addr.flags,
        ifa_scope: addr.scope,
        ifa_index: index as u32,
    }
}

/// The attributes that every address request begins with.
pub open spec fn addr_head_trees(addr: AddressView) -> Seq<AttrTree> {
    seq![
        AttrTree::leaf(IFA_LOCAL, addr.ip.addr.bytes()),
        AttrTree::leaf(IFA_ADDRESS, peer_bytes(addr)->Some_0),
    ]
}

/// The attributes that only the request for an IPv4 address has.
pub open spec fn addr_tail_trees(addr: AddressView) -> Seq<AttrTree> {
    if addr.ip.addr is V4 {
        seq![AttrTree::leaf(IFA_BROADCAST, broadcast_bytes(addr))] + opt_tree(
            addr.label.len() > 0,
            AttrTree::leaf(IFA_LABEL, text_z(addr.label)),
        )
    } else {
        Seq::empty()
    }
}

/// The attributes of an address request: the address, the other end, and
/// for IPv4 the broadcast address and the label where there is one.
pub open spec fn addr_trees(addr: AddressView) -> Seq<AttrTree> {
    addr_head_trees(addr) + addr_tail_trees(addr)
}

/// The request of type `proto` that puts `addr` on the link `index`: an
/// invalid argument where the prefix is longer than the address, a family
/// mismatch where nothing stands for the peer in the family of the address,
/// a malformed message where the label is too long for an attribute.
pub open spec fn addr_request(addr: AddressView, index: i32, proto: u16, flags: i32) -> Result<
    RequestView,
    NetlinkError,
> {
    if !addr.ip.wf() {
        Err(NetlinkError::InvalidArgument)
    } else if peer_bytes(addr) is None {
        Err(NetlinkError::FamilyMismatch)
    } else if !all_fit(addr_trees(addr)) {
        Err(NetlinkError::MalformedMessage)
    } else {
        Ok(request_view(proto, flags, Part::Addr(addr_payload(addr, index)), addr_trees(addr)))
    }
}

/// The octets of the other end of an address request.
fn peer_octets(addr: &Address) -> (r: Option<Vec<u8>>)
    ensures
        match peer_bytes(addr@) {
            Some(b) => r is Some && r->Some_0@ == b,
            None => r is None,
        },
        r is Some ==> r->Some_0@.len() <= 16,
{
    match &addr.peer {
        None => Some(addr.ip.addr.octets()),
        Some(peer) => match (&addr.ip.addr, &peer.addr) {
            (IpAddr::V6(_), IpAddr::V4(_)) => Some(peer.addr.to_ipv6_mapped()),
            (IpAddr::V4(_), IpAddr::V6(_)) => peer.addr.to_ipv4(),
            _ => Some(peer.addr.octets()),
        },
    }
}

/// Builds the request of type `proto` that puts `addr` on the link `index`.
pub fn build_addr_request(addr: &Address, index: i32, proto: u16, flags: i32) -> (r: Result<
    NetlinkRequest,
    NetlinkError,
>)
    ensures
        match addr_request(addr@, index, proto, flags) {
            Ok(v) => r is Ok && r->Ok_0@ == v && r->Ok_0.wf() && v.fits(),
            Err(e) => r is Err && r->Err_0 == e,
        },
{
    if !addr.ip.is_valid() {
        return Err(NetlinkError::InvalidArgument);
    }
    let peer = match peer_octets(addr) {
        Some(peer) => peer,
        None => { return Err(NetlinkError::FamilyMismatch); },
    };
    let ghost want = addr_trees(addr@);
    let msg = IfAddrMessage {
        ifa_family: addr.ip.addr.family(),
        ifa_prefix_len: addr.ip.prefix_len,
        ifa_flags: addr.flags,
        ifa_scope: addr.scope,
        ifa_index: index as u32,
    };
    let mut attrs: Vec<NetlinkRouteAttr> = Vec::new();
    attrs.push(NetlinkRouteAttr::new(IFA_LOCAL, addr.ip.addr.octets()));
    attrs.push(NetlinkRouteAttr::new(IFA_ADDRESS, peer));
    assert(trees(attrs@) =~= seq![
        AttrTree::leaf(IFA_LOCAL, addr@.ip.addr.bytes()),
        AttrTree::leaf(IFA_ADDRESS, peer_bytes(addr@)->Some_0),
    ]);
    match addr.ip.broadcast() {
        Some(derived) => {
            let broadcast = match &addr.broadcast {
                Some(b) => b.octets(),
                None => derived.octets(),
            };
            attrs.push(NetlinkRouteAttr::new(IFA_BROADCAST, broadcast));
            let ghost head = trees(attrs@);
            assert(head =~= seq![
                AttrTree::leaf(IFA_LOCAL, addr@.ip.addr.bytes()),
                AttrTree::leaf(IFA_ADDRESS, peer_bytes(addr@)->Some_0),
            ] + seq![AttrTree::leaf(IFA_BROADCAST, broadcast_bytes(addr@))]);
            if !addr.label.as_str().is_empty() {
                let label = NetlinkRouteAttr::try_new(
                    IFA_LABEL,
                    zero_terminated(addr.label.as_str()),
                );
                match label {
                    Some(label) => {
                        attrs.push(label);
                    },
                    None => {
                        assert(want[3] == AttrTree::leaf(IFA_LABEL, text_z(addr@.label)));
                        assert(!want[3].fits());
                        return Err(NetlinkError::MalformedMessage);
                    },
                }
            }
            assert(trees(attrs@) =~= want);
        },
        None => {
            assert(trees(attrs@) =~= want);
        },
    }
    proof {
        assert forall|i: int| 0 <= i < want.len() implies (#[trigger] want[i]).fits() by {
            assert(attrs@[i].wf());
            lemma_wf_fits(attrs@[i]);
        }
    }
    Ok(NetlinkRequest::with_attrs(proto, flags, NetlinkRequestData::Addr(msg), attrs))
}

/// Reading a list from a later index on is reading its second part, once
/// the first part is passed.
proof fn lemma_addr_fold_shift(addr: AddressView, n: u8, a: Seq<AttrTree>, b: Seq<AttrTree>, j: int)
    requires
        0 <= j <= b.len(),
    ensures
        addr_fold(addr, n, a + b, a.len() + j) == addr_fold(addr, n, b, j),
    decreases b.len() - j,
{
    if j < b.len() {
        assert((a + b)[a.len() + j] == b[j]);
        match addr_step(addr, n, b[j]) {
            Ok(next) => {
                lemma_addr_fold_shift(next, n, a, b, j + 1);
            },
            Err(_) => {},
        }
    }
}

/// Reading two lists in a row is reading the first and then the second.
proof fn lemma_addr_fold_append(addr: AddressView, n: u8, a: Seq<AttrTree>, b: Seq<AttrTree>, i: int)
    requires
        0 <= i <= a.len(),
    ensures
        addr_fold(addr, n, a + b, i) == match addr_fold(addr, n, a, i) {
            Ok(r) => addr_fold(r, n, b, 0),
            Err(e) => Err(e),
        },
    decreases a.len() - i,
{
    if i < a.len() {
        assert((a + b)[i] == a[i]);
        match addr_step(addr, n, a[i]) {
            Ok(next) => {
                lemma_addr_fold_append(next, n, a, b, i + 1);
            },
            Err(_) => {},
        }
    } else {
        lemma_addr_fold_shift(addr, n, a, b, 0);
    }
}

/// The octets of the other end spell an address of the family of the
/// address itself.
proof fn lemma_peer_family(addr: AddressView)
    requires
        peer_bytes(addr) is Some,
    ensures
        addr_of(peer_bytes(addr)->Some_0) is Ok,
        addr_of(peer_bytes(addr)->Some_0)->Ok_0.wire_family() == addr.ip.addr.wire_family(),
        addr.peer is None ==> addr_of(peer_bytes(addr)->Some_0)->Ok_0 == addr.ip.addr,
{
    crate::ip::lemma_addr_of_bytes(addr.ip.addr);
    if addr.peer is Some {
        crate::ip::lemma_addr_of_bytes(addr.peer->Some_0.addr);
    }
}

/// Reading a list of two attributes is two steps.
proof fn lemma_addr_fold_two(addr: AddressView, n: u8, a: AttrTree, b: AttrTree)
    ensures
        addr_fold(addr, n, seq![a, b], 0) == match addr_step(addr, n, a) {
            Ok(next) => addr_step(next, n, b),
            Err(e) => Err(e),
        },
{
    reveal_with_fuel(addr_fold, 4);
}

/// Reading a list of at most one attribute is one step, or none.
proof fn lemma_addr_fold_opt(addr: AddressView, n: u8, present: bool, t: AttrTree)
    ensures
        addr_fold(addr, n, opt_tree(present, t), 0) == if present {
            addr_step(addr, n, t)
        } else {
            Ok(addr)
        },
{
    reveal_with_fuel(addr_fold, 3);
}

/// What a reader finds in the body of an address request: the fixed
/// payload, and the attributes as they are.
proof fn lemma_addr_body(addr: AddressView, index: i32, proto: u16, flags: i32)
    requires
        addr_request(addr, index, proto, flags) is Ok,
    ensures
        addr_of_frame(addr_request(addr, index, proto, flags)->Ok_0.payload()) == addr_fold(
            AddressView::of_header(addr_payload(addr, index)),
            addr.ip.prefix_len,
            addr_head_trees(addr) + addr_tail_trees(addr),
            0,
        ),
{
    let header = addr_payload(addr, index);
    let list = addr_trees(addr);
    let body = addr_request(addr, index, proto, flags)->Ok_0.payload();
    crate::request::lemma_request_payload(proto, flags, Part::Addr(header), list);
    header.lemma_decode_emit(crate::attr::emit_all(list));
    assert(body.skip(IF_ADDR_MSG_SIZE as int) =~= crate::attr::emit_all(list));
    assert forall|i: int| 0 <= i < list.len() implies (#[trigger] list[i]).len()
        <= crate::attr::RT_ATTR_MAX_LEN && list[i].children.len() == 0 by {
        assert(list[i].fits());
    }
    crate::attr::lemma_parse_emit_leaves(list);
    assert(list =~= addr_head_trees(addr) + addr_tail_trees(addr));
}

/// What reading the first two attributes of an address request leaves: the
/// address as the local one, and the other end with the prefix length.
proof fn lemma_addr_fold_head(addr: AddressView, start: AddressView) -> (r: AddressView)
    requires
        addr.ip.wf(),
        peer_bytes(addr) is Some,
    ensures
        addr_fold(start, addr.ip.prefix_len, addr_head_trees(addr), 0) == Ok::<
            AddressView,
            NetlinkError,
        >(r),
        r.local == Some(addr.ip.addr),
        r.ip.prefix_len == addr.ip.prefix_len,
        r.ip.addr.wire_family() == addr.ip.addr.wire_family(),
        addr.peer is None ==> r.ip == addr.ip,
        r.index == start.index,
        r.scope == start.scope,
        r.label == start.label,
{
    let n = addr.ip.prefix_len;
    let local = AttrTree::leaf(IFA_LOCAL, addr.ip.addr.bytes());
    let other = AttrTree::leaf(IFA_ADDRESS, peer_bytes(addr)->Some_0);
    crate::ip::lemma_addr_of_bytes(addr.ip.addr);
    lemma_peer_family(addr);
    lemma_addr_fold_two(start, n, local, other);
    let with_local = AddressView { local: Some(addr.ip.addr), ..start };
    assert(addr_step(start, n, local) == Ok::<AddressView, NetlinkError>(with_local));
    addr_step(with_local, n, other)->Ok_0
}

/// What reading the attributes of an IPv4 address request behind the first
/// two leaves: the label as it was, and all else but the broadcast address
/// untouched.
proof fn lemma_addr_fold_tail(addr: AddressView, start: AddressView) -> (r: AddressView)
    requires
        start.label.len() == 0,
    ensures
        addr_fold(start, addr.ip.prefix_len, addr_tail_trees(addr), 0) == Ok::<
            AddressView,
            NetlinkError,
        >(r),
        r.local == start.local,
        r.ip == start.ip,
        r.index == start.index,
        r.scope == start.scope,
        addr.ip.addr is V4 ==> r.label == addr.label,
{
    let n = addr.ip.prefix_len;
    if addr.ip.addr is V4 {
        let bc = AttrTree::leaf(IFA_BROADCAST, broadcast_bytes(addr));
        let label = AttrTree::leaf(IFA_LABEL, text_z(addr.label));
        if addr.broadcast is Some {
            crate::ip::lemma_addr_of_bytes(addr.broadcast->Some_0);
        }
        crate::utils::lemma_text_roundtrip(addr.label);
        lemma_addr_fold_opt(start, n, true, bc);
        let sent = addr_step(start, n, bc);
        assert(sent is Ok);
        lemma_addr_fold_opt(sent->Ok_0, n, addr.label.len() > 0, label);
        lemma_addr_fold_append(start, n, seq![bc], opt_tree(addr.label.len() > 0, label), 0);
        assert(opt_tree(true, bc) == seq![bc]);
        addr_fold(start, n, addr_tail_trees(addr), 0)->Ok_0
    } else {
        reveal_with_fuel(addr_fold, 2);
        start
    }
}

/// Reading the body of the request that was built for an address gives back
/// the link, the scope, the prefix length and the family, and the address
/// itself where it has no peer; the address also comes back as the local
/// one, and the label of an IPv4 address as it was.
pub proof fn lemma_addr_roundtrip(addr: AddressView, index: i32, proto: u16, flags: i32)
    requires
        addr_request(addr, index, proto, flags) is Ok,
    ensures
        ({
            let r = addr_of_frame(addr_request(addr, index, proto, flags)->Ok_0.payload());
            &&& r is Ok
            &&& r->Ok_0.index == index
            &&& r->Ok_0.scope == addr.scope
            &&& r->Ok_0.ip.prefix_len == addr.ip.prefix_len
            &&& r->Ok_0.ip.addr.wire_family() == addr.ip.addr.wire_family()
            &&& addr.peer is None ==> r->Ok_0.ip == addr.ip
            &&& r->Ok_0.local == Some(addr.ip.addr)
            &&& addr.ip.addr is V4 ==> r->Ok_0.label == addr.label
        }),
{
    let start = AddressView::of_header(addr_payload(addr, index));
    assert((index as u32) as i32 == index) by (bit_vector);
    lemma_addr_body(addr, index, proto, flags);
    let mid = lemma_addr_fold_head(addr, start);
    let end = lemma_addr_fold_tail(addr, mid);
    lemma_addr_fold_append(
        start,
        addr.ip.prefix_len,
        addr_head_trees(addr),
        addr_tail_trees(addr),
        0,
    );
}

/// The request that asks for the addresses of every link, in the given
/// family or, with family zero, in all.
pub open spec fn addr_show_request(family: i32) -> RequestView {
    request_view(
        crate::consts::RTM_GETADDR,
        crate::consts::NLM_F_DUMP,
        Part::Addr(
            IfAddrMessage {
                ifa_family: family as u8,
                ifa_prefix_len: 0,
                ifa_flags: 0,
                ifa_scope: 0,
                ifa_index: 0,
            },
        ),
        Seq::empty(),
    )
}

/// Builds the request that asks for the addresses of every link.
pub fn build_addr_show_request(family: i32) -> (r: NetlinkRequest)
    ensures
        r@ == addr_show_request(family),
        r.wf(),
{
    let attrs: Vec<NetlinkRouteAttr> = Vec::new();
    assert(trees(attrs@) =~= Seq::<AttrTree>::empty());
    NetlinkRequest::with_attrs(
        crate::consts::RTM_GETADDR,
        crate::consts::NLM_F_DUMP,
        NetlinkRequestData::Addr(IfAddrMessage::new(family)),
        attrs,
    )
}

/// The addresses on the link `index` among the first `n` bodies of a reply,
/// in the order of the reply; the failure of the first body that does not
/// read as an address.
pub open spec fn addrs_on_link(msgs: Seq<Seq<u8>>, index: i32, n: int) -> Result<
    Seq<AddressView>,
    NetlinkError,
>
    decreases n,
{
    if n <= 0 || n > msgs.len() {
        Ok(Seq::empty())
    } else {
        match addrs_on_link(msgs, index, n - 1) {
            Ok(found) => match addr_of_frame(msgs[n - 1]) {
                Ok(addr) => if addr.index == index {
                    Ok(found.push(addr))
                } else {
                    Ok(found)
                },
                Err(e) => Err(e),
            },
            Err(e) => Err(e),
        }
    }
}

/// The mathematical values of a list of addresses.
pub open spec fn addr_views(v: Seq<Address>) -> Seq<AddressView> {
    Seq::new(v.len(), |i: int| v[i]@)
}

/// Reads the addresses of the link `index` from the bodies of a reply.
pub fn addrs_from_reply(msgs: &Vec<Vec<u8>>, index: i32) -> (r: Result<Vec<Address>, NetlinkError>)
    ensures
        match addrs_on_link(crate::handle::bodies(msgs@), index, msgs@.len() as int) {
            Ok(found) => r is Ok && addr_views(r->Ok_0@) == found,
            Err(e) => r is Err && r->Err_0 == e,
        },
{
    let ghost all = crate::handle::bodies(msgs@);
    let mut res: Vec<Address> = Vec::new();
    let mut i: usize = 0;
    assert(addr_views(res@) =~= Seq::<AddressView>::empty());
    while i < msgs.len()
        invariant
            0 <= i <= msgs@.len(),
            all == crate::handle::bodies(msgs@),
            addrs_on_link(all, index, i as int) == Ok::<Seq<AddressView>, NetlinkError>(
                addr_views(res@),
            ),
        decreases msgs@.len() - i,
    {
        assert(all[i as int] == msgs@[i as int]@);
        let addr = match addr_deserialize(msgs[i].as_slice()) {
            Ok(addr) => addr,
            Err(e) => {
                proof {
                    lemma_addrs_on_link_err(all, index, i + 1, msgs@.len() as int);
                }
                return Err(e);
            },
        };
        if addr.index == index {
            let ghost before = addr_views(res@);
            res.push(addr);
            assert(addr_views(res@) =~= before.push(addr@));
        }
        i += 1;
    }
    Ok(res)
}

/// Once a body has failed to read, the reply has failed with its failure.
proof fn lemma_addrs_on_link_err(msgs: Seq<Seq<u8>>, index: i32, n: int, m: int)
    requires
        0 <= n <= m <= msgs.len(),
        addrs_on_link(msgs, index, n) is Err,
    ensures
        addrs_on_link(msgs, index, m) == addrs_on_link(msgs, index, n),
    decreases m - n,
{
    if n < m {
        lemma_addrs_on_link_err(msgs, index, n, m - 1);
    }
}

} // verus!
