//! Routes: the model, its reading from a route frame, and the request that
//! adds, changes or deletes a route.

use vstd::prelude::*;
use crate::attr::{parse_attrs, trees, AttrTree, NetlinkRouteAttr};
use crate::consts::{
    ENOENT, ROUTE_MSG_SIZE, RTA_DST, RTA_GATEWAY, RTA_IIF, RTA_OIF, RTA_PREFSRC, RTM_DELROUTE,
    RTM_GETROUTE, RTN_UNICAST, RTPROT_BOOT, RT_SCOPE_UNIVERSE, RT_TABLE_MAIN,
};
use crate::error::NetlinkError;
use crate::ip::{addr_of, net_of, vec_to_addr, IpAddr, IpNet};
use crate::link_request::{leaf_i32, opt_tree};
use crate::message::RouteMessage;
use crate::request::{request_view, NetlinkRequest, NetlinkRequestData, Part, RequestView};
use crate::wire::{i32_at, i32_to_bytes, value_i32};

verus! {

/// What is done with a route.
#[derive(Clone, Copy, Debug, PartialEq, Eq)]
pub enum RtCmd {
    Add,
    Append,
    Replace,
    Del,
}

/// A route.
#[derive(Clone, Copy, Debug, PartialEq, Eq)]
pub struct Route {
    pub oif_index: i32,
    pub iif_index: i32,
    pub family: u8,
    pub dst: Option<IpNet>,
    pub src: Option<IpAddr>,
    pub gw: Option<IpAddr>,
    pub tos: u8,
    pub table: u8,
    pub protocol: u8,
    pub scope: u8,
    pub rtm_type: u8,
    pub flags: u32,
}

impl Route {
    /// The route of which nothing is known: no address, every number zero.
    pub open spec fn zero() -> Route {
        Route {
            oif_index: 0,
            iif_index: 0,
            family: 0,
            dst: None,
            src: None,
            gw: None,
            tos: 0,
            table: 0,
            protocol: 0,
            scope: 0,
            rtm_type: 0,
            flags: 0,
        }
    }

    /// The route that a route frame's fixed payload states.
    pub open spec fn of_header(h: RouteMessage) -> Route {
        Route {
            family: h.family,
            tos: h.tos,
            table: h.table,
            protocol: h.protocol,
            scope: h.scope,
            rtm_type: h.rtm_type,
            ..Route::zero()
        }
    }
}

impl Default for Route {
    fn default() -> (r: Self)
        ensures
            r == Route::zero(),
    {
        Route {
            oif_index: 0,
            iif_index: 0,
            family: 0,
            dst: None,
            src: None,
            gw: None,
            tos: 0,
            table: 0,
            protocol: 0,
            scope: 0,
            rtm_type: 0,
            flags: 0,
        }
    }
}

/// The route after one more attribute of a route frame is read. The
/// destination takes its prefix length from the frame's fixed payload.
/// Attributes of other types than the five named here change nothing.
pub open spec fn route_step(route: Route, dst_len: u8, a: AttrTree) -> Result<Route, NetlinkError> {
    if a.rta_type == RTA_GATEWAY {
        match addr_of(a.value) {
            Ok(ip) => Ok(Route { gw: Some(ip), ..route }),
            Err(e) => Err(e),
        }
    } else if a.rta_type == RTA_PREFSRC {
        match addr_of(a.value) {
            Ok(ip) => Ok(Route { src: Some(ip), ..route }),
            Err(e) => Err(e),
        }
    } else if a.rta_type == RTA_DST {
        match addr_of(a.value) {
            Ok(ip) => match net_of(ip, dst_len) {
                Ok(net) => Ok(Route { dst: Some(net), ..route }),
                Err(e) => Err(e),
            },
            Err(e) => Err(e),
        }
    } else if a.rta_type == RTA_OIF {
        match i32_at(a.value) {
            Some(v) => Ok(Route { oif_index: v, ..route }),
            None => Err(NetlinkError::MalformedMessage),
        }
    } else if a.rta_type == RTA_IIF {
        match i32_at(a.value) {
            Some(v) => Ok(Route { iif_index: v, ..route }),
            None => Err(NetlinkError::MalformedMessage),
        }
    } else {
        Ok(route)
    }
}

/// The route that the attributes from index `i` on make of `route`.
pub open spec fn route_fold(route: Route, dst_len: u8, attrs: Seq<AttrTree>, i: int) -> Result<
    Route,
    NetlinkError,
>
    decreases attrs.len() - i,
{
    if i < 0 || i >= attrs.len() {
        Ok(route)
    } else {
        match route_step(route, dst_len, attrs[i]) {
            Ok(next) => route_fold(next, dst_len, attrs, i + 1),
            Err(e) => Err(e),
        }
    }
}

/// The route that the body of a route frame describes: the fixed payload,
/// then the attributes in order. A body that is cut short, or an attribute
/// whose length is out of range or whose number lacks bytes, is malformed; an
/// address of another length than four or sixteen, or a prefix longer than
/// its address, is an invalid argument.
pub open spec fn route_of_bytes(buf: Seq<u8>) -> Result<Route, NetlinkError> {
    if buf.len() < ROUTE_MSG_SIZE {
        Err(NetlinkError::MalformedMessage)
    } else {
        let header = RouteMessage::decode(buf);
        match parse_attrs(buf.skip(ROUTE_MSG_SIZE as int)) {
            Some(attrs) => route_fold(Route::of_header(header), header.dst_len, attrs, 0),
            None => Err(NetlinkError::MalformedMessage),
        }
    }
}

/// Reads a route from the body of a route frame.
pub fn route_deserialize(buf: &[u8]) -> (r: Result<Route, NetlinkError>)
    ensures
        r == route_of_bytes(buf@),
{
    let header = match RouteMessage::deserialize(buf) {
        Ok(h) => h,
        Err(e) => { return Err(e); },
    };
    let rest = vstd::slice::slice_subrange(buf, ROUTE_MSG_SIZE, buf.len());
    assert(rest@ =~= buf@.skip(ROUTE_MSG_SIZE as int));
    let rt_attrs = match NetlinkRouteAttr::from(rest) {
        Ok(attrs) => attrs,
        Err(e) => { return Err(e); },
    };
    let ghost all = trees(rt_attrs@);
    let mut route = Route {
        oif_index: 0,
        iif_index: 0,
        family: header.family,
        dst: None,
        src: None,
        gw: None,
        tos: header.tos,
        table: header.table,
        protocol: header.protocol,
        scope: header.scope,
        rtm_type: header.rtm_type,
        flags: 0,
    };
    let mut i: usize = 0;
    while i < rt_attrs.len()
        invariant
            0 <= i <= rt_attrs@.len(),
            all == trees(rt_attrs@),
            route_of_bytes(buf@) == route_fold(route, header.dst_len, all, i as int),
        decreases rt_attrs@.len() - i,
    {
        let attr = &rt_attrs[i];
        assert(all[i as int] == attr@);
        let t = attr.rt_attr.rta_type;
        if t == RTA_GATEWAY {
            let ip = match vec_to_addr(vstd::slice::slice_to_vec(attr.value.as_slice())) {
                Ok(ip) => ip,
                Err(e) => { return Err(e); },
            };
            route.gw = Some(ip);
        } else if t == RTA_PREFSRC {
            let ip = match vec_to_addr(vstd::slice::slice_to_vec(attr.value.as_slice())) {
                Ok(ip) => ip,
                Err(e) => { return Err(e); },
            };
            route.src = Some(ip);
        } else if t == RTA_DST {
            let ip = match vec_to_addr(vstd::slice::slice_to_vec(attr.value.as_slice())) {
                Ok(ip) => ip,
                Err(e) => { return Err(e); },
            };
            let net = match IpNet::new(ip, header.dst_len) {
                Ok(net) => net,
                Err(e) => { return Err(e); },
            };
            route.dst = Some(net);
        } else if t == RTA_OIF {
            route.oif_index = match value_i32(attr.value.as_slice()) {
                Ok(v) => v,
                Err(e) => { return Err(e); },
            };
        } else if t == RTA_IIF {
            route.iif_index = match value_i32(attr.value.as_slice()) {
                Ok(v) => v,
                Err(e) => { return Err(e); },
            };
        }
        i += 1;
    }
    Ok(route)
}

/// The address family of a route's request: that of the destination, else
/// of the preferred source, else of the gateway, and zero without any of
/// them.
pub open spec fn route_family(route: Route) -> u8 {
    if route.dst is Some {
        route.dst->Some_0.addr.wire_family()
    } else if route.src is Some {
        route.src->Some_0.wire_family()
    } else if route.gw is Some {
        route.gw->Some_0.wire_family()
    } else {
        0
    }
}

/// Whether the addresses that a route holds are of one family.
pub open spec fn families_agree(route: Route) -> bool {
    &&& route.src is Some ==> route.src->Some_0.wire_family() == route_family(route)
    &&& route.gw is Some ==> route.gw->Some_0.wire_family() == route_family(route)
}

/// The fixed payload of a route's request. A request that deletes names no
/// table, protocol or type; any other names the main table, the boot
/// protocol and a unicast route. Family, prefix length, flags and scope are
/// the route's.
pub open spec fn route_payload(route: Route, proto: u16) -> RouteMessage {
    let base = if proto == RTM_DELROUTE {
        RouteMessage::zero()
    } else {
        RouteMessage {
            table: RT_TABLE_MAIN,
            protocol: RTPROT_BOOT,
            scope: RT_SCOPE_UNIVERSE,
            rtm_type: RTN_UNICAST,
            ..RouteMessage::zero()
        }
    };
    RouteMessage {
        family: route_family(route),
        dst_len: match route.dst {
            Some(net) => net.prefix_len,
            None => 0,
        },
        flags: route.flags,
        scope: route.scope,
        ..base
    }
}

/// The attributes of a route's request: the index of the outgoing link
/// unless the request asks for a route and names no link, then the
/// destination, the preferred source and the gateway as far as the route
/// holds them.
pub open spec fn route_trees(route: Route, proto: u16) -> Seq<AttrTree> {
    opt_tree(proto != RTM_GETROUTE || route.oif_index != 0, leaf_i32(RTA_OIF, route.oif_index))
        + opt_tree(route.dst is Some, AttrTree::leaf(RTA_DST, route.dst->Some_0.addr.bytes()))
        + opt_tree(route.src is Some, AttrTree::leaf(RTA_PREFSRC, route.src->Some_0.bytes()))
        + opt_tree(route.gw is Some, AttrTree::leaf(RTA_GATEWAY, route.gw->Some_0.bytes()))
}

/// The request of type `proto` for `route`: an invalid argument where the
/// destination's prefix is longer than its address, a family mismatch where
/// the route's addresses are not of one family.
pub open spec fn route_request(route: Route, proto: u16, flags: i32) -> Result<
    RequestView,
    NetlinkError,
> {
    if route.dst is Some && !route.dst->Some_0.wf() {
        Err(NetlinkError::InvalidArgument)
    } else if !families_agree(route) {
        Err(NetlinkError::FamilyMismatch)
    } else {
        Ok(
            request_view(
                proto,
                flags,
                Part::Route(route_payload(route, proto)),
                route_trees(route, proto),
            ),
        )
    }
}

/// Pushes an attribute that holds the octets of `ip`.
fn push_addr(list: &mut Vec<NetlinkRouteAttr>, rta_type: u16, ip: &IpAddr)
    requires
        forall|i: int| 0 <= i < old(list)@.len() ==> (#[trigger] old(list)@[i]).wf(),
    ensures
        trees(final(list)@) == trees(old(list)@).push(AttrTree::leaf(rta_type, ip.bytes())),
        forall|i: int| 0 <= i < final(list)@.len() ==> (#[trigger] final(list)@[i]).wf(),
{
    let attr = NetlinkRouteAttr::new(rta_type, ip.octets());
    list.push(attr);
    assert(trees(list@) =~= trees(old(list)@).push(attr@));
}

/// Builds the request of type `proto` for `route`.
pub fn build_route_request(route: &Route, proto: u16, flags: i32) -> (r: Result<
    NetlinkRequest,
    NetlinkError,
>)
    ensures
        match route_request(*route, proto, flags) {
            Ok(v) => r is Ok && r->Ok_0@ == v && r->Ok_0.wf() && v.fits(),
            Err(e) => r is Err && r->Err_0 == e,
        },
{
    let mut msg = if proto == RTM_DELROUTE {
        RouteMessage::new_rt_del_msg()
    } else {
        RouteMessage::new_rt_msg()
    };
    let mut attrs: Vec<NetlinkRouteAttr> = Vec::new();
    assert(trees(attrs@) =~= Seq::<AttrTree>::empty());
    if proto != RTM_GETROUTE || route.oif_index != 0 {
        let attr = NetlinkRouteAttr::new(RTA_OIF, i32_to_bytes(route.oif_index));
        attrs.push(attr);
    }
    assert(trees(attrs@) =~= opt_tree(
        proto != RTM_GETROUTE || route.oif_index != 0,
        leaf_i32(RTA_OIF, route.oif_index),
    ));
    match &route.dst {
        Some(dst) => {
            if !dst.is_valid() {
                return Err(NetlinkError::InvalidArgument);
            }
            msg.family = dst.addr.family();
            msg.dst_len = dst.prefix_len;
            push_addr(&mut attrs, RTA_DST, &dst.addr);
        },
        None => {},
    }
    let ghost after_dst = trees(attrs@);
    assert(after_dst =~= opt_tree(
        proto != RTM_GETROUTE || route.oif_index != 0,
        leaf_i32(RTA_OIF, route.oif_index),
    ) + opt_tree(route.dst is Some, AttrTree::leaf(RTA_DST, route.dst->Some_0.addr.bytes())));
    match &route.src {
        Some(src) => {
            let family = src.family();
            if msg.family == 0 {
                msg.family = family;
            } else if msg.family != family {
                return Err(NetlinkError::FamilyMismatch);
            }
            push_addr(&mut attrs, RTA_PREFSRC, src);
        },
        None => {},
    }
    let ghost after_src = trees(attrs@);
    assert(after_src =~= after_dst + opt_tree(
        route.src is Some,
        AttrTree::leaf(RTA_PREFSRC, route.src->Some_0.bytes()),
    ));
    match &route.gw {
        Some(gw) => {
            let family = gw.family();
            if msg.family == 0 {
                msg.family = family;
            } else if msg.family != family {
                return Err(NetlinkError::FamilyMismatch);
            }
            push_addr(&mut attrs, RTA_GATEWAY, gw);
        },
        None => {},
    }
    assert(trees(attrs@) =~= route_trees(*route, proto));
    msg.flags = route.flags;
    msg.scope = route.scope;
    assert(msg == route_payload(*route, proto));
    Ok(NetlinkRequest::with_attrs(proto, flags, NetlinkRequestData::Route(msg), attrs))
}

/// Reading a list from a later index on is reading its second part, once
/// the first part is passed.
proof fn lemma_route_fold_shift(route: Route, dst_len: u8, a: Seq<AttrTree>, b: Seq<AttrTree>, j: int)
    requires
        0 <= j <= b.len(),
    ensures
        route_fold(route, dst_len, a + b, a.len() + j) == route_fold(route, dst_len, b, j),
    decreases b.len() - j,
{
    if j < b.len() {
        assert((a + b)[a.len() + j] == b[j]);
        match route_step(route, dst_len, b[j]) {
            Ok(next) => {
                lemma_route_fold_shift(next, dst_len, a, b, j + 1);
            },
            Err(_) => {},
        }
    }
}

/// Reading two lists in a row is reading the first and then the second.
proof fn lemma_route_fold_append(route: Route, dst_len: u8, a: Seq<AttrTree>, b: Seq<AttrTree>, i: int)
    requires
        0 <= i <= a.len(),
    ensures
        route_fold(route, dst_len, a + b, i) == match route_fold(route, dst_len, a, i) {
            Ok(r) => route_fold(r, dst_len, b, 0),
            Err(e) => Err(e),
        },
    decreases a.len() - i,
{
    if i < a.len() {
        assert((a + b)[i] == a[i]);
        match route_step(route, dst_len, a[i]) {
            Ok(next) => {
                lemma_route_fold_append(next, dst_len, a, b, i + 1);
            },
            Err(_) => {},
        }
    } else {
        lemma_route_fold_shift(route, dst_len, a, b, 0);
    }
}

/// Reading a list of at most one attribute is one step, or none.
proof fn lemma_route_fold_opt(route: Route, dst_len: u8, present: bool, t: AttrTree)
    ensures
        route_fold(route, dst_len, opt_tree(present, t), 0) == if present {
            route_step(route, dst_len, t)
        } else {
            Ok(route)
        },
{
    reveal_with_fuel(route_fold, 3);
}

/// Reading the body of the request that was built for a route gives back
/// the route's destination, preferred source, gateway and outgoing link,
/// and the family and the scope that the request states.
pub proof fn lemma_route_roundtrip(route: Route, proto: u16, flags: i32)
    requires
        route_request(route, proto, flags) is Ok,
    ensures
        ({
            let r = route_of_bytes(route_request(route, proto, flags)->Ok_0.payload());
            &&& r is Ok
            &&& r->Ok_0.dst == route.dst
            &&& r->Ok_0.src == route.src
            &&& r->Ok_0.gw == route.gw
            &&& r->Ok_0.oif_index == route.oif_index
            &&& r->Ok_0.family == route_family(route)
            &&& r->Ok_0.scope == route.scope
        }),
{
    let header = route_payload(route, proto);
    let list = route_trees(route, proto);
    let body = route_request(route, proto, flags)->Ok_0.payload();
    crate::request::lemma_request_payload(proto, flags, Part::Route(header), list);
    header.lemma_decode_emit(crate::attr::emit_all(list));
    assert(body.skip(ROUTE_MSG_SIZE as int) =~= crate::attr::emit_all(list));
    let oif = leaf_i32(RTA_OIF, route.oif_index);
    let p1 = opt_tree(proto != RTM_GETROUTE || route.oif_index != 0, oif);
    let p2 = opt_tree(route.dst is Some, AttrTree::leaf(RTA_DST, route.dst->Some_0.addr.bytes()));
    let p3 = opt_tree(route.src is Some, AttrTree::leaf(RTA_PREFSRC, route.src->Some_0.bytes()));
    let p4 = opt_tree(route.gw is Some, AttrTree::leaf(RTA_GATEWAY, route.gw->Some_0.bytes()));
    assert(list == p1 + p2 + p3 + p4);
    assert forall|i: int| 0 <= i < list.len() implies (#[trigger] list[i]).len()
        <= crate::attr::RT_ATTR_MAX_LEN && list[i].children.len() == 0 by {
        crate::wire::lemma_le_roundtrip(0, 0, route.oif_index);
    }
    crate::attr::lemma_parse_emit_leaves(list);
    let r0 = Route::of_header(header);
    let n = header.dst_len;
    crate::wire::lemma_le_roundtrip(0, 0, route.oif_index);
    assert(i32_at(crate::wire::le_i32(route.oif_index)) == Some(route.oif_index));
    if route.dst is Some {
        crate::ip::lemma_addr_of_bytes(route.dst->Some_0.addr);
    }
    if route.src is Some {
        crate::ip::lemma_addr_of_bytes(route.src->Some_0);
    }
    if route.gw is Some {
        crate::ip::lemma_addr_of_bytes(route.gw->Some_0);
    }
    lemma_route_fold_opt(r0, n, proto != RTM_GETROUTE || route.oif_index != 0, oif);
    let r1 = route_fold(r0, n, p1, 0)->Ok_0;
    lemma_route_fold_opt(
        r1,
        n,
        route.dst is Some,
        AttrTree::leaf(RTA_DST, route.dst->Some_0.addr.bytes()),
    );
    lemma_route_fold_append(r0, n, p1, p2, 0);
    let r2 = route_fold(r0, n, p1 + p2, 0)->Ok_0;
    lemma_route_fold_opt(
        r2,
        n,
        route.src is Some,
        AttrTree::leaf(RTA_PREFSRC, route.src->Some_0.bytes()),
    );
    lemma_route_fold_append(r0, n, p1 + p2, p3, 0);
    let r3 = route_fold(r0, n, p1 + p2 + p3, 0)->Ok_0;
    lemma_route_fold_opt(
        r3,
        n,
        route.gw is Some,
        AttrTree::leaf(RTA_GATEWAY, route.gw->Some_0.bytes()),
    );
    lemma_route_fold_append(r0, n, p1 + p2 + p3, p4, 0);
}

/// The request that asks the kernel which route leads to `dst`: the whole
/// address is the destination's prefix.
pub open spec fn route_get_request(dst: IpAddr) -> RequestView {
    request_view(
        RTM_GETROUTE,
        crate::consts::NLM_F_ACK,
        Part::Route(
            RouteMessage {
                family: dst.wire_family(),
                dst_len: dst.max_prefix(),
                ..RouteMessage::zero()
            },
        ),
        seq![AttrTree::leaf(RTA_DST, dst.bytes())],
    )
}

/// Builds the request that asks the kernel which route leads to `dst`.
pub fn build_route_get_request(dst: &IpAddr) -> (r: NetlinkRequest)
    ensures
        r@ == route_get_request(*dst),
        r.wf(),
{
    let mut msg = RouteMessage::new_rt_del_msg();
    msg.family = dst.family();
    msg.dst_len = match dst {
        IpAddr::V4(_) => 32,
        IpAddr::V6(_) => 128,
    };
    let mut attrs: Vec<NetlinkRouteAttr> = Vec::new();
    assert(trees(attrs@) =~= Seq::<AttrTree>::empty());
    push_addr(&mut attrs, RTA_DST, dst);
    assert(trees(attrs@) =~= seq![AttrTree::leaf(RTA_DST, dst.bytes())]);
    NetlinkRequest::with_attrs(
        RTM_GETROUTE,
        crate::consts::NLM_F_ACK,
        NetlinkRequestData::Route(msg),
        attrs,
    )
}

/// What the reply to a request for one route means: exactly one body is the
/// route; none, or the kernel's word that there is no such entry, means that
/// no route was found; several bodies are ambiguous; any other failure of
/// the exchange stays what it is.
pub fn route_from_reply(reply: Result<Vec<Vec<u8>>, NetlinkError>) -> (r: Result<
    Vec<Route>,
    NetlinkError,
>)
    ensures
        match reply {
            Ok(msgs) => if msgs@.len() == 0 {
                r is Err && r->Err_0 == NetlinkError::NotFound
            } else if msgs@.len() == 1 {
                match route_of_bytes(msgs@[0]@) {
                    Ok(route) => r is Ok && r->Ok_0@ == seq![route],
                    Err(e) => r is Err && r->Err_0 == e,
                }
            } else {
                r is Err && r->Err_0 == NetlinkError::Ambiguous
            },
            Err(e) => r is Err && if e is KernelError && e->KernelError_errno == ENOENT {
                r->Err_0 == NetlinkError::NotFound
            } else {
                r->Err_0 == e
            },
        },
{
    match reply {
        Ok(msgs) => {
            if msgs.len() == 0 {
                Err(NetlinkError::NotFound)
            } else if msgs.len() == 1 {
                match route_deserialize(msgs[0].as_slice()) {
                    Ok(route) => {
                        let mut res: Vec<Route> = Vec::new();
                        res.push(route);
                        assert(res@ =~= seq![route]);
                        Ok(res)
                    },
                    Err(e) => Err(e),
                }
            } else {
                Err(NetlinkError::Ambiguous)
            }
        },
        Err(e) => {
            let missing = match &e {
                NetlinkError::KernelError { errno, .. } => *errno == ENOENT,
                _ => false,
            };
            if missing {
                Err(NetlinkError::NotFound)
            } else {
                Err(e)
            }
        },
    }
}

} // verus!
