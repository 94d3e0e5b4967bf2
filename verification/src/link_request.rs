//! The request that creates or changes a link: the link's attributes as a
//! tree, with the data of a bridge or a veth nested in it.

use vstd::prelude::*;
use crate::attr::{
    all_fit, attr_map, lemma_parse_nested, lemma_wf_fits, lemma_with_child_fits, parse_attrs,
    trees, AttrTree, NetlinkRouteAttr,
};
use crate::consts::{
    AF_UNSPEC, IFF_UP, IFLA_ADDRESS, IFLA_BR_AGEING_TIME, IFLA_BR_HELLO_TIME,
    IFLA_BR_MCAST_SNOOPING, IFLA_BR_VLAN_FILTERING, IFLA_IFNAME, IFLA_INFO_DATA, IFLA_INFO_KIND,
    IFLA_LINKINFO, IFLA_MTU, IFLA_NET_NS_FD, IFLA_NET_NS_PID, IFLA_NUM_RX_QUEUES,
    IFLA_NUM_TX_QUEUES, IFLA_TXQLEN, RTM_NEWLINK, VETH_INFO_PEER,
};
use crate::error::NetlinkError;
use crate::link::{
    info_fold, info_step, link_fold, link_info_of, link_of_bytes, link_of_state, link_step,
    table_flag, table_u32, Kind, KindView, Link, LinkAttrs, LinkAttrsView, LinkState, Namespace,
};
use crate::message::IfInfoMessage;
use crate::request::{request_view, NetlinkRequest, NetlinkRequestData, Part, RequestView};
use crate::utils::{opt_bytes, text_of, zero_terminated};
use crate::wire::{i32_to_bytes, le_i32, le_u32, u32_to_bytes};

verus! {

/// An attribute that holds one number.
pub open spec fn leaf_u32(rta_type: u16, v: u32) -> AttrTree {
    AttrTree::leaf(rta_type, le_u32(v))
}

/// An attribute that holds one signed number.
pub open spec fn leaf_i32(rta_type: u16, v: i32) -> AttrTree {
    AttrTree::leaf(rta_type, le_i32(v))
}

/// An attribute that holds one switch: a byte that is one or zero.
pub open spec fn leaf_flag(rta_type: u16, on: bool) -> AttrTree {
    AttrTree::leaf(
        rta_type,
        seq![if on {
            1u8
        } else {
            0u8
        }],
    )
}

/// The list that holds `t` where `present` is true, and nothing else.
pub open spec fn opt_tree(present: bool, t: AttrTree) -> Seq<AttrTree> {
    if present {
        seq![t]
    } else {
        Seq::empty()
    }
}

/// The UTF-8 bytes of a text, followed by a zero byte.
pub open spec fn text_z(s: Seq<char>) -> Seq<u8> {
    vstd::utf8::encode_utf8(s).push(0u8)
}

/// The settings of a bridge as the attributes nested in its kind's data:
/// each one only where it is set.
pub open spec fn bridge_children(
    hello_time: Option<u32>,
    ageing_time: Option<u32>,
    multicast_snooping: Option<bool>,
    vlan_filtering: Option<bool>,
) -> Seq<AttrTree> {
    opt_tree(hello_time is Some, leaf_u32(IFLA_BR_HELLO_TIME, hello_time->Some_0)) + opt_tree(
        ageing_time is Some,
        leaf_u32(IFLA_BR_AGEING_TIME, ageing_time->Some_0),
    ) + opt_tree(
        multicast_snooping is Some,
        leaf_flag(IFLA_BR_MCAST_SNOOPING, multicast_snooping->Some_0),
    ) + opt_tree(vlan_filtering is Some, leaf_flag(IFLA_BR_VLAN_FILTERING, vlan_filtering->Some_0))
}

/// The data attribute of a bridge.
pub open spec fn bridge_data(
    hello_time: Option<u32>,
    ageing_time: Option<u32>,
    multicast_snooping: Option<bool>,
    vlan_filtering: Option<bool>,
) -> AttrTree {
    AttrTree {
        rta_type: IFLA_INFO_DATA,
        value: Seq::empty(),
        children: bridge_children(hello_time, ageing_time, multicast_snooping, vlan_filtering),
    }
}

/// The attribute that names the namespace of a veth's peer, if there is one.
pub open spec fn namespace_tree(peer_ns: Option<Namespace>) -> Seq<AttrTree> {
    match peer_ns {
        Some(Namespace::Pid(pid)) => seq![leaf_i32(IFLA_NET_NS_PID, pid)],
        Some(Namespace::Fd(fd)) => seq![leaf_i32(IFLA_NET_NS_FD, fd)],
        None => Seq::empty(),
    }
}

/// The attributes of a veth's peer: its name, then what it takes over from
/// the link itself (the queue length always, the other numbers where they
/// are set), its hardware address and its namespace.
pub open spec fn veth_peer_children(
    base: LinkAttrsView,
    peer_name: Seq<char>,
    peer_hw_addr: Option<Seq<u8>>,
    peer_ns: Option<Namespace>,
) -> Seq<AttrTree> {
    seq![AttrTree::leaf(IFLA_IFNAME, text_z(peer_name))] + opt_tree(
        base.mtu > 0,
        leaf_u32(IFLA_MTU, base.mtu),
    ) + seq![leaf_i32(IFLA_TXQLEN, base.tx_queue_len)] + opt_tree(
        base.num_tx_queues > 0,
        leaf_i32(IFLA_NUM_TX_QUEUES, base.num_tx_queues),
    ) + opt_tree(base.num_rx_queues > 0, leaf_i32(IFLA_NUM_RX_QUEUES, base.num_rx_queues))
        + opt_tree(peer_hw_addr is Some, AttrTree::leaf(IFLA_ADDRESS, peer_hw_addr->Some_0))
        + namespace_tree(peer_ns)
}

/// The fixed payload of a link whose family is unspecified and whose other
/// fields are zero.
pub open spec fn unspec_info() -> IfInfoMessage {
    IfInfoMessage {
        ifi_family: 0,
        _ifi_pad: 0,
        ifi_type: 0,
        ifi_index: 0,
        ifi_flags: 0,
        ifi_change: 0,
    }
}

/// The attribute that describes a veth's peer: a complete link payload, then
/// the peer's attributes.
pub open spec fn veth_peer(
    base: LinkAttrsView,
    peer_name: Seq<char>,
    peer_hw_addr: Option<Seq<u8>>,
    peer_ns: Option<Namespace>,
) -> AttrTree {
    AttrTree {
        rta_type: VETH_INFO_PEER,
        value: unspec_info().emit(),
        children: veth_peer_children(base, peer_name, peer_hw_addr, peer_ns),
    }
}

/// The data attribute of a veth: it holds the peer.
pub open spec fn veth_data(
    base: LinkAttrsView,
    peer_name: Seq<char>,
    peer_hw_addr: Option<Seq<u8>>,
    peer_ns: Option<Namespace>,
) -> AttrTree {
    AttrTree {
        rta_type: IFLA_INFO_DATA,
        value: Seq::empty(),
        children: seq![veth_peer(base, peer_name, peer_hw_addr, peer_ns)],
    }
}

/// Pushes an attribute that holds `v` where `present` is true.
fn push_opt_u32(list: &mut Vec<NetlinkRouteAttr>, present: bool, rta_type: u16, v: u32)
    requires
        forall|i: int| 0 <= i < old(list)@.len() ==> (#[trigger] old(list)@[i]).wf(),
    ensures
        trees(final(list)@) == trees(old(list)@) + opt_tree(present, leaf_u32(rta_type, v)),
        forall|i: int| 0 <= i < final(list)@.len() ==> (#[trigger] final(list)@[i]).wf(),
{
    if present {
        let attr = NetlinkRouteAttr::new(rta_type, u32_to_bytes(v));
        list.push(attr);
    }
    assert(trees(list@) =~= trees(old(list)@) + opt_tree(present, leaf_u32(rta_type, v)));
}

/// Pushes an attribute that holds `v` where `present` is true.
fn push_opt_i32(list: &mut Vec<NetlinkRouteAttr>, present: bool, rta_type: u16, v: i32)
    requires
        forall|i: int| 0 <= i < old(list)@.len() ==> (#[trigger] old(list)@[i]).wf(),
    ensures
        trees(final(list)@) == trees(old(list)@) + opt_tree(present, leaf_i32(rta_type, v)),
        forall|i: int| 0 <= i < final(list)@.len() ==> (#[trigger] final(list)@[i]).wf(),
{
    if present {
        let attr = NetlinkRouteAttr::new(rta_type, i32_to_bytes(v));
        list.push(attr);
    }
    assert(trees(list@) =~= trees(old(list)@) + opt_tree(present, leaf_i32(rta_type, v)));
}

/// Pushes an attribute that holds the switch `on` where `present` is true.
fn push_opt_flag(list: &mut Vec<NetlinkRouteAttr>, present: bool, rta_type: u16, on: bool)
    requires
        forall|i: int| 0 <= i < old(list)@.len() ==> (#[trigger] old(list)@[i]).wf(),
    ensures
        trees(final(list)@) == trees(old(list)@) + opt_tree(present, leaf_flag(rta_type, on)),
        forall|i: int| 0 <= i < final(list)@.len() ==> (#[trigger] final(list)@[i]).wf(),
{
    if present {
        let mut value: Vec<u8> = Vec::new();
        value.push(if on {
            1
        } else {
            0
        });
        assert(value@ =~= leaf_flag(rta_type, on).value);
        let attr = NetlinkRouteAttr::new(rta_type, value);
        list.push(attr);
    }
    assert(trees(list@) =~= trees(old(list)@) + opt_tree(present, leaf_flag(rta_type, on)));
}

/// Pushes an attribute that holds `value`, if it fits the length field.
fn push_bytes(list: &mut Vec<NetlinkRouteAttr>, rta_type: u16, value: Vec<u8>) -> (ok: bool)
    requires
        forall|i: int| 0 <= i < old(list)@.len() ==> (#[trigger] old(list)@[i]).wf(),
    ensures
        ok == AttrTree::leaf(rta_type, value@).fits(),
        ok ==> trees(final(list)@) == trees(old(list)@).push(AttrTree::leaf(rta_type, value@)),
        !ok ==> final(list)@ == old(list)@,
        forall|i: int| 0 <= i < final(list)@.len() ==> (#[trigger] final(list)@[i]).wf(),
{
    match NetlinkRouteAttr::try_new(rta_type, value) {
        Some(attr) => {
            list.push(attr);
            assert(trees(list@) =~= trees(old(list)@).push(attr@));
            true
        },
        None => false,
    }
}

impl NetlinkRouteAttr {
    /// Nests `attr` below this attribute if the result fits the length
    /// field, and leaves this attribute as it is otherwise.
    fn try_add_child(&mut self, attr: Option<NetlinkRouteAttr>, Ghost(tree): Ghost<AttrTree>) -> (r:
        Result<(), NetlinkError>)
        requires
            old(self).wf(),
            attr is Some <==> tree.fits(),
            attr is Some ==> attr->Some_0@ == tree && attr->Some_0.wf(),
        ensures
            old(self)@.with_child(tree).fits() ==> r is Ok && final(self)@ == old(self)@.with_child(
                tree,
            ) && final(self).wf(),
            !old(self)@.with_child(tree).fits() ==> r == Err::<(), NetlinkError>(
                NetlinkError::MalformedMessage,
            ) && *final(self) == *old(self),
    {
        proof {
            lemma_wf_fits(*self);
            lemma_with_child_fits(self@, tree);
        }
        match attr {
            Some(attr) => {
                if self.can_hold(&attr) {
                    self.add_child_from_attr(attr);
                    Ok(())
                } else {
                    Err(NetlinkError::MalformedMessage)
                }
            },
            None => Err(NetlinkError::MalformedMessage),
        }
    }

    /// Nests the data attribute of a bridge below this link-info attribute:
    /// each of the four settings where it is set.
    pub fn add_bridge_attrs(
        &mut self,
        hello_time: &Option<u32>,
        ageing_time: &Option<u32>,
        multicast_snooping: &Option<bool>,
        vlan_filtering: &Option<bool>,
    ) -> (r: Result<(), NetlinkError>)
        requires
            old(self).wf(),
        ensures
            ({
                let data = bridge_data(
                    *hello_time,
                    *ageing_time,
                    *multicast_snooping,
                    *vlan_filtering,
                );
                &&& old(self)@.with_child(data).fits() ==> r is Ok && final(self).wf()
                    && final(self)@ == old(self)@.with_child(data)
                &&& !old(self)@.with_child(data).fits() ==> r == Err::<(), NetlinkError>(
                    NetlinkError::MalformedMessage,
                ) && *final(self) == *old(self)
            }),
    {
        let mut children: Vec<NetlinkRouteAttr> = Vec::new();
        assert(trees(children@) =~= Seq::<AttrTree>::empty());
        let v: u32 = match hello_time {
            Some(v) => *v,
            None => 0,
        };
        push_opt_u32(&mut children, hello_time.is_some(), IFLA_BR_HELLO_TIME, v);
        let v: u32 = match ageing_time {
            Some(v) => *v,
            None => 0,
        };
        push_opt_u32(&mut children, ageing_time.is_some(), IFLA_BR_AGEING_TIME, v);
        let on: bool = match multicast_snooping {
            Some(v) => *v,
            None => false,
        };
        push_opt_flag(&mut children, multicast_snooping.is_some(), IFLA_BR_MCAST_SNOOPING, on);
        let on: bool = match vlan_filtering {
            Some(v) => *v,
            None => false,
        };
        push_opt_flag(&mut children, vlan_filtering.is_some(), IFLA_BR_VLAN_FILTERING, on);
        let ghost data = bridge_data(*hello_time, *ageing_time, *multicast_snooping, *vlan_filtering);
        assert(trees(children@) =~= data.children);
        let attr = NetlinkRouteAttr::with_children(IFLA_INFO_DATA, Vec::new(), children);
        self.try_add_child(attr, Ghost(data))
    }
}

/// Builds the attribute that describes a veth's peer, if it fits.
fn veth_peer_attr(
    base: &LinkAttrs,
    peer_name: &str,
    peer_hw_addr: &Option<Vec<u8>>,
    peer_ns: &Option<Namespace>,
) -> (r: Option<NetlinkRouteAttr>)
    ensures
        ({
            let hw = opt_bytes(*peer_hw_addr);
            let tree = veth_peer(base@, peer_name@, hw, *peer_ns);
            &&& r is Some <==> tree.fits()
            &&& r is Some ==> r->Some_0@ == tree && r->Some_0.wf()
        }),
{
    let ghost hw = opt_bytes(*peer_hw_addr);
    let ghost tree = veth_peer(base@, peer_name@, hw, *peer_ns);
    let ghost want = tree.children;
    let mut children: Vec<NetlinkRouteAttr> = Vec::new();
    assert(trees(children@) =~= Seq::<AttrTree>::empty());
    if !push_bytes(&mut children, IFLA_IFNAME, zero_terminated(peer_name)) {
        assert(!want[0].fits());
        return None;
    }
    push_opt_u32(&mut children, base.mtu > 0, IFLA_MTU, base.mtu);
    push_opt_i32(&mut children, true, IFLA_TXQLEN, base.tx_queue_len);
    push_opt_i32(&mut children, base.num_tx_queues > 0, IFLA_NUM_TX_QUEUES, base.num_tx_queues);
    push_opt_i32(&mut children, base.num_rx_queues > 0, IFLA_NUM_RX_QUEUES, base.num_rx_queues);
    let ghost head = trees(children@);
    assert(head =~= seq![AttrTree::leaf(IFLA_IFNAME, text_z(peer_name@))] + opt_tree(
        base.mtu > 0,
        leaf_u32(IFLA_MTU, base.mtu),
    ) + seq![leaf_i32(IFLA_TXQLEN, base.tx_queue_len)] + opt_tree(
        base.num_tx_queues > 0,
        leaf_i32(IFLA_NUM_TX_QUEUES, base.num_tx_queues),
    ) + opt_tree(base.num_rx_queues > 0, leaf_i32(IFLA_NUM_RX_QUEUES, base.num_rx_queues)));
    match peer_hw_addr {
        Some(hw_addr) => {
            let value = vstd::slice::slice_to_vec(hw_addr.as_slice());
            if !push_bytes(&mut children, IFLA_ADDRESS, value) {
                assert(!want[head.len() as int].fits());
                return None;
            }
        },
        None => {},
    }
    let ghost mid = trees(children@);
    assert(mid =~= head + opt_tree(hw is Some, AttrTree::leaf(IFLA_ADDRESS, hw->Some_0)));
    match peer_ns {
        Some(Namespace::Pid(pid)) => {
            push_opt_i32(&mut children, true, IFLA_NET_NS_PID, *pid);
        },
        Some(Namespace::Fd(fd)) => {
            push_opt_i32(&mut children, true, IFLA_NET_NS_FD, *fd);
        },
        None => {},
    }
    assert(trees(children@) =~= mid + namespace_tree(*peer_ns));
    assert(trees(children@) =~= want);
    let info = IfInfoMessage::new(AF_UNSPEC);
    assert(info == unspec_info()) by {
        assert(0i32 as u8 == 0u8) by (bit_vector);
    }
    NetlinkRouteAttr::with_children(VETH_INFO_PEER, info.serialize(), children)
}

impl NetlinkRouteAttr {
    /// Nests the data attribute of a veth below this link-info attribute:
    /// it holds the peer with its name, what the peer takes over from the
    /// link, its hardware address and its namespace.
    pub fn add_veth_attrs(
        &mut self,
        base: &LinkAttrs,
        peer_name: &str,
        peer_hw_addr: &Option<Vec<u8>>,
        peer_ns: &Option<Namespace>,
    ) -> (r: Result<(), NetlinkError>)
        requires
            old(self).wf(),
        ensures
            ({
                let hw = opt_bytes(*peer_hw_addr);
                let data = veth_data(base@, peer_name@, hw, *peer_ns);
                &&& old(self)@.with_child(data).fits() ==> r is Ok && final(self).wf()
                    && final(self)@ == old(self)@.with_child(data)
                &&& !old(self)@.with_child(data).fits() ==> r == Err::<(), NetlinkError>(
                    NetlinkError::MalformedMessage,
                ) && *final(self) == *old(self)
            }),
    {
        let ghost hw = opt_bytes(*peer_hw_addr);
        let ghost data = veth_data(base@, peer_name@, hw, *peer_ns);
        proof {
            lemma_wf_fits(*self);
            lemma_with_child_fits(self@, data);
        }
        let peer = match veth_peer_attr(base, peer_name, peer_hw_addr, peer_ns) {
            Some(peer) => peer,
            None => {
                assert(!data.children[0].fits());
                return Err(NetlinkError::MalformedMessage);
            },
        };
        let mut children: Vec<NetlinkRouteAttr> = Vec::new();
        children.push(peer);
        assert(trees(children@) =~= data.children);
        let attr = NetlinkRouteAttr::with_children(IFLA_INFO_DATA, Vec::new(), children);
        self.try_add_child(attr, Ghost(data))
    }
}

/// The link-info attribute of a link: the name of its kind, and the data of
/// a bridge or a veth.
pub open spec fn link_info_tree(link: KindView) -> AttrTree {
    let head = AttrTree {
        rta_type: IFLA_LINKINFO,
        value: Seq::empty(),
        children: seq![
            AttrTree::leaf(IFLA_INFO_KIND, vstd::utf8::encode_utf8(link.kind_name())),
        ],
    };
    match link {
        KindView::Bridge { hello_time, ageing_time, multicast_snooping, vlan_filtering, .. } => {
            head.with_child(bridge_data(hello_time, ageing_time, multicast_snooping, vlan_filtering))
        },
        KindView::Veth { attrs, peer_name, peer_hw_addr, peer_ns } => head.with_child(
            veth_data(attrs, peer_name, peer_hw_addr, peer_ns),
        ),
        _ => head,
    }
}

/// The fixed payload of a request that creates or changes a link: the index,
/// and the flag that brings the link up where the link's flags hold it.
pub open spec fn link_payload(base: LinkAttrsView) -> IfInfoMessage {
    if base.flags & IFF_UP != 0 {
        IfInfoMessage { ifi_index: base.index, ifi_flags: IFF_UP, ifi_change: IFF_UP, ..unspec_info() }
    } else {
        IfInfoMessage { ifi_index: base.index, ..unspec_info() }
    }
}

/// The attributes of a link request before the link-info attribute: the
/// name, the hardware address where there is one, and the numbers that are
/// set.
pub open spec fn link_head_trees(link: KindView) -> Seq<AttrTree> {
    let base = link.attrs();
    seq![AttrTree::leaf(IFLA_IFNAME, text_z(base.name))] + opt_tree(
        base.hw_addr.len() > 0,
        AttrTree::leaf(IFLA_ADDRESS, base.hw_addr),
    ) + opt_tree(base.mtu > 0, leaf_u32(IFLA_MTU, base.mtu)) + opt_tree(
        base.tx_queue_len > 0,
        leaf_i32(IFLA_TXQLEN, base.tx_queue_len),
    ) + opt_tree(base.num_tx_queues > 0, leaf_i32(IFLA_NUM_TX_QUEUES, base.num_tx_queues))
        + opt_tree(base.num_rx_queues > 0, leaf_i32(IFLA_NUM_RX_QUEUES, base.num_rx_queues))
}

/// The attributes of a request that creates or changes a link: those that
/// every link has, then the link-info attribute.
pub open spec fn link_trees(link: KindView) -> Seq<AttrTree> {
    link_head_trees(link) + seq![link_info_tree(link)]
}

/// The request that creates or changes `link`.
pub open spec fn link_request(link: KindView, flags: i32) -> RequestView {
    request_view(RTM_NEWLINK, flags, Part::Info(link_payload(link.attrs())), link_trees(link))
}

/// Builds the link-info attribute of a link, if it fits.
fn link_info_attr(kind: &Kind) -> (r: Option<NetlinkRouteAttr>)
    ensures
        r is Some <==> link_info_tree(kind@).fits(),
        r is Some ==> r->Some_0@ == link_info_tree(kind@) && r->Some_0.wf(),
{
    let ghost want = link_info_tree(kind@);
    let name = kind.link_type();
    let mut children: Vec<NetlinkRouteAttr> = Vec::new();
    assert(trees(children@) =~= Seq::<AttrTree>::empty());
    let bytes = vstd::slice::slice_to_vec(name.as_str().as_bytes());
    if !push_bytes(&mut children, IFLA_INFO_KIND, bytes) {
        assert(!want.children[0].fits());
        return None;
    }
    let ghost head = AttrTree {
        rta_type: IFLA_LINKINFO,
        value: Seq::empty(),
        children: seq![AttrTree::leaf(IFLA_INFO_KIND, vstd::utf8::encode_utf8(kind@.kind_name()))],
    };
    assert(trees(children@) =~= head.children);
    proof {
        match kind@ {
            KindView::Bridge { hello_time, ageing_time, multicast_snooping, vlan_filtering, .. } => {
                crate::attr::lemma_with_child_len(
                    head,
                    bridge_data(hello_time, ageing_time, multicast_snooping, vlan_filtering),
                );
            },
            KindView::Veth { attrs, peer_name, peer_hw_addr, peer_ns } => {
                crate::attr::lemma_with_child_len(
                    head,
                    veth_data(attrs, peer_name, peer_hw_addr, peer_ns),
                );
            },
            _ => {},
        }
    }
    let mut info = match NetlinkRouteAttr::with_children(IFLA_LINKINFO, Vec::new(), children) {
        Some(info) => info,
        None => { return None; },
    };
    let added = match kind {
        Kind::Bridge { hello_time, ageing_time, multicast_snooping, vlan_filtering, .. } => {
            info.add_bridge_attrs(hello_time, ageing_time, multicast_snooping, vlan_filtering)
        },
        Kind::Veth { attrs, peer_name, peer_hw_addr, peer_ns } => {
            info.add_veth_attrs(attrs, peer_name.as_str(), peer_hw_addr, peer_ns)
        },
        _ => Ok(()),
    };
    match added {
        Ok(()) => Some(info),
        Err(_) => None,
    }
}

/// Builds the request that creates or changes `link`. It fails where a name
/// or a hardware address is too long for the length field of an attribute.
pub fn build_link_request<T: Link>(link: &T, flags: i32) -> (r: Result<NetlinkRequest, NetlinkError>)
    ensures
        all_fit(link_trees(link.model())) ==> r is Ok && r->Ok_0@ == link_request(
            link.model(),
            flags,
        ) && r->Ok_0.wf() && r->Ok_0@.fits(),
        !all_fit(link_trees(link.model())) ==> r is Err && r->Err_0
            == NetlinkError::MalformedMessage,
{
    let kind = link.kind();
    let base = link.attrs();
    let ghost want = link_trees(link.model());
    let mut msg = IfInfoMessage::new(AF_UNSPEC);
    assert(msg == unspec_info()) by {
        assert(0i32 as u8 == 0u8) by (bit_vector);
    }
    msg.ifi_index = base.index;
    if base.flags & IFF_UP != 0 {
        msg.ifi_flags = IFF_UP;
        msg.ifi_change = IFF_UP;
    }
    let mut attrs: Vec<NetlinkRouteAttr> = Vec::new();
    assert(trees(attrs@) =~= Seq::<AttrTree>::empty());
    if !push_bytes(&mut attrs, IFLA_IFNAME, zero_terminated(base.name.as_str())) {
        assert(!want[0].fits());
        return Err(NetlinkError::MalformedMessage);
    }
    if base.hw_addr.len() > 0 {
        let value = vstd::slice::slice_to_vec(base.hw_addr.as_slice());
        if !push_bytes(&mut attrs, IFLA_ADDRESS, value) {
            assert(!want[1].fits());
            return Err(NetlinkError::MalformedMessage);
        }
    }
    let ghost head = trees(attrs@);
    assert(head =~= seq![AttrTree::leaf(IFLA_IFNAME, text_z(base@.name))] + opt_tree(
        base@.hw_addr.len() > 0,
        AttrTree::leaf(IFLA_ADDRESS, base@.hw_addr),
    ));
    push_opt_u32(&mut attrs, base.mtu > 0, IFLA_MTU, base.mtu);
    push_opt_i32(&mut attrs, base.tx_queue_len > 0, IFLA_TXQLEN, base.tx_queue_len);
    push_opt_i32(&mut attrs, base.num_tx_queues > 0, IFLA_NUM_TX_QUEUES, base.num_tx_queues);
    push_opt_i32(&mut attrs, base.num_rx_queues > 0, IFLA_NUM_RX_QUEUES, base.num_rx_queues);
    let ghost mid = trees(attrs@);
    assert(want =~= mid + seq![link_info_tree(link.model())]);
    let info = match link_info_attr(kind) {
        Some(info) => info,
        None => {
            assert(!want[mid.len() as int].fits());
            return Err(NetlinkError::MalformedMessage);
        },
    };
    attrs.push(info);
    proof {
        assert(trees(attrs@) =~= want);
        assert forall|i: int| 0 <= i < want.len() implies (#[trigger] want[i]).fits() by {
            assert(attrs@[i].wf());
            lemma_wf_fits(attrs@[i]);
        }
    }
    Ok(NetlinkRequest::with_attrs(RTM_NEWLINK, flags, NetlinkRequestData::Info(msg), attrs))
}

/// The names of the four kinds differ, and each comes back from its UTF-8
/// bytes as it is.
pub proof fn lemma_kind_names()
    ensures
        "device"@ != "dummy"@,
        "device"@ != "bridge"@,
        "device"@ != "veth"@,
        "dummy"@ != "bridge"@,
        "dummy"@ != "veth"@,
        "bridge"@ != "veth"@,
        text_of(vstd::utf8::encode_utf8("device"@)) == Some("device"@),
        text_of(vstd::utf8::encode_utf8("dummy"@)) == Some("dummy"@),
        text_of(vstd::utf8::encode_utf8("bridge"@)) == Some("bridge"@),
        text_of(vstd::utf8::encode_utf8("veth"@)) == Some("veth"@),
{
    reveal_strlit("device");
    reveal_strlit("dummy");
    reveal_strlit("bridge");
    reveal_strlit("veth");
    assert("device"@[1] != "dummy"@[1]);
    assert("device"@[0] != "bridge"@[0]);
    assert("device"@.len() != "veth"@.len());
    assert("dummy"@.len() != "bridge"@.len());
    assert("dummy"@.len() != "veth"@.len());
    assert("bridge"@.len() != "veth"@.len());
    lemma_ascii_text("device"@);
    lemma_ascii_text("dummy"@);
    lemma_ascii_text("bridge"@);
    lemma_ascii_text("veth"@);
}

/// A text of ASCII letters comes back from its UTF-8 bytes as it is.
proof fn lemma_ascii_text(s: Seq<char>)
    requires
        s.len() > 0,
        forall|i: int| 0 <= i < s.len() ==> 'a' <= #[trigger] s[i] <= 'z',
    ensures
        text_of(vstd::utf8::encode_utf8(s)) == Some(s),
{
    assert(vstd::utf8::is_ascii_chars(s)) by {
        assert forall|i: int| 0 <= i < s.len() implies (s[i] as nat) < 128 by {
            assert('a' <= s[i] <= 'z');
        }
    }
    vstd::utf8::is_ascii_chars_encode_utf8(s);
    let bytes = vstd::utf8::encode_utf8(s);
    assert(bytes.len() == s.len());
    assert(bytes.last() == s[s.len() - 1] as u8);
    assert('a' <= s[s.len() - 1]);
    crate::utils::lemma_text_roundtrip(s);
}

/// The table of a bridge's settings holds each setting that is set, and no
/// other.
pub proof fn lemma_bridge_table(
    hello_time: Option<u32>,
    ageing_time: Option<u32>,
    multicast_snooping: Option<bool>,
    vlan_filtering: Option<bool>,
)
    ensures
        ({
            let list = bridge_children(hello_time, ageing_time, multicast_snooping, vlan_filtering);
            let table = attr_map(list);
            &&& crate::attr::flat_all(list) == list
            &&& all_fit(list)
            &&& table_u32(table, IFLA_BR_HELLO_TIME) == Some(hello_time)
            &&& table_u32(table, IFLA_BR_AGEING_TIME) == Some(ageing_time)
            &&& table_flag(table, IFLA_BR_MCAST_SNOOPING) == Some(multicast_snooping)
            &&& table_flag(table, IFLA_BR_VLAN_FILTERING) == Some(vlan_filtering)
        }),
{
    let t1 = leaf_u32(IFLA_BR_HELLO_TIME, hello_time->Some_0);
    let t2 = leaf_u32(IFLA_BR_AGEING_TIME, ageing_time->Some_0);
    let t3 = leaf_flag(IFLA_BR_MCAST_SNOOPING, multicast_snooping->Some_0);
    let t4 = leaf_flag(IFLA_BR_VLAN_FILTERING, vlan_filtering->Some_0);
    let s0 = Seq::<AttrTree>::empty();
    let s1 = s0 + opt_tree(hello_time is Some, t1);
    let s2 = s1 + opt_tree(ageing_time is Some, t2);
    let s3 = s2 + opt_tree(multicast_snooping is Some, t3);
    let s4 = s3 + opt_tree(vlan_filtering is Some, t4);
    let list = bridge_children(hello_time, ageing_time, multicast_snooping, vlan_filtering);
    assert(list =~= s4);
    assert(s1 =~= if hello_time is Some { s0.push(t1) } else { s0 });
    assert(s2 =~= if ageing_time is Some { s1.push(t2) } else { s1 });
    assert(s3 =~= if multicast_snooping is Some { s2.push(t3) } else { s2 });
    assert(s4 =~= if vlan_filtering is Some { s3.push(t4) } else { s3 });
    crate::attr::lemma_attr_map_push(s0, t1);
    crate::attr::lemma_attr_map_push(s1, t2);
    crate::attr::lemma_attr_map_push(s2, t3);
    crate::attr::lemma_attr_map_push(s3, t4);
    crate::wire::lemma_le_roundtrip(0, hello_time->Some_0, 0);
    crate::wire::lemma_le_roundtrip(0, ageing_time->Some_0, 0);
    assert(le_u32(hello_time->Some_0).subrange(0, 4) =~= le_u32(hello_time->Some_0));
    assert(le_u32(ageing_time->Some_0).subrange(0, 4) =~= le_u32(ageing_time->Some_0));
    assert forall|i: int| 0 <= i < list.len() implies (#[trigger] list[i]).fits()
        && list[i].children.len() == 0 by {}
    assert(crate::attr::flat_all(list) =~= list) by {
        assert forall|i: int| 0 <= i < list.len() implies crate::attr::flat_all(list)[i]
            == list[i] by {
            assert(list[i].children =~= Seq::<AttrTree>::empty());
        }
    }
}

/// The table of payloads that reading a link's link-info attribute leaves:
/// the settings of a bridge, the peer of a veth, and nothing for the other
/// kinds.
pub open spec fn kind_table(link: KindView) -> Map<u16, Seq<u8>> {
    match link {
        KindView::Bridge { hello_time, ageing_time, multicast_snooping, vlan_filtering, .. } => {
            attr_map(bridge_children(hello_time, ageing_time, multicast_snooping, vlan_filtering))
        },
        KindView::Veth { attrs, peer_name, peer_hw_addr, peer_ns } => attr_map(
            seq![veth_peer(attrs, peer_name, peer_hw_addr, peer_ns).flat()],
        ),
        _ => Map::empty(),
    }
}

/// Reading a list of one attribute is one step.
proof fn lemma_info_fold_one(st: LinkState, a: AttrTree)
    ensures
        info_fold(st, seq![a], 0) == info_step(st, a),
{
    reveal_with_fuel(info_fold, 3);
}

/// Reading a list of two attributes is two steps.
proof fn lemma_info_fold_two(st: LinkState, a: AttrTree, b: AttrTree)
    ensures
        info_fold(st, seq![a, b], 0) == match info_step(st, a) {
            Some(next) => info_step(next, b),
            None => None,
        },
{
    reveal_with_fuel(info_fold, 4);
}

/// Reading the attribute that names a link's kind sets the link type.
proof fn lemma_info_kind(link: KindView, st: LinkState)
    ensures
        info_step(
            st,
            AttrTree::leaf(IFLA_INFO_KIND, vstd::utf8::encode_utf8(link.kind_name())),
        ) == Some(LinkState { attrs: LinkAttrsView { link_type: link.kind_name(), ..st.attrs }, ..st }),
{
    lemma_kind_names();
}

/// The attribute that names a link's kind.
pub open spec fn kind_tree(link: KindView) -> AttrTree {
    AttrTree::leaf(IFLA_INFO_KIND, vstd::utf8::encode_utf8(link.kind_name()))
}

/// The data attribute of a link's kind, for a bridge and a veth.
pub open spec fn kind_data(link: KindView) -> AttrTree {
    match link {
        KindView::Bridge { hello_time, ageing_time, multicast_snooping, vlan_filtering, .. } => {
            bridge_data(hello_time, ageing_time, multicast_snooping, vlan_filtering)
        },
        KindView::Veth { attrs, peer_name, peer_hw_addr, peer_ns } => veth_data(
            attrs,
            peer_name,
            peer_hw_addr,
            peer_ns,
        ),
        _ => AttrTree::leaf(IFLA_INFO_DATA, Seq::empty()),
    }
}

/// What a reader finds in the link-info attribute of a link.
proof fn lemma_link_info_parts(link: KindView)
    requires
        link_info_tree(link).fits(),
    ensures
        parse_attrs(link_info_tree(link).body()) == Some(
            if link is Bridge || link is Veth {
                seq![kind_tree(link), kind_data(link).flat()]
            } else {
                seq![kind_tree(link)]
            },
        ),
        (link is Bridge || link is Veth) ==> kind_data(link).fits(),
{
    let info = link_info_tree(link);
    let kind = kind_tree(link);
    lemma_parse_nested(info);
    assert(kind.children =~= Seq::<AttrTree>::empty());
    assert(kind.flat() == kind);
    if link is Bridge || link is Veth {
        assert(info.children =~= seq![kind, kind_data(link)]);
        assert(info.children[1].fits());
        assert(crate::attr::flat_all(info.children) =~= seq![kind, kind_data(link).flat()]);
    } else {
        assert(info.children =~= seq![kind]);
        assert(crate::attr::flat_all(info.children) =~= seq![kind]);
    }
}

/// Reading the data attribute of a bridge or a veth leaves the table of the
/// kind's payloads.
proof fn lemma_info_data(link: KindView, st: LinkState)
    requires
        link is Bridge || link is Veth,
        kind_data(link).fits(),
    ensures
        info_step(st, kind_data(link).flat()) == Some(LinkState { data: kind_table(link), ..st }),
{
    let data = kind_data(link);
    lemma_parse_nested(data);
    match link {
        KindView::Bridge { hello_time, ageing_time, multicast_snooping, vlan_filtering, .. } => {
            lemma_bridge_table(hello_time, ageing_time, multicast_snooping, vlan_filtering);
        },
        KindView::Veth { attrs, peer_name, peer_hw_addr, peer_ns } => {
            assert(crate::attr::flat_all(data.children) =~= seq![
                veth_peer(attrs, peer_name, peer_hw_addr, peer_ns).flat(),
            ]);
        },
        _ => {},
    }
}

/// Reading the link-info attribute of a link sets the link type to the name
/// of the link's kind and leaves the table of the kind's payloads.
proof fn lemma_link_info(link: KindView, st: LinkState)
    requires
        link_info_tree(link).fits(),
    ensures
        link_info_of(st, link_info_tree(link).body()) == Some(
            LinkState {
                attrs: LinkAttrsView { link_type: link.kind_name(), ..st.attrs },
                data: kind_table(link),
            },
        ),
{
    let start = LinkState { attrs: st.attrs, data: Map::empty() };
    let named = LinkState {
        attrs: LinkAttrsView { link_type: link.kind_name(), ..st.attrs },
        data: Map::empty(),
    };
    lemma_link_info_parts(link);
    lemma_info_kind(link, start);
    if link is Bridge || link is Veth {
        lemma_info_data(link, named);
        lemma_info_fold_two(start, kind_tree(link), kind_data(link).flat());
    } else {
        lemma_info_fold_one(start, kind_tree(link));
    }
}

/// Reading a list from a later index on is reading its second part, once
/// the first part is passed.
proof fn lemma_link_fold_shift(st: LinkState, a: Seq<AttrTree>, b: Seq<AttrTree>, j: int)
    requires
        0 <= j <= b.len(),
    ensures
        link_fold(st, a + b, a.len() + j) == link_fold(st, b, j),
    decreases b.len() - j,
{
    if j < b.len() {
        assert((a + b)[a.len() + j] == b[j]);
        match link_step(st, b[j]) {
            Some(next) => {
                lemma_link_fold_shift(next, a, b, j + 1);
            },
            None => {},
        }
    }
}

/// Reading two lists in a row is reading the first and then the second.
proof fn lemma_link_fold_append(st: LinkState, a: Seq<AttrTree>, b: Seq<AttrTree>, i: int)
    requires
        0 <= i <= a.len(),
    ensures
        link_fold(st, a + b, i) == match link_fold(st, a, i) {
            Some(r) => link_fold(r, b, 0),
            None => None,
        },
    decreases a.len() - i,
{
    if i < a.len() {
        assert((a + b)[i] == a[i]);
        match link_step(st, a[i]) {
            Some(next) => {
                lemma_link_fold_append(next, a, b, i + 1);
            },
            None => {},
        }
    } else {
        lemma_link_fold_shift(st, a, b, 0);
    }
}

/// Reading a list of at most one attribute is one step, or none.
proof fn lemma_link_fold_opt(st: LinkState, present: bool, t: AttrTree)
    ensures
        link_fold(st, opt_tree(present, t), 0) == if present {
            link_step(st, t)
        } else {
            Some(st)
        },
{
    reveal_with_fuel(link_fold, 3);
}

/// What the attributes of a link request before the link-info attribute
/// leave of a state: they set the name, the hardware address and the numbers
/// that are set, and touch neither the link type nor the table.
proof fn lemma_link_fold_head(link: KindView, st: LinkState) -> (r: LinkState)
    ensures
        link_fold(st, link_head_trees(link), 0) == Some(r),
        r.attrs.name == link.attrs().name,
        r.attrs.index == st.attrs.index,
        r.attrs.mtu == if link.attrs().mtu > 0 {
            link.attrs().mtu
        } else {
            st.attrs.mtu
        },
        r.data == st.data,
{
    let base = link.attrs();
    let t1 = AttrTree::leaf(IFLA_IFNAME, text_z(base.name));
    let t2 = AttrTree::leaf(IFLA_ADDRESS, base.hw_addr);
    let t3 = leaf_u32(IFLA_MTU, base.mtu);
    let t4 = leaf_i32(IFLA_TXQLEN, base.tx_queue_len);
    let t5 = leaf_i32(IFLA_NUM_TX_QUEUES, base.num_tx_queues);
    let t6 = leaf_i32(IFLA_NUM_RX_QUEUES, base.num_rx_queues);
    let p1 = seq![t1];
    let p2 = opt_tree(base.hw_addr.len() > 0, t2);
    let p3 = opt_tree(base.mtu > 0, t3);
    let p4 = opt_tree(base.tx_queue_len > 0, t4);
    let p5 = opt_tree(base.num_tx_queues > 0, t5);
    let p6 = opt_tree(base.num_rx_queues > 0, t6);
    assert(link_head_trees(link) == p1 + p2 + p3 + p4 + p5 + p6);
    crate::utils::lemma_text_roundtrip(base.name);
    crate::wire::lemma_le_roundtrip(0, base.mtu, base.tx_queue_len);
    crate::wire::lemma_le_roundtrip(0, 0, base.num_tx_queues);
    crate::wire::lemma_le_roundtrip(0, 0, base.num_rx_queues);
    assert(le_u32(base.mtu).subrange(0, 4) =~= le_u32(base.mtu));
    assert(le_i32(base.tx_queue_len).subrange(0, 4) =~= le_i32(base.tx_queue_len));
    assert(le_i32(base.num_tx_queues).subrange(0, 4) =~= le_i32(base.num_tx_queues));
    assert(le_i32(base.num_rx_queues).subrange(0, 4) =~= le_i32(base.num_rx_queues));
    assert(p1 == opt_tree(true, t1));
    lemma_link_fold_opt(st, true, t1);
    let s1 = link_fold(st, p1, 0)->Some_0;
    lemma_link_fold_opt(s1, base.hw_addr.len() > 0, t2);
    lemma_link_fold_append(st, p1, p2, 0);
    let s2 = link_fold(st, p1 + p2, 0)->Some_0;
    lemma_link_fold_opt(s2, base.mtu > 0, t3);
    lemma_link_fold_append(st, p1 + p2, p3, 0);
    let s3 = link_fold(st, p1 + p2 + p3, 0)->Some_0;
    lemma_link_fold_opt(s3, base.tx_queue_len > 0, t4);
    lemma_link_fold_append(st, p1 + p2 + p3, p4, 0);
    let s4 = link_fold(st, p1 + p2 + p3 + p4, 0)->Some_0;
    lemma_link_fold_opt(s4, base.num_tx_queues > 0, t5);
    lemma_link_fold_append(st, p1 + p2 + p3 + p4, p5, 0);
    let s5 = link_fold(st, p1 + p2 + p3 + p4 + p5, 0)->Some_0;
    lemma_link_fold_opt(s5, base.num_rx_queues > 0, t6);
    lemma_link_fold_append(st, p1 + p2 + p3 + p4 + p5, p6, 0);
    link_fold(st, p1 + p2 + p3 + p4 + p5 + p6, 0)->Some_0
}

/// The state in which the reading of a link request's body begins.
pub open spec fn link_start(link: KindView) -> LinkState {
    LinkState { attrs: LinkAttrsView::of_info(link_payload(link.attrs())), data: Map::empty() }
}

/// What a reader finds in the body of a link request: the fixed payload,
/// the attributes before the link-info attribute as they are, and the
/// link-info attribute with its body.
proof fn lemma_link_body(link: KindView, flags: i32)
    requires
        all_fit(link_trees(link)),
    ensures
        link_info_tree(link).fits(),
        link_of_bytes(link_request(link, flags).payload()) == match link_fold(
            link_start(link),
            link_head_trees(link) + seq![link_info_tree(link).flat()],
            0,
        ) {
            Some(st) => link_of_state(st),
            None => None,
        },
{
    let header = link_payload(link.attrs());
    let list = link_trees(link);
    let info = link_info_tree(link);
    let head = link_head_trees(link);
    let body = link_request(link, flags).payload();
    crate::request::lemma_request_payload(RTM_NEWLINK, flags, Part::Info(header), list);
    header.lemma_decode_emit(crate::attr::emit_all(list));
    assert(body.skip(crate::consts::IF_INFO_MSG_SIZE as int) =~= crate::attr::emit_all(list));
    assert(list =~= head + seq![info]);
    assert forall|i: int| 0 <= i < list.len() implies (#[trigger] list[i]).len()
        <= crate::attr::RT_ATTR_MAX_LEN by {
        assert(list[i].fits());
    }
    crate::attr::lemma_parse_emit(list);
    assert(crate::attr::flat_all(list) =~= head + seq![info.flat()]) by {
        assert forall|i: int| 0 <= i < head.len() implies crate::attr::flat_all(list)[i]
            == head[i] by {
            assert(head[i].children =~= Seq::<AttrTree>::empty());
        }
    }
    assert(info.fits()) by {
        assert(list[list.len() - 1] == info);
    }
}

/// What reading the attributes of a link request leaves: the name, the
/// index and the MTU of the link, the name of its kind as link type, and the
/// table of the kind's payloads.
proof fn lemma_link_fold_all(link: KindView) -> (r: LinkState)
    requires
        link_info_tree(link).fits(),
    ensures
        link_fold(
            link_start(link),
            link_head_trees(link) + seq![link_info_tree(link).flat()],
            0,
        ) == Some(r),
        r.attrs.name == link.attrs().name,
        r.attrs.index == link.attrs().index,
        r.attrs.mtu == link.attrs().mtu,
        r.attrs.link_type == link.kind_name(),
        r.data == kind_table(link),
{
    let info = link_info_tree(link);
    let st0 = link_start(link);
    let st1 = lemma_link_fold_head(link, st0);
    lemma_link_fold_append(st0, link_head_trees(link), seq![info.flat()], 0);
    lemma_link_info(link, st1);
    lemma_link_fold_opt(st1, true, info.flat());
    link_info_of(st1, info.body())->Some_0
}

/// The link that a state with the name of a link's kind and the table of
/// the kind's payloads describes: a link of that kind, with the settings of
/// a bridge, and with nothing said of the peer of a veth.
proof fn lemma_link_of_state(link: KindView, st: LinkState)
    requires
        st.attrs.link_type == link.kind_name(),
        st.data == kind_table(link),
    ensures
        link_of_state(st) == Some(
            match link {
                KindView::Device(_) => KindView::Device(st.attrs),
                KindView::Dummy(_) => KindView::Dummy(st.attrs),
                KindView::Bridge {
                    hello_time,
                    ageing_time,
                    multicast_snooping,
                    vlan_filtering,
                    ..
                } => KindView::Bridge {
                    attrs: st.attrs,
                    hello_time,
                    ageing_time,
                    multicast_snooping,
                    vlan_filtering,
                },
                KindView::Veth { .. } => KindView::Veth {
                    attrs: st.attrs,
                    peer_name: Seq::empty(),
                    peer_hw_addr: None,
                    peer_ns: None,
                },
            },
        ),
{
    lemma_kind_names();
    match link {
        KindView::Bridge { hello_time, ageing_time, multicast_snooping, vlan_filtering, .. } => {
            lemma_bridge_table(hello_time, ageing_time, multicast_snooping, vlan_filtering);
        },
        _ => {},
    }
}

/// Reading the body of the request that creates or changes a link gives
/// back the link's name, index, MTU and kind, and the settings of a bridge.
/// A veth comes back without what the request said of its peer.
pub proof fn lemma_link_roundtrip(link: KindView, flags: i32)
    requires
        all_fit(link_trees(link)),
    ensures
        ({
            let r = link_of_bytes(link_request(link, flags).payload());
            &&& r is Some
            &&& r->Some_0.attrs().name == link.attrs().name
            &&& r->Some_0.attrs().index == link.attrs().index
            &&& r->Some_0.attrs().mtu == link.attrs().mtu
            &&& r->Some_0.attrs().link_type == link.kind_name()
            &&& match link {
                KindView::Device(_) => r->Some_0 is Device,
                KindView::Dummy(_) => r->Some_0 is Dummy,
                KindView::Bridge {
                    hello_time,
                    ageing_time,
                    multicast_snooping,
                    vlan_filtering,
                    ..
                } => r->Some_0 is Bridge && r->Some_0->hello_time == hello_time
                    && r->Some_0->ageing_time == ageing_time && r->Some_0->multicast_snooping
                    == multicast_snooping && r->Some_0->vlan_filtering == vlan_filtering,
                KindView::Veth { .. } => r->Some_0 is Veth && r->Some_0->peer_name
                    == Seq::<char>::empty() && r->Some_0->peer_hw_addr is None
                    && r->Some_0->peer_ns is None,
            }
        }),
{
    lemma_link_body(link, flags);
    let st = lemma_link_fold_all(link);
    lemma_link_of_state(link, st);
}

/// The request that deletes the link with the given index.
pub open spec fn link_del_request(index: i32) -> RequestView {
    request_view(
        crate::consts::RTM_DELLINK,
        crate::consts::NLM_F_ACK,
        Part::Info(IfInfoMessage { ifi_index: index, ..unspec_info() }),
        Seq::empty(),
    )
}

/// The request that brings the link with the given index up.
pub open spec fn link_setup_request(index: i32) -> RequestView {
    request_view(
        RTM_NEWLINK,
        crate::consts::NLM_F_ACK,
        Part::Info(
            IfInfoMessage { ifi_index: index, ifi_flags: IFF_UP, ifi_change: IFF_UP, ..unspec_info() },
        ),
        Seq::empty(),
    )
}

/// The request that asks for one link: by its index where that is set, and
/// by its name where there is one.
pub open spec fn link_get_request(attr: LinkAttrsView) -> RequestView {
    request_view(
        crate::consts::RTM_GETLINK,
        crate::consts::NLM_F_ACK,
        Part::Info(IfInfoMessage { ifi_index: attr.index, ..unspec_info() }),
        opt_tree(attr.name.len() > 0, AttrTree::leaf(IFLA_IFNAME, text_z(attr.name))),
    )
}

/// The payload of a link request whose family is unspecified.
fn unspec_payload() -> (r: IfInfoMessage)
    ensures
        r == unspec_info(),
{
    let r = IfInfoMessage::new(AF_UNSPEC);
    assert(0i32 as u8 == 0u8) by (bit_vector);
    r
}

/// Builds the request that deletes `link`.
pub fn build_link_del_request<T: Link>(link: &T) -> (r: NetlinkRequest)
    ensures
        r@ == link_del_request(link.model().attrs().index),
        r.wf(),
{
    let mut msg = unspec_payload();
    msg.ifi_index = link.attrs().index;
    let attrs: Vec<NetlinkRouteAttr> = Vec::new();
    assert(trees(attrs@) =~= Seq::<AttrTree>::empty());
    NetlinkRequest::with_attrs(
        crate::consts::RTM_DELLINK,
        crate::consts::NLM_F_ACK,
        NetlinkRequestData::Info(msg),
        attrs,
    )
}

/// Builds the request that brings `link` up.
pub fn build_link_setup_request<T: Link>(link: &T) -> (r: NetlinkRequest)
    ensures
        r@ == link_setup_request(link.model().attrs().index),
        r.wf(),
{
    let mut msg = unspec_payload();
    msg.ifi_index = link.attrs().index;
    msg.ifi_flags = IFF_UP;
    msg.ifi_change = IFF_UP;
    let attrs: Vec<NetlinkRouteAttr> = Vec::new();
    assert(trees(attrs@) =~= Seq::<AttrTree>::empty());
    NetlinkRequest::with_attrs(
        RTM_NEWLINK,
        crate::consts::NLM_F_ACK,
        NetlinkRequestData::Info(msg),
        attrs,
    )
}

/// Builds the request that asks for the link that `attr` names. It fails
/// where the name is too long for the length field of an attribute.
pub fn build_link_get_request(attr: &LinkAttrs) -> (r: Result<NetlinkRequest, NetlinkError>)
    ensures
        link_get_request(attr@).fits() ==> r is Ok && r->Ok_0@ == link_get_request(attr@)
            && r->Ok_0.wf(),
        !link_get_request(attr@).fits() ==> r is Err && r->Err_0 == NetlinkError::MalformedMessage,
{
    let ghost want = link_get_request(attr@);
    let mut msg = unspec_payload();
    msg.ifi_index = attr.index;
    let mut attrs: Vec<NetlinkRouteAttr> = Vec::new();
    assert(trees(attrs@) =~= Seq::<AttrTree>::empty());
    if !attr.name.as_str().is_empty() {
        if !push_bytes(&mut attrs, IFLA_IFNAME, zero_terminated(attr.name.as_str())) {
            assert(want.data[1] == Part::Attr(AttrTree::leaf(IFLA_IFNAME, text_z(attr@.name))));
            assert(!want.data[1].fits());
            return Err(NetlinkError::MalformedMessage);
        }
    }
    assert(trees(attrs@) =~= opt_tree(
        attr@.name.len() > 0,
        AttrTree::leaf(IFLA_IFNAME, text_z(attr@.name)),
    ));
    Ok(
        NetlinkRequest::with_attrs(
            crate::consts::RTM_GETLINK,
            crate::consts::NLM_F_ACK,
            NetlinkRequestData::Info(msg),
            attrs,
        ),
    )
}

} // verus!
