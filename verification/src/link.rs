//! Links: the kinds of interface the engine knows, the attributes that all
//! of them share, and their reading from a link frame.

use vstd::prelude::*;
use std::collections::HashMap;
use crate::attr::{attr_map, parse_attrs, payloads, trees, AttrTree, NetlinkRouteAttr};
use crate::consts::{
    ENODEV, IFLA_ADDRESS, IFLA_BR_AGEING_TIME, IFLA_BR_HELLO_TIME, IFLA_BR_MCAST_SNOOPING,
    IFLA_BR_VLAN_FILTERING, IFLA_GROUP, IFLA_GRO_MAX_SIZE, IFLA_GSO_MAX_SEGS, IFLA_GSO_MAX_SIZE,
    IFLA_IFALIAS, IFLA_IFNAME, IFLA_INFO_DATA, IFLA_INFO_KIND, IFLA_LINK, IFLA_LINKINFO,
    IFLA_LINK_NETNSID, IFLA_MASTER, IFLA_MTU, IFLA_NUM_RX_QUEUES, IFLA_NUM_TX_QUEUES,
    IFLA_OPERSTATE, IFLA_PHYS_SWITCH_ID, IFLA_PROTINFO, IFLA_STATS, IFLA_STATS64, IFLA_TXQLEN,
    IFLA_VFINFO_LIST, IFLA_XDP, IFLA_XDP_ATTACHED, IFLA_XDP_FD, IFLA_XDP_FLAGS, IFLA_XDP_PROG_ID,
    IF_INFO_MSG_SIZE, NLA_F_NESTED,
};
use crate::error::NetlinkError;
use crate::message::IfInfoMessage;
use crate::utils::{opt_bytes, read_text, text_of};
use crate::wire::{
    i32_at, u32_at, u32_be_at, u8_at, value_i32, value_u32, value_u32_be, value_u8,
};

verus! {

/// The network namespace a veth peer is created in.
#[derive(Clone, Copy, Debug, PartialEq, Eq)]
pub enum Namespace {
    Pid(i32),
    Fd(i32),
}

/// The XDP state of a link.
#[derive(Clone, Copy, Debug, PartialEq, Eq)]
pub struct LinkXdp {
    pub fd: i32,
    pub attached: bool,
    pub attache_mode: u32,
    pub flags: u32,
    pub prog_id: u32,
}

impl LinkXdp {
    /// The state of a link without an XDP program: every field zero.
    pub open spec fn zero() -> LinkXdp {
        LinkXdp { fd: 0, attached: false, attache_mode: 0, flags: 0, prog_id: 0 }
    }

    /// The state of a link without an XDP program.
    pub fn new() -> (r: Self)
        ensures
            r == LinkXdp::zero(),
    {
        LinkXdp { fd: 0, attached: false, attache_mode: 0, flags: 0, prog_id: 0 }
    }
}

impl Default for LinkXdp {
    fn default() -> (r: Self)
        ensures
            r == LinkXdp::zero(),
    {
        LinkXdp::new()
    }
}

/// The attributes that every kind of link has.
#[derive(Clone, Debug, PartialEq, Eq)]
pub struct LinkAttrs {
    pub link_type: String,
    pub index: i32,
    pub name: String,
    pub hw_addr: Vec<u8>,
    pub mtu: u32,
    pub flags: u32,
    pub raw_flags: u32,
    pub parent_index: i32,
    pub master_index: i32,
    pub tx_queue_len: i32,
    pub alias: String,
    pub xdp: LinkXdp,
    pub prot_info: Vec<u8>,
    pub oper_state: u8,
    pub phys_switch_id: u32,
    pub netns_id: i32,
    pub gso_max_size: u32,
    pub gso_max_segs: u32,
    pub gro_max_size: u32,
    pub vfs: Vec<u8>,
    pub num_tx_queues: i32,
    pub num_rx_queues: i32,
    pub group: u32,
    pub statistics: Vec<u8>,
    pub statistics64: Vec<u8>,
}

/// The attributes of a link as a mathematical value.
pub struct LinkAttrsView {
    pub link_type: Seq<char>,
    pub index: i32,
    pub name: Seq<char>,
    pub hw_addr: Seq<u8>,
    pub mtu: u32,
    pub flags: u32,
    pub raw_flags: u32,
    pub parent_index: i32,
    pub master_index: i32,
    pub tx_queue_len: i32,
    pub alias: Seq<char>,
    pub xdp: LinkXdp,
    pub prot_info: Seq<u8>,
    pub oper_state: u8,
    pub phys_switch_id: u32,
    pub netns_id: i32,
    pub gso_max_size: u32,
    pub gso_max_segs: u32,
    pub gro_max_size: u32,
    pub vfs: Seq<u8>,
    pub num_tx_queues: i32,
    pub num_rx_queues: i32,
    pub group: u32,
    pub statistics: Seq<u8>,
    pub statistics64: Seq<u8>,
}

impl LinkAttrsView {
    /// The attributes of a link of which nothing is known: every number
    /// zero, every text and byte string empty.
    pub open spec fn empty() -> LinkAttrsView {
        LinkAttrsView {
            link_type: Seq::empty(),
            index: 0,
            name: Seq::empty(),
            hw_addr: Seq::empty(),
            mtu: 0,
            flags: 0,
            raw_flags: 0,
            parent_index: 0,
            master_index: 0,
            tx_queue_len: 0,
            alias: Seq::empty(),
            xdp: LinkXdp::zero(),
            prot_info: Seq::empty(),
            oper_state: 0,
            phys_switch_id: 0,
            netns_id: 0,
            gso_max_size: 0,
            gso_max_segs: 0,
            gro_max_size: 0,
            vfs: Seq::empty(),
            num_tx_queues: 0,
            num_rx_queues: 0,
            group: 0,
            statistics: Seq::empty(),
            statistics64: Seq::empty(),
        }
    }

    /// The attributes that a link frame's fixed payload states: the index
    /// and the flags as the kernel reports them.
    pub open spec fn of_info(msg: IfInfoMessage) -> LinkAttrsView {
        LinkAttrsView { index: msg.ifi_index, raw_flags: msg.ifi_flags, ..LinkAttrsView::empty() }
    }
}

impl View for LinkAttrs {
    type V = LinkAttrsView;

    open spec fn view(&self) -> LinkAttrsView {
        LinkAttrsView {
            link_type: self.link_type@,
            index: self.index,
            name: self.name@,
            hw_addr: self.hw_addr@,
            mtu: self.mtu,
            flags: self.flags,
            raw_flags: self.raw_flags,
            parent_index: self.parent_index,
            master_index: self.master_index,
            tx_queue_len: self.tx_queue_len,
            alias: self.alias@,
            xdp: self.xdp,
            prot_info: self.prot_info@,
            oper_state: self.oper_state,
            phys_switch_id: self.phys_switch_id,
            netns_id: self.netns_id,
            gso_max_size: self.gso_max_size,
            gso_max_segs: self.gso_max_segs,
            gro_max_size: self.gro_max_size,
            vfs: self.vfs@,
            num_tx_queues: self.num_tx_queues,
            num_rx_queues: self.num_rx_queues,
            group: self.group,
            statistics: self.statistics@,
            statistics64: self.statistics64@,
        }
    }
}

impl LinkAttrs {
    /// The attributes of a link of which nothing is known.
    pub fn new() -> (r: Self)
        ensures
            r@ == LinkAttrsView::empty(),
    {
        LinkAttrs {
            link_type: String::new(),
            index: 0,
            name: String::new(),
            hw_addr: Vec::new(),
            mtu: 0,
            flags: 0,
            raw_flags: 0,
            parent_index: 0,
            master_index: 0,
            tx_queue_len: 0,
            alias: String::new(),
            xdp: LinkXdp::new(),
            prot_info: Vec::new(),
            oper_state: 0,
            phys_switch_id: 0,
            netns_id: 0,
            gso_max_size: 0,
            gso_max_segs: 0,
            gro_max_size: 0,
            vfs: Vec::new(),
            num_tx_queues: 0,
            num_rx_queues: 0,
            group: 0,
            statistics: Vec::new(),
            statistics64: Vec::new(),
        }
    }

    /// The attributes that a link frame's fixed payload states.
    pub fn from(if_info_msg: IfInfoMessage) -> (r: Self)
        ensures
            r@ == LinkAttrsView::of_info(if_info_msg),
    {
        let mut attrs = Self::new();
        attrs.index = if_info_msg.ifi_index;
        attrs.raw_flags = if_info_msg.ifi_flags;
        attrs
    }
}

impl Default for LinkAttrs {
    fn default() -> (r: Self)
        ensures
            r@ == LinkAttrsView::empty(),
    {
        LinkAttrs::new()
    }
}

/// A link: its kind, the attributes it shares with all links, and what
/// only its kind has.
#[derive(Clone, Debug, PartialEq, Eq)]
pub enum Kind {
    Device(LinkAttrs),
    Dummy(LinkAttrs),
    Bridge {
        attrs: LinkAttrs,
        hello_time: Option<u32>,
        ageing_time: Option<u32>,
        multicast_snooping: Option<bool>,
        vlan_filtering: Option<bool>,
    },
    Veth {
        attrs: LinkAttrs,
        peer_name: String,
        peer_hw_addr: Option<Vec<u8>>,
        peer_ns: Option<Namespace>,
    },
}

/// A link as a mathematical value.
pub enum KindView {
    Device(LinkAttrsView),
    Dummy(LinkAttrsView),
    Bridge {
        attrs: LinkAttrsView,
        hello_time: Option<u32>,
        ageing_time: Option<u32>,
        multicast_snooping: Option<bool>,
        vlan_filtering: Option<bool>,
    },
    Veth {
        attrs: LinkAttrsView,
        peer_name: Seq<char>,
        peer_hw_addr: Option<Seq<u8>>,
        peer_ns: Option<Namespace>,
    },
}

impl KindView {
    /// The attributes that the link shares with all links.
    pub open spec fn attrs(self) -> LinkAttrsView {
        match self {
            KindView::Device(attrs) => attrs,
            KindView::Dummy(attrs) => attrs,
            KindView::Bridge { attrs, .. } => attrs,
            KindView::Veth { attrs, .. } => attrs,
        }
    }

    /// The name of the link's kind.
    pub open spec fn kind_name(self) -> Seq<char> {
        match self {
            KindView::Device(_) => "device"@,
            KindView::Dummy(_) => "dummy"@,
            KindView::Bridge { .. } => "bridge"@,
            KindView::Veth { .. } => "veth"@,
        }
    }
}

impl View for Kind {
    type V = KindView;

    open spec fn view(&self) -> KindView {
        match self {
            Kind::Device(attrs) => KindView::Device(attrs@),
            Kind::Dummy(attrs) => KindView::Dummy(attrs@),
            Kind::Bridge { attrs, hello_time, ageing_time, multicast_snooping, vlan_filtering } => {
                KindView::Bridge {
                    attrs: attrs@,
                    hello_time: *hello_time,
                    ageing_time: *ageing_time,
                    multicast_snooping: *multicast_snooping,
                    vlan_filtering: *vlan_filtering,
                }
            },
            Kind::Veth { attrs, peer_name, peer_hw_addr, peer_ns } => KindView::Veth {
                attrs: attrs@,
                peer_name: peer_name@,
                peer_hw_addr: opt_bytes(*peer_hw_addr),
                peer_ns: *peer_ns,
            },
        }
    }
}

/// What every link offers, whatever its kind.
pub trait Link {
    /// The link as a mathematical value.
    spec fn model(&self) -> KindView;

    /// The name of the link's kind.
    fn link_type(&self) -> (r: String)
        ensures
            r@ == self.model().kind_name(),
    ;

    /// The attributes that the link shares with all links.
    fn attrs(&self) -> (r: &LinkAttrs)
        ensures
            r@ == self.model().attrs(),
    ;

    /// The link with what only its kind has.
    fn kind(&self) -> (r: &Kind)
        ensures
            r@ == self.model(),
    ;
}

impl Link for Kind {
    open spec fn model(&self) -> KindView {
        self@
    }

    fn link_type(&self) -> (r: String) {
        match self {
            Kind::Device(_) => "device".to_owned(),
            Kind::Dummy(_) => "dummy".to_owned(),
            Kind::Bridge { .. } => "bridge".to_owned(),
            Kind::Veth { .. } => "veth".to_owned(),
        }
    }

    fn attrs(&self) -> (r: &LinkAttrs) {
        match self {
            Kind::Device(attrs) => attrs,
            Kind::Dummy(attrs) => attrs,
            Kind::Bridge { attrs, .. } => attrs,
            Kind::Veth { attrs, .. } => attrs,
        }
    }

    fn kind(&self) -> (r: &Kind) {
        self
    }
}

/// The XDP state after one more of its attributes is read; none where the
/// attribute is too short for its number.
pub open spec fn xdp_step(xdp: LinkXdp, a: AttrTree) -> Option<LinkXdp> {
    if a.rta_type == IFLA_XDP_FD {
        match i32_at(a.value) {
            Some(v) => Some(LinkXdp { fd: v, ..xdp }),
            None => None,
        }
    } else if a.rta_type == IFLA_XDP_ATTACHED {
        match u8_at(a.value) {
            Some(v) => Some(LinkXdp { attache_mode: v as u32, attached: v != 0, ..xdp }),
            None => None,
        }
    } else if a.rta_type == IFLA_XDP_FLAGS {
        match u32_at(a.value) {
            Some(v) => Some(LinkXdp { flags: v, ..xdp }),
            None => None,
        }
    } else if a.rta_type == IFLA_XDP_PROG_ID {
        match u32_at(a.value) {
            Some(v) => Some(LinkXdp { prog_id: v, ..xdp }),
            None => None,
        }
    } else {
        Some(xdp)
    }
}

/// The XDP state that the attributes from index `i` on make of `xdp`, read
/// in order.
pub open spec fn xdp_fold(xdp: LinkXdp, attrs: Seq<AttrTree>, i: int) -> Option<LinkXdp>
    decreases attrs.len() - i,
{
    if i < 0 || i >= attrs.len() {
        Some(xdp)
    } else {
        match xdp_step(xdp, attrs[i]) {
            Some(next) => xdp_fold(next, attrs, i + 1),
            None => None,
        }
    }
}

/// The XDP state that the payload of an XDP attribute spells.
pub open spec fn xdp_of(data: Seq<u8>) -> Option<LinkXdp> {
    match parse_attrs(data) {
        Some(attrs) => xdp_fold(LinkXdp::zero(), attrs, 0),
        None => None,
    }
}

impl LinkXdp {
    /// Reads the XDP state from the payload of an XDP attribute.
    pub fn parse(data: &[u8]) -> (r: Result<LinkXdp, NetlinkError>)
        ensures
            match xdp_of(data@) {
                Some(xdp) => r == Ok::<LinkXdp, NetlinkError>(xdp),
                None => r == Err::<LinkXdp, NetlinkError>(NetlinkError::MalformedMessage),
            },
    {
        let attrs = match NetlinkRouteAttr::from(data) {
            Ok(attrs) => attrs,
            Err(e) => { return Err(e); },
        };
        let ghost all = trees(attrs@);
        let mut xdp = LinkXdp::new();
        let mut i: usize = 0;
        while i < attrs.len()
            invariant
                0 <= i <= attrs@.len(),
                all == trees(attrs@),
                xdp_of(data@) == xdp_fold(xdp, all, i as int),
            decreases attrs@.len() - i,
        {
            let attr = &attrs[i];
            let value = attr.value.as_slice();
            assert(all[i as int] == attr@);
            let rta_type = attr.rt_attr.rta_type;
            if rta_type == IFLA_XDP_FD {
                xdp.fd = match value_i32(value) {
                    Ok(v) => v,
                    Err(e) => { return Err(e); },
                };
            } else if rta_type == IFLA_XDP_ATTACHED {
                let v = match value_u8(value) {
                    Ok(v) => v,
                    Err(e) => { return Err(e); },
                };
                xdp.attache_mode = v as u32;
                xdp.attached = v != 0;
            } else if rta_type == IFLA_XDP_FLAGS {
                xdp.flags = match value_u32(value) {
                    Ok(v) => v,
                    Err(e) => { return Err(e); },
                };
            } else if rta_type == IFLA_XDP_PROG_ID {
                xdp.prog_id = match value_u32(value) {
                    Ok(v) => v,
                    Err(e) => { return Err(e); },
                };
            }
            i += 1;
        }
        Ok(xdp)
    }
}

/// What the reading of a link frame has gathered: the shared attributes,
/// and the payloads of the attributes of the link's kind, by type.
pub struct LinkState {
    pub attrs: LinkAttrsView,
    pub data: Map<u16, Seq<u8>>,
}

/// The state after one more attribute of a link-info attribute is read: the
/// kind sets the link type, the kind's data replaces the table of payloads.
pub open spec fn info_step(st: LinkState, a: AttrTree) -> Option<LinkState> {
    if a.rta_type == IFLA_INFO_KIND {
        match text_of(a.value) {
            Some(t) => Some(LinkState { attrs: LinkAttrsView { link_type: t, ..st.attrs }, ..st }),
            None => None,
        }
    } else if a.rta_type == IFLA_INFO_DATA {
        match parse_attrs(a.value) {
            Some(inner) => Some(LinkState { data: attr_map(inner), ..st }),
            None => None,
        }
    } else {
        Some(st)
    }
}

/// The state that the attributes from index `i` on make of `st`.
pub open spec fn info_fold(st: LinkState, attrs: Seq<AttrTree>, i: int) -> Option<LinkState>
    decreases attrs.len() - i,
{
    if i < 0 || i >= attrs.len() {
        Some(st)
    } else {
        match info_step(st, attrs[i]) {
            Some(next) => info_fold(next, attrs, i + 1),
            None => None,
        }
    }
}

/// The state after a link-info attribute with the given payload is read.
/// The table of the kind's payloads starts empty with each such attribute.
pub open spec fn link_info_of(st: LinkState, value: Seq<u8>) -> Option<LinkState> {
    match parse_attrs(value) {
        Some(infos) => info_fold(LinkState { attrs: st.attrs, data: Map::empty() }, infos, 0),
        None => None,
    }
}

/// The state after one more attribute of a link frame is read. Attributes
/// of other types than those named here change nothing.
pub open spec fn link_step(st: LinkState, a: AttrTree) -> Option<LinkState> {
    let base = st.attrs;
    let t = a.rta_type;
    if t == IFLA_LINKINFO {
        link_info_of(st, a.value)
    } else if t == IFLA_ADDRESS {
        Some(LinkState { attrs: LinkAttrsView { hw_addr: a.value, ..base }, ..st })
    } else if t == IFLA_IFNAME {
        match text_of(a.value) {
            Some(v) => Some(LinkState { attrs: LinkAttrsView { name: v, ..base }, ..st }),
            None => None,
        }
    } else if t == IFLA_MTU {
        match u32_at(a.value) {
            Some(v) => Some(LinkState { attrs: LinkAttrsView { mtu: v, ..base }, ..st }),
            None => None,
        }
    } else if t == IFLA_LINK {
        match i32_at(a.value) {
            Some(v) => Some(LinkState { attrs: LinkAttrsView { parent_index: v, ..base }, ..st }),
            None => None,
        }
    } else if t == IFLA_MASTER {
        match i32_at(a.value) {
            Some(v) => Some(LinkState { attrs: LinkAttrsView { master_index: v, ..base }, ..st }),
            None => None,
        }
    } else if t == IFLA_TXQLEN {
        match i32_at(a.value) {
            Some(v) => Some(LinkState { attrs: LinkAttrsView { tx_queue_len: v, ..base }, ..st }),
            None => None,
        }
    } else if t == IFLA_IFALIAS {
        match text_of(a.value) {
            Some(v) => Some(LinkState { attrs: LinkAttrsView { alias: v, ..base }, ..st }),
            None => None,
        }
    } else if t == IFLA_STATS {
        Some(LinkState { attrs: LinkAttrsView { statistics: a.value, ..base }, ..st })
    } else if t == IFLA_STATS64 {
        Some(LinkState { attrs: LinkAttrsView { statistics64: a.value, ..base }, ..st })
    } else if t == IFLA_XDP {
        match xdp_of(a.value) {
            Some(v) => Some(LinkState { attrs: LinkAttrsView { xdp: v, ..base }, ..st }),
            None => None,
        }
    } else if t == IFLA_PROTINFO || t == NLA_F_NESTED {
        Some(LinkState { attrs: LinkAttrsView { prot_info: a.value, ..base }, ..st })
    } else if t == IFLA_OPERSTATE {
        match u8_at(a.value) {
            Some(v) => Some(LinkState { attrs: LinkAttrsView { oper_state: v, ..base }, ..st }),
            None => None,
        }
    } else if t == IFLA_PHYS_SWITCH_ID {
        match u32_be_at(a.value) {
            Some(v) => Some(
                LinkState { attrs: LinkAttrsView { phys_switch_id: v, ..base }, ..st },
            ),
            None => None,
        }
    } else if t == IFLA_LINK_NETNSID {
        match i32_at(a.value) {
            Some(v) => Some(LinkState { attrs: LinkAttrsView { netns_id: v, ..base }, ..st }),
            None => None,
        }
    } else if t == IFLA_GSO_MAX_SIZE {
        match u32_at(a.value) {
            Some(v) => Some(LinkState { attrs: LinkAttrsView { gso_max_size: v, ..base }, ..st }),
            None => None,
        }
    } else if t == IFLA_GSO_MAX_SEGS {
        match u32_at(a.value) {
            Some(v) => Some(LinkState { attrs: LinkAttrsView { gso_max_segs: v, ..base }, ..st }),
            None => None,
        }
    } else if t == IFLA_GRO_MAX_SIZE {
        match u32_at(a.value) {
            Some(v) => Some(LinkState { attrs: LinkAttrsView { gro_max_size: v, ..base }, ..st }),
            None => None,
        }
    } else if t == IFLA_VFINFO_LIST {
        Some(LinkState { attrs: LinkAttrsView { vfs: a.value, ..base }, ..st })
    } else if t == IFLA_NUM_TX_QUEUES {
        match i32_at(a.value) {
            Some(v) => Some(
                LinkState { attrs: LinkAttrsView { num_tx_queues: v, ..base }, ..st },
            ),
            None => None,
        }
    } else if t == IFLA_NUM_RX_QUEUES {
        match i32_at(a.value) {
            Some(v) => Some(
                LinkState { attrs: LinkAttrsView { num_rx_queues: v, ..base }, ..st },
            ),
            None => None,
        }
    } else if t == IFLA_GROUP {
        match u32_at(a.value) {
            Some(v) => Some(LinkState { attrs: LinkAttrsView { group: v, ..base }, ..st }),
            None => None,
        }
    } else {
        Some(st)
    }
}

/// The state that the attributes from index `i` on make of `st`.
pub open spec fn link_fold(st: LinkState, attrs: Seq<AttrTree>, i: int) -> Option<LinkState>
    decreases attrs.len() - i,
{
    if i < 0 || i >= attrs.len() {
        Some(st)
    } else {
        match link_step(st, attrs[i]) {
            Some(next) => link_fold(next, attrs, i + 1),
            None => None,
        }
    }
}

/// The number under `key` in a table of payloads: absent where the table
/// has no such payload, a failure where the payload is too short.
pub open spec fn table_u32(data: Map<u16, Seq<u8>>, key: u16) -> Option<Option<u32>> {
    if data.contains_key(key) {
        match u32_at(data[key]) {
            Some(v) => Some(Some(v)),
            None => None,
        }
    } else {
        Some(None)
    }
}

/// The switch under `key` in a table of payloads: on where the byte is one.
pub open spec fn table_flag(data: Map<u16, Seq<u8>>, key: u16) -> Option<Option<bool>> {
    if data.contains_key(key) {
        match u8_at(data[key]) {
            Some(v) => Some(Some(v == 1)),
            None => None,
        }
    } else {
        Some(None)
    }
}

/// The link that the gathered state describes: the link type chooses the
/// kind, a bridge takes its four settings from the table of payloads, a veth
/// comes without what is known of its peer, and any other type is a device.
pub open spec fn link_of_state(st: LinkState) -> Option<KindView> {
    if st.attrs.link_type == "dummy"@ {
        Some(KindView::Dummy(st.attrs))
    } else if st.attrs.link_type == "bridge"@ {
        match (
            table_u32(st.data, IFLA_BR_HELLO_TIME),
            table_u32(st.data, IFLA_BR_AGEING_TIME),
            table_flag(st.data, IFLA_BR_MCAST_SNOOPING),
            table_flag(st.data, IFLA_BR_VLAN_FILTERING),
        ) {
            (Some(hello_time), Some(ageing_time), Some(multicast_snooping), Some(vlan_filtering)) => {
                Some(
                    KindView::Bridge {
                        attrs: st.attrs,
                        hello_time,
                        ageing_time,
                        multicast_snooping,
                        vlan_filtering,
                    },
                )
            },
            _ => None,
        }
    } else if st.attrs.link_type == "veth"@ {
        Some(
            KindView::Veth {
                attrs: st.attrs,
                peer_name: Seq::empty(),
                peer_hw_addr: None,
                peer_ns: None,
            },
        )
    } else {
        Some(KindView::Device(st.attrs))
    }
}

/// The link that the body of a link frame describes: the fixed payload,
/// then the attributes in order. None where the body is cut short, an
/// attribute's length is out of range, a number lacks bytes or a text is not
/// valid UTF-8.
pub open spec fn link_of_bytes(buf: Seq<u8>) -> Option<KindView> {
    if buf.len() < IF_INFO_MSG_SIZE {
        None
    } else {
        match parse_attrs(buf.skip(IF_INFO_MSG_SIZE as int)) {
            Some(attrs) => match link_fold(
                LinkState {
                    attrs: LinkAttrsView::of_info(IfInfoMessage::decode(buf)),
                    data: Map::empty(),
                },
                attrs,
                0,
            ) {
                Some(st) => link_of_state(st),
                None => None,
            },
            None => None,
        }
    }
}

/// Reads the number under `key` from a table of payloads.
fn table_get_u32(data: &HashMap<u16, Vec<u8>>, key: u16) -> (r: Result<Option<u32>, NetlinkError>)
    ensures
        match table_u32(payloads(*data), key) {
            Some(v) => r == Ok::<Option<u32>, NetlinkError>(v),
            None => r == Err::<Option<u32>, NetlinkError>(NetlinkError::MalformedMessage),
        },
{
    match data.get(&key) {
        Some(v) => match value_u32(v.as_slice()) {
            Ok(x) => Ok(Some(x)),
            Err(e) => Err(e),
        },
        None => Ok(None),
    }
}

/// Reads the switch under `key` from a table of payloads.
fn table_get_flag(data: &HashMap<u16, Vec<u8>>, key: u16) -> (r: Result<
    Option<bool>,
    NetlinkError,
>)
    ensures
        match table_flag(payloads(*data), key) {
            Some(v) => r == Ok::<Option<bool>, NetlinkError>(v),
            None => r == Err::<Option<bool>, NetlinkError>(NetlinkError::MalformedMessage),
        },
{
    match data.get(&key) {
        Some(v) => match value_u8(v.as_slice()) {
            Ok(x) => Ok(Some(x == 1)),
            Err(e) => Err(e),
        },
        None => Ok(None),
    }
}

/// Reads the attributes nested in a link-info attribute: the kind's name
/// goes into `base`, the kind's data comes back as a table of payloads.
pub fn extract_link_info(base: &mut LinkAttrs, infos: Vec<NetlinkRouteAttr>) -> (r: Result<
    HashMap<u16, Vec<u8>>,
    NetlinkError,
>)
    ensures
        match info_fold(LinkState { attrs: old(base)@, data: Map::empty() }, trees(infos@), 0) {
            Some(st) => r is Ok && final(base)@ == st.attrs && payloads(r->Ok_0) == st.data,
            None => r is Err && r->Err_0 == NetlinkError::MalformedMessage,
        },
{
    let ghost all = trees(infos@);
    let ghost init = LinkState { attrs: base@, data: Map::empty() };
    let mut data: HashMap<u16, Vec<u8>> = HashMap::new();
    let mut i: usize = 0;
    assert(payloads(data) =~= Map::<u16, Seq<u8>>::empty());
    while i < infos.len()
        invariant
            0 <= i <= infos@.len(),
            all == trees(infos@),
            init == (LinkState { attrs: old(base)@, data: Map::empty() }),
            info_fold(init, all, 0) == info_fold(
                LinkState { attrs: base@, data: payloads(data) },
                all,
                i as int,
            ),
        decreases infos@.len() - i,
    {
        let info = &infos[i];
        let value = info.value.as_slice();
        assert(all[i as int] == info@);
        let rta_type = info.rt_attr.rta_type;
        if rta_type == IFLA_INFO_KIND {
            let text = match read_text(value) {
                Ok(t) => t,
                Err(e) => { return Err(e); },
            };
            base.link_type = text;
        } else if rta_type == IFLA_INFO_DATA {
            data = match NetlinkRouteAttr::map(value) {
                Ok(m) => m,
                Err(e) => { return Err(e); },
            };
        }
        i += 1;
    }
    Ok(data)
}

/// Whether the text `s` is the literal `lit`.
fn text_is(s: &String, lit: &str) -> (b: bool)
    ensures
        b == (s@ == lit@),
{
    *s == lit.to_owned()
}

/// Reads a link from the body of a link frame.
pub fn link_deserialize(buf: &[u8]) -> (r: Result<Kind, NetlinkError>)
    ensures
        match link_of_bytes(buf@) {
            Some(k) => r is Ok && r->Ok_0@ == k,
            None => r is Err && r->Err_0 == NetlinkError::MalformedMessage,
        },
{
    let if_info_msg = match IfInfoMessage::deserialize(buf) {
        Ok(m) => m,
        Err(e) => { return Err(e); },
    };
    let rest = vstd::slice::slice_subrange(buf, IF_INFO_MSG_SIZE, buf.len());
    assert(rest@ =~= buf@.skip(IF_INFO_MSG_SIZE as int));
    let rt_attrs = match NetlinkRouteAttr::from(rest) {
        Ok(attrs) => attrs,
        Err(e) => { return Err(e); },
    };
    let ghost all = trees(rt_attrs@);
    let mut base = LinkAttrs::from(if_info_msg);
    let mut data: HashMap<u16, Vec<u8>> = HashMap::new();
    let ghost init = LinkState { attrs: base@, data: Map::empty() };
    let mut i: usize = 0;
    assert(payloads(data) =~= Map::<u16, Seq<u8>>::empty());
    while i < rt_attrs.len()
        invariant
            0 <= i <= rt_attrs@.len(),
            all == trees(rt_attrs@),
            link_of_bytes(buf@) == match link_fold(init, all, 0) {
                Some(st) => link_of_state(st),
                None => None,
            },
            link_fold(init, all, 0) == link_fold(
                LinkState { attrs: base@, data: payloads(data) },
                all,
                i as int,
            ),
        decreases rt_attrs@.len() - i,
    {
        let attr = &rt_attrs[i];
        assert(all[i as int] == attr@);
        match read_link_attr(&mut base, attr) {
            Ok(Some(table)) => {
                data = table;
            },
            Ok(None) => {},
            Err(e) => { return Err(e); },
        }
        i += 1;
    }
    let ghost st = LinkState { attrs: base@, data: payloads(data) };
    assert(link_fold(init, all, 0) == Some(st));
    if text_is(&base.link_type, "dummy") {
        Ok(Kind::Dummy(base))
    } else if text_is(&base.link_type, "bridge") {
        let hello_time = match table_get_u32(&data, IFLA_BR_HELLO_TIME) {
            Ok(v) => v,
            Err(e) => { return Err(e); },
        };
        let ageing_time = match table_get_u32(&data, IFLA_BR_AGEING_TIME) {
            Ok(v) => v,
            Err(e) => { return Err(e); },
        };
        let multicast_snooping = match table_get_flag(&data, IFLA_BR_MCAST_SNOOPING) {
            Ok(v) => v,
            Err(e) => { return Err(e); },
        };
        let vlan_filtering = match table_get_flag(&data, IFLA_BR_VLAN_FILTERING) {
            Ok(v) => v,
            Err(e) => { return Err(e); },
        };
        Ok(Kind::Bridge { attrs: base, hello_time, ageing_time, multicast_snooping, vlan_filtering })
    } else if text_is(&base.link_type, "veth") {
        Ok(Kind::Veth { attrs: base, peer_name: String::new(), peer_hw_addr: None, peer_ns: None })
    } else {
        Ok(Kind::Device(base))
    }
}

/// Reads one attribute of a link frame into `base`. A link-info attribute
/// also yields the table of the kind's payloads.
fn read_link_attr(base: &mut LinkAttrs, attr: &NetlinkRouteAttr) -> (r: Result<
    Option<HashMap<u16, Vec<u8>>>,
    NetlinkError,
>)
    ensures
        forall|data: Map<u16, Seq<u8>>|
            match #[trigger] link_step(LinkState { attrs: old(base)@, data }, attr@) {
                Some(st) => r is Ok && final(base)@ == st.attrs && match r->Ok_0 {
                    Some(table) => payloads(table) == st.data,
                    None => st.data == data,
                },
                None => r is Err && r->Err_0 == NetlinkError::MalformedMessage,
            },
{
    let value = attr.value.as_slice();
    let t = attr.rt_attr.rta_type;
    if t == IFLA_LINKINFO {
        let infos = match NetlinkRouteAttr::from(value) {
            Ok(infos) => infos,
            Err(e) => { return Err(e); },
        };
        return match extract_link_info(base, infos) {
            Ok(table) => Ok(Some(table)),
            Err(e) => Err(e),
        };
    } else if t == IFLA_ADDRESS {
        base.hw_addr = vstd::slice::slice_to_vec(value);
    } else if t == IFLA_IFNAME {
        base.name = match read_text(value) {
            Ok(v) => v,
            Err(e) => { return Err(e); },
        };
    } else if t == IFLA_MTU {
        base.mtu = match value_u32(value) {
            Ok(v) => v,
            Err(e) => { return Err(e); },
        };
    } else if t == IFLA_LINK {
        base.parent_index = match value_i32(value) {
            Ok(v) => v,
            Err(e) => { return Err(e); },
        };
    } else if t == IFLA_MASTER {
        base.master_index = match value_i32(value) {
            Ok(v) => v,
            Err(e) => { return Err(e); },
        };
    } else if t == IFLA_TXQLEN {
        base.tx_queue_len = match value_i32(value) {
            Ok(v) => v,
            Err(e) => { return Err(e); },
        };
    } else if t == IFLA_IFALIAS {
        base.alias = match read_text(value) {
            Ok(v) => v,
            Err(e) => { return Err(e); },
        };
    } else if t == IFLA_STATS {
        base.statistics = vstd::slice::slice_to_vec(value);
    } else if t == IFLA_STATS64 {
        base.statistics64 = vstd::slice::slice_to_vec(value);
    } else if t == IFLA_XDP {
        base.xdp = match LinkXdp::parse(value) {
            Ok(v) => v,
            Err(e) => { return Err(e); },
        };
    } else if t == IFLA_PROTINFO || t == NLA_F_NESTED {
        base.prot_info = vstd::slice::slice_to_vec(value);
    } else if t == IFLA_OPERSTATE {
        base.oper_state = match value_u8(value) {
            Ok(v) => v,
            Err(e) => { return Err(e); },
        };
    } else if t == IFLA_PHYS_SWITCH_ID {
        base.phys_switch_id = match value_u32_be(value) {
            Ok(v) => v,
            Err(e) => { return Err(e); },
        };
    } else if t == IFLA_LINK_NETNSID {
        base.netns_id = match value_i32(value) {
            Ok(v) => v,
            Err(e) => { return Err(e); },
        };
    } else if t == IFLA_GSO_MAX_SIZE {
        base.gso_max_size = match value_u32(value) {
            Ok(v) => v,
            Err(e) => { return Err(e); },
        };
    } else if t == IFLA_GSO_MAX_SEGS {
        base.gso_max_segs = match value_u32(value) {
            Ok(v) => v,
            Err(e) => { return Err(e); },
        };
    } else if t == IFLA_GRO_MAX_SIZE {
        base.gro_max_size = match value_u32(value) {
            Ok(v) => v,
            Err(e) => { return Err(e); },
        };
    } else if t == IFLA_VFINFO_LIST {
        base.vfs = vstd::slice::slice_to_vec(value);
    } else if t == IFLA_NUM_TX_QUEUES {
        base.num_tx_queues = match value_i32(value) {
            Ok(v) => v,
            Err(e) => { return Err(e); },
        };
    } else if t == IFLA_NUM_RX_QUEUES {
        base.num_rx_queues = match value_i32(value) {
            Ok(v) => v,
            Err(e) => { return Err(e); },
        };
    } else if t == IFLA_GROUP {
        base.group = match value_u32(value) {
            Ok(v) => v,
            Err(e) => { return Err(e); },
        };
    }
    Ok(None)
}

/// What the reply to a request for one link means: exactly one body is the
/// link; none, or the kernel's word that there is no such device, means that
/// no link was found; several bodies are ambiguous; any other failure of the
/// exchange stays what it is.
pub fn link_from_reply(reply: Result<Vec<Vec<u8>>, NetlinkError>) -> (r: Result<Kind, NetlinkError>)
    ensures
        match reply {
            Ok(msgs) => if msgs@.len() == 0 {
                r is Err && r->Err_0 == NetlinkError::NotFound
            } else if msgs@.len() == 1 {
                match link_of_bytes(msgs@[0]@) {
                    Some(k) => r is Ok && r->Ok_0@ == k,
                    None => r is Err && r->Err_0 == NetlinkError::MalformedMessage,
                }
            } else {
                r is Err && r->Err_0 == NetlinkError::Ambiguous
            },
            Err(e) => r is Err && if e is KernelError && e->KernelError_errno == ENODEV {
                r->Err_0 == NetlinkError::NotFound
            } else {
                r->Err_0 == e
            },
        },
{
    match reply {
        Ok(msgs) => {
            if msgs.len() == 0 {
                Err(NetlinkError::NotFound)
            } else if msgs.len() == 1 {
                link_deserialize(msgs[0].as_slice())
            } else {
                Err(NetlinkError::Ambiguous)
            }
        },
        Err(e) => {
            let missing = match &e {
                NetlinkError::KernelError { errno, .. } => *errno == ENODEV,
                _ => false,
            };
            if missing {
                Err(NetlinkError::NotFound)
            } else {
                Err(e)
            }
        },
    }
}

} // verus!
