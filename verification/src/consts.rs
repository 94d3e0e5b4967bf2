//! Numbers of the rtnetlink protocol, as the kernel's headers fix them.

use vstd::prelude::*;

verus! {

pub const NLMSG_ALIGNTO: usize = 0x4;
pub const RTA_ALIGNTO: usize = 0x4;

pub const NLMSG_ERROR: u16 = 2;
pub const NLMSG_DONE: u16 = 3;
pub const NLMSG_HDRLEN: usize = 0x10;

pub const RECV_BUF_SIZE: usize = 65536;
pub const PID_KERNEL: u32 = 0;

pub const IFF_UP: u32 = 0x1;
pub const IFF_BROADCAST: u32 = 0x2;
pub const IFF_DEBUG: u32 = 0x4;
pub const IFF_LOOPBACK: u32 = 0x8;
pub const IFF_POINTOPOINT: u32 = 0x10;
pub const IFF_NOTRAILERS: u32 = 0x20;
pub const IFF_RUNNING: u32 = 0x40;

pub const RT_ATTR_SIZE: usize = 0x4;
pub const IF_INFO_MSG_SIZE: usize = 0x10;
pub const IF_ADDR_MSG_SIZE: usize = 0x8;
pub const ROUTE_MSG_SIZE: usize = 0xc;

pub const NETLINK_ROUTE: i32 = 0;

pub const AF_UNSPEC: i32 = 0;
pub const AF_INET: i32 = 2;
pub const AF_INET6: i32 = 10;

pub const NLM_F_REQUEST: i32 = 0x1;
pub const NLM_F_MULTI: i32 = 0x2;
pub const NLM_F_ACK: i32 = 0x4;
pub const NLM_F_ROOT: i32 = 0x100;
pub const NLM_F_MATCH: i32 = 0x200;
pub const NLM_F_DUMP: i32 = 0x300;
pub const NLM_F_REPLACE: i32 = 0x100;
pub const NLM_F_EXCL: i32 = 0x200;
pub const NLM_F_CREATE: i32 = 0x400;
pub const NLM_F_APPEND: i32 = 0x800;

pub const RTM_NEWLINK: u16 = 16;
pub const RTM_DELLINK: u16 = 17;
pub const RTM_GETLINK: u16 = 18;
pub const RTM_SETLINK: u16 = 19;
pub const RTM_NEWADDR: u16 = 20;
pub const RTM_DELADDR: u16 = 21;
pub const RTM_GETADDR: u16 = 22;
pub const RTM_NEWROUTE: u16 = 24;
pub const RTM_DELROUTE: u16 = 25;
pub const RTM_GETROUTE: u16 = 26;

pub const NLA_F_NESTED: u16 = 0x8000;

pub const IFLA_ADDRESS: u16 = 1;
pub const IFLA_IFNAME: u16 = 3;
pub const IFLA_MTU: u16 = 4;
pub const IFLA_LINK: u16 = 5;
pub const IFLA_STATS: u16 = 7;
pub const IFLA_MASTER: u16 = 10;
pub const IFLA_PROTINFO: u16 = 12;
pub const IFLA_TXQLEN: u16 = 13;
pub const IFLA_OPERSTATE: u16 = 16;
pub const IFLA_LINKINFO: u16 = 18;
pub const IFLA_NET_NS_PID: u16 = 19;
pub const IFLA_IFALIAS: u16 = 20;
pub const IFLA_VFINFO_LIST: u16 = 22;
pub const IFLA_STATS64: u16 = 23;
pub const IFLA_GROUP: u16 = 27;
pub const IFLA_NET_NS_FD: u16 = 28;
pub const IFLA_NUM_TX_QUEUES: u16 = 31;
pub const IFLA_NUM_RX_QUEUES: u16 = 32;
pub const IFLA_PHYS_SWITCH_ID: u16 = 36;
pub const IFLA_LINK_NETNSID: u16 = 37;
pub const IFLA_GSO_MAX_SEGS: u16 = 40;
pub const IFLA_GSO_MAX_SIZE: u16 = 41;
pub const IFLA_XDP: u16 = 43;
pub const IFLA_GRO_MAX_SIZE: u16 = 58;

pub const IFLA_INFO_KIND: u16 = 1;
pub const IFLA_INFO_DATA: u16 = 2;
pub const IFLA_INFO_SLAVE_KIND: u16 = 4;
pub const IFLA_INFO_SLAVE_DATA: u16 = 5;

pub const IFLA_BR_HELLO_TIME: u16 = 2;
pub const IFLA_BR_AGEING_TIME: u16 = 4;
pub const IFLA_BR_VLAN_FILTERING: u16 = 7;
pub const IFLA_BR_MCAST_SNOOPING: u16 = 23;

pub const VETH_INFO_PEER: u16 = 1;

pub const IFLA_XDP_FD: u16 = 1;
pub const IFLA_XDP_ATTACHED: u16 = 2;
pub const IFLA_XDP_FLAGS: u16 = 3;
pub const IFLA_XDP_PROG_ID: u16 = 4;

pub const IFA_ADDRESS: u16 = 1;
pub const IFA_LOCAL: u16 = 2;
pub const IFA_LABEL: u16 = 3;
pub const IFA_BROADCAST: u16 = 4;
pub const IFA_CACHEINFO: u16 = 6;

pub const RTA_DST: u16 = 1;
pub const RTA_IIF: u16 = 3;
pub const RTA_OIF: u16 = 4;
pub const RTA_GATEWAY: u16 = 5;
pub const RTA_PREFSRC: u16 = 7;

pub const RT_TABLE_MAIN: u8 = 254;
pub const RTPROT_BOOT: u8 = 3;
pub const RT_SCOPE_UNIVERSE: u8 = 0;
pub const RTN_UNICAST: u8 = 1;

/// The error number with which the kernel says that there is no such entry.
pub const ENOENT: i32 = 2;

/// The error number with which the kernel says that there is no such device.
pub const ENODEV: i32 = 19;

} // verus!
