//! A verified rtnetlink protocol engine: wire framing, typed requests,
//! reply classification and the link, address and route models.

pub mod consts;
pub mod error;
pub mod utils;
pub mod wire;
pub mod ip;
pub mod attr;
pub mod message;
pub mod request;
pub mod link;
pub mod link_request;
pub mod addr;
pub mod route;
pub mod handle;
pub mod netlink;
pub mod cni;
