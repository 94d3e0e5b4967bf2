use netlink::consts;
use netlink::message::IfInfoMessage;
use netlink::request::{NetlinkRequest, NetlinkRequestData};

const NETLINK_MSG: [u8; 96] = [
    0x00, // interface family
    0x00, // reserved
    0x04, 0x03, // link layer type 772 = loopback
    0x01, 0x00, 0x00, 0x00, // interface index = 1
    0x49, 0x00, 0x00, 0x00, // device flags: UP, LOOPBACK, RUNNING, LOWERUP
    0x00, 0x00, 0x00, 0x00, // reserved 2 (aka device change flag)

    // nlas
    0x07, 0x00, 0x03, 0x00, 0x6c, 0x6f, 0x00, // device name L=7,T=3,V=lo
    0x00, // padding
    0x08, 0x00, 0x0d, 0x00, 0xe8, 0x03, 0x00, 0x00, // TxQueue length L=8,T=13,V=1000
    0x05, 0x00, 0x10, 0x00, 0x00, // OperState L=5,T=16,V=0 (unknown)
    0x00, 0x00, 0x00, // padding
    0x05, 0x00, 0x11, 0x00, 0x00, // Link mode L=5,T=17,V=0
    0x00, 0x00, 0x00, // padding
    0x08, 0x00, 0x04, 0x00, 0x00, 0x00, 0x01, 0x00, // MTU L=8,T=4,V=65536
    0x08, 0x00, 0x1b, 0x00, 0x00, 0x00, 0x00, 0x00, // Group L=8,T=27,V=9
    0x08, 0x00, 0x1e, 0x00, 0x00, 0x00, 0x00, 0x00, // Promiscuity L=8,T=30,V=0
    0x08, 0x00, 0x1f, 0x00, 0x01, 0x00, 0x00, 0x00, // Number of Tx Queues L=8,T=31,V=1
    0x08, 0x00, 0x28, 0x00, 0xff, 0xff, 0x00, 0x00, // Maximum GSO segment count L=8,T=40,V=65536
    0x08, 0x00, 0x29, 0x00, 0x00, 0x00, 0x01, 0x00, // Maximum GSO size L=8,T=41,V=65536
];

#[test]
fn test_if_info_message() {
    let msg = IfInfoMessage::deserialize(&NETLINK_MSG).unwrap();

    assert_eq!(msg.ifi_family, 0);
    assert_eq!(msg._ifi_pad, 0);
    assert_eq!(msg.ifi_type, 772);
    assert_eq!(msg.ifi_index, 1);
    assert_eq!(
        msg.ifi_flags,
        consts::IFF_UP | consts::IFF_LOOPBACK | consts::IFF_RUNNING
    );
    assert_eq!(msg.ifi_change, 0);
}

#[test]
fn test_netlink_request() {
    let mut req = NetlinkRequest::new(0, 0);
    let msg = IfInfoMessage::deserialize(&NETLINK_MSG).unwrap();
    req.add_data(NetlinkRequestData::Info(msg));

    let buf = req.serialize();
    assert_eq!(buf.len(), 16 + msg.len());
    assert_eq!(req.header.nlmsg_len, 16 + msg.len() as u32);
}

use netlink::attr::{NetlinkRouteAttr, RtAttr};
use netlink::error::NetlinkError;
use netlink::message::{IfAddrMessage, NetlinkMessage, NetlinkMessageHeader, RouteMessage};
use netlink::utils::{align_of, zero_terminated};

#[test]
fn align_of_rounds_up_to_the_next_multiple() {
    assert_eq!(align_of(0, 4), 0);
    assert_eq!(align_of(1, 4), 4);
    assert_eq!(align_of(4, 4), 4);
    assert_eq!(align_of(5, 4), 8);
    assert_eq!(align_of(7, 8), 8);
    assert_eq!(align_of(17, 16), 32);
    assert_eq!(align_of(65535, consts::RTA_ALIGNTO), 65536);
}

#[test]
fn zero_terminated_appends_one_zero_byte() {
    assert_eq!(zero_terminated("lo"), vec![0x6c, 0x6f, 0x00]);
    assert_eq!(zero_terminated(""), vec![0x00]);
}

#[test]
fn a_leaf_states_its_unpadded_length_and_is_padded_with_zeros() {
    let attr = NetlinkRouteAttr::new(3, zero_terminated("lo"));
    assert_eq!(attr.rt_attr, RtAttr { rta_len: 7, rta_type: 3 });
    assert_eq!(attr.len(), 7);
    assert_eq!(
        attr.serialize(),
        vec![0x07, 0x00, 0x03, 0x00, 0x6c, 0x6f, 0x00, 0x00]
    );
}

#[test]
fn a_parent_states_header_plus_padded_children() {
    let mut info = NetlinkRouteAttr::new(18, vec![]);
    info.add_child(1, b"dummy".to_vec());
    assert_eq!(info.len(), 16);
    assert_eq!(
        info.serialize(),
        vec![
            0x10, 0x00, 0x12, 0x00, 0x09, 0x00, 0x01, 0x00, 0x64, 0x75, 0x6d, 0x6d, 0x79, 0x00,
            0x00, 0x00
        ]
    );

    let mut data = NetlinkRouteAttr::new(2, vec![]);
    data.add_child(4, vec![0x96, 0x75, 0x00, 0x00]);
    data.add_child(7, vec![0x01]);
    assert_eq!(data.len(), 20);
    info.add_child_from_attr(data);
    assert_eq!(info.len(), 36);
    let bytes = info.serialize();
    assert_eq!(bytes.len(), 36);
    assert_eq!(&bytes[..4], &[0x24, 0x00, 0x12, 0x00]);
    assert_eq!(
        &bytes[16..],
        &[
            0x14, 0x00, 0x02, 0x00, 0x08, 0x00, 0x04, 0x00, 0x96, 0x75, 0x00, 0x00, 0x05, 0x00,
            0x07, 0x00, 0x01, 0x00, 0x00, 0x00
        ]
    );
}

#[test]
fn an_inline_payload_is_padded_before_the_children() {
    let mut attr = NetlinkRouteAttr::new(1, vec![0xaa, 0xbb, 0xcc]);
    assert_eq!(attr.len(), 7);
    attr.add_child(2, vec![0x01]);
    assert_eq!(attr.len(), 16);
    assert_eq!(
        attr.serialize(),
        vec![
            0x10, 0x00, 0x01, 0x00, 0xaa, 0xbb, 0xcc, 0x00, 0x05, 0x00, 0x02, 0x00, 0x01, 0x00,
            0x00, 0x00
        ]
    );
}

#[test]
fn checked_constructors_refuse_what_does_not_fit() {
    assert!(NetlinkRouteAttr::try_new(1, vec![0; 65531]).is_some());
    assert!(NetlinkRouteAttr::try_new(1, vec![0; 65532]).is_none());
    let big = NetlinkRouteAttr::new(2, vec![0; 40000]);
    let other = NetlinkRouteAttr::new(3, vec![0; 40000]);
    assert!(NetlinkRouteAttr::with_children(1, vec![], vec![big, other]).is_none());
    let small = NetlinkRouteAttr::new(2, vec![1, 2, 3, 4, 5]);
    let parent = NetlinkRouteAttr::with_children(1, vec![], vec![small]).unwrap();
    assert_eq!(parent.len(), 16);
    let holder = NetlinkRouteAttr::new(9, vec![0; 65000]);
    let extra = NetlinkRouteAttr::new(3, vec![0; 600]);
    assert!(!holder.can_hold(&extra));
    assert!(holder.can_hold(&NetlinkRouteAttr::new(3, vec![0; 100])));
}

#[test]
fn attributes_come_back_from_their_bytes() {
    let attrs = NetlinkRouteAttr::from(&NETLINK_MSG[16..]).unwrap();
    let types: Vec<u16> = attrs.iter().map(|a| a.rt_attr.rta_type).collect();
    assert_eq!(types, vec![3, 13, 16, 17, 4, 27, 30, 31, 40, 41]);
    assert_eq!(attrs[0].value, vec![0x6c, 0x6f, 0x00]);
    assert_eq!(attrs[0].rt_attr.rta_len, 7);
    assert_eq!(attrs[2].value, vec![0x00]);
    assert_eq!(attrs[4].value, vec![0x00, 0x00, 0x01, 0x00]);
    assert!(attrs.iter().all(|a| a.children.is_empty()));

    let mut written = Vec::new();
    for a in &attrs {
        written.extend(a.serialize());
    }
    assert_eq!(written, NETLINK_MSG[16..].to_vec());
}

#[test]
fn a_nested_attribute_is_read_level_by_level() {
    let mut info = NetlinkRouteAttr::new(18, vec![]);
    info.add_child(1, b"bridge".to_vec());
    let mut data = NetlinkRouteAttr::new(2, vec![]);
    data.add_child(4, vec![0x96, 0x75, 0x00, 0x00]);
    info.add_child_from_attr(data);
    let top = NetlinkRouteAttr::from(&info.serialize()).unwrap();
    assert_eq!(top.len(), 1);
    assert_eq!(top[0].rt_attr.rta_type, 18);
    let inner = NetlinkRouteAttr::from(&top[0].value).unwrap();
    assert_eq!(inner.len(), 2);
    assert_eq!(inner[0].value, b"bridge".to_vec());
    let settings = NetlinkRouteAttr::map(&inner[1].value).unwrap();
    assert_eq!(settings.len(), 1);
    assert_eq!(settings[&4], vec![0x96, 0x75, 0x00, 0x00]);
}

#[test]
fn of_two_attributes_of_one_type_the_later_stays_in_the_map() {
    let buf = [
        0x05, 0x00, 0x01, 0x00, 0x01, 0x00, 0x00, 0x00, 0x05, 0x00, 0x02, 0x00, 0x07, 0x00, 0x00,
        0x00, 0x05, 0x00, 0x01, 0x00, 0x02, 0x00, 0x00, 0x00,
    ];
    let map = NetlinkRouteAttr::map(&buf).unwrap();
    assert_eq!(map.len(), 2);
    assert_eq!(map[&1], vec![0x02]);
    assert_eq!(map[&2], vec![0x07]);
    assert_eq!(NetlinkRouteAttr::from(&buf).unwrap().len(), 3);
}

#[test]
fn a_length_out_of_range_is_malformed() {
    assert_eq!(
        NetlinkRouteAttr::from(&[0x03, 0x00, 0x01, 0x00]),
        Err(NetlinkError::MalformedMessage)
    );
    assert_eq!(
        NetlinkRouteAttr::from(&[0x08, 0x00, 0x01, 0x00, 0x01]),
        Err(NetlinkError::MalformedMessage)
    );
    assert_eq!(
        NetlinkRouteAttr::map(&[0x00, 0x00, 0x01, 0x00]).err(),
        Some(NetlinkError::MalformedMessage)
    );
    assert_eq!(NetlinkRouteAttr::from(&[0x01, 0x02, 0x03]), Ok(vec![]));
    assert_eq!(NetlinkRouteAttr::from(&[]), Ok(vec![]));
    let unpadded = [0x05, 0x00, 0x01, 0x00, 0x09];
    let attrs = NetlinkRouteAttr::from(&unpadded).unwrap();
    assert_eq!(attrs.len(), 1);
    assert_eq!(attrs[0].value, vec![0x09]);
}

#[test]
fn the_header_is_written_low_byte_first() {
    let header = NetlinkMessageHeader {
        nlmsg_len: 0x14,
        nlmsg_type: 0x12,
        nlmsg_flags: 0x0301,
        nlmsg_seq: 0x5c38fefd,
        nlmsg_pid: 0,
    };
    let bytes = header.serialize();
    assert_eq!(
        bytes,
        vec![
            0x14, 0x00, 0x00, 0x00, 0x12, 0x00, 0x01, 0x03, 0xfd, 0xfe, 0x38, 0x5c, 0x00, 0x00,
            0x00, 0x00
        ]
    );
    assert_eq!(NetlinkMessageHeader::deserialize(&bytes), Ok(header));
    assert_eq!(
        NetlinkMessageHeader::deserialize(&bytes[..15]),
        Err(NetlinkError::MalformedMessage)
    );
}

#[test]
fn a_new_header_asks_for_a_request() {
    let header = NetlinkMessageHeader::new(consts::RTM_NEWLINK, 0x604);
    assert_eq!(header.nlmsg_len, 16);
    assert_eq!(header.nlmsg_type, 16);
    assert_eq!(header.nlmsg_flags, 0x605);
    assert_eq!(header.nlmsg_seq, 0);
    assert_eq!(header.nlmsg_pid, 0);
}

#[test]
fn family_payloads_are_written_and_read_back() {
    let info = IfInfoMessage {
        ifi_family: 0,
        _ifi_pad: 0,
        ifi_type: 772,
        ifi_index: -2,
        ifi_flags: 0x49,
        ifi_change: 0x01020304,
    };
    let bytes = info.serialize();
    assert_eq!(
        bytes,
        vec![
            0x00, 0x00, 0x04, 0x03, 0xfe, 0xff, 0xff, 0xff, 0x49, 0x00, 0x00, 0x00, 0x04, 0x03,
            0x02, 0x01
        ]
    );
    assert_eq!(IfInfoMessage::deserialize(&bytes), Ok(info));
    assert_eq!(info.len(), 16);
    assert!(info.is_empty());
    assert!(!IfInfoMessage::new(consts::AF_INET).is_empty());
    assert_eq!(
        IfInfoMessage::deserialize(&bytes[..15]),
        Err(NetlinkError::MalformedMessage)
    );
    assert_eq!(IfInfoMessage::new(0), IfInfoMessage::default());

    let addr = IfAddrMessage {
        ifa_family: 2,
        ifa_prefix_len: 24,
        ifa_flags: 0x80,
        ifa_scope: 254,
        ifa_index: 3,
    };
    let bytes = addr.serialize();
    assert_eq!(bytes, vec![0x02, 0x18, 0x80, 0xfe, 0x03, 0x00, 0x00, 0x00]);
    assert_eq!(IfAddrMessage::deserialize(&bytes), Ok(addr));
    assert_eq!(addr.len(), 8);
    assert_eq!(
        IfAddrMessage::deserialize(&bytes[..7]),
        Err(NetlinkError::MalformedMessage)
    );
    assert_eq!(IfAddrMessage::new(10).ifa_family, 10);

    let route = RouteMessage::new_rt_msg();
    assert_eq!(
        route.serialize(),
        vec![0x00, 0x00, 0x00, 0x00, 0xfe, 0x03, 0x00, 0x01, 0x00, 0x00, 0x00, 0x00]
    );
    assert_eq!(RouteMessage::deserialize(&route.serialize()), Ok(route));
    assert_eq!(RouteMessage::new_rt_del_msg(), RouteMessage::default());
    assert_eq!(route.len(), 12);
    assert_eq!(
        RouteMessage::deserialize(&[0; 11]),
        Err(NetlinkError::MalformedMessage)
    );
}

fn frame(msg_type: u16, seq: u32, pid: u32, data: &[u8]) -> Vec<u8> {
    let header = NetlinkMessageHeader {
        nlmsg_len: 16 + data.len() as u32,
        nlmsg_type: msg_type,
        nlmsg_flags: 0,
        nlmsg_seq: seq,
        nlmsg_pid: pid,
    };
    let mut bytes = header.serialize();
    bytes.extend_from_slice(data);
    while bytes.len() % 4 != 0 {
        bytes.push(0);
    }
    bytes
}

#[test]
fn a_receive_buffer_splits_into_its_frames() {
    let mut buf = frame(16, 1, 7, &[1, 2, 3, 4]);
    buf.extend(frame(16, 1, 7, &[9]));
    buf.extend(frame(3, 1, 7, &[0, 0, 0, 0]));
    assert_eq!(buf.len(), 20 + 20 + 20);
    let msgs = NetlinkMessage::from(&buf).unwrap();
    assert_eq!(msgs.len(), 3);
    assert_eq!(msgs[0].data, vec![1, 2, 3, 4]);
    assert_eq!(msgs[1].header.nlmsg_len, 17);
    assert_eq!(msgs[1].data, vec![9]);
    assert_eq!(msgs[2].header.nlmsg_type, consts::NLMSG_DONE);
    assert_eq!(msgs[2].header.nlmsg_seq, 1);
    assert_eq!(msgs[2].header.nlmsg_pid, 7);

    buf.extend_from_slice(&[0xff; 15]);
    assert_eq!(NetlinkMessage::from(&buf).unwrap().len(), 3);
    assert_eq!(NetlinkMessage::from(&[]).unwrap().len(), 0);
}

#[test]
fn a_frame_whose_length_is_out_of_range_is_malformed() {
    let mut short = frame(16, 1, 7, &[]);
    short[0] = 15;
    assert_eq!(
        NetlinkMessage::from(&short),
        Err(NetlinkError::MalformedMessage)
    );
    let mut long = frame(16, 1, 7, &[1, 2, 3, 4]);
    long[0] = 21;
    assert_eq!(
        NetlinkMessage::from(&long),
        Err(NetlinkError::MalformedMessage)
    );
}

#[test]
fn a_request_states_its_length_and_ends_on_a_multiple_of_four() {
    let mut req = NetlinkRequest::new(consts::RTM_GETLINK, consts::NLM_F_DUMP);
    req.add_data(NetlinkRequestData::Info(IfInfoMessage::new(consts::AF_UNSPEC)));
    req.add_data(NetlinkRequestData::Attr(NetlinkRouteAttr::new(
        consts::IFLA_IFNAME,
        zero_terminated("lo"),
    )));
    let buf = req.serialize();
    assert_eq!(buf.len(), 40);
    assert_eq!(buf.len() % 4, 0);
    assert_eq!(req.header.nlmsg_len, 40);
    assert_eq!(&buf[..8], &[0x28, 0x00, 0x00, 0x00, 0x12, 0x00, 0x01, 0x03]);
    assert_eq!(&buf[16..32], &[0; 16]);
    assert_eq!(&buf[32..], &[0x07, 0x00, 0x03, 0x00, 0x6c, 0x6f, 0x00, 0x00]);
    let msgs = NetlinkMessage::from(&buf).unwrap();
    assert_eq!(msgs.len(), 1);
    assert_eq!(msgs[0].header, req.header);
    assert_eq!(msgs[0].data, buf[16..].to_vec());
}

#[test]
fn raw_data_is_written_behind_the_parts_as_it_is() {
    let mut req = NetlinkRequest::new(consts::RTM_GETLINK, 0);
    req.add_data(NetlinkRequestData::Addr(IfAddrMessage::new(2)));
    req.add_raw_data(vec![0xde, 0xad, 0xbe]);
    let buf = req.serialize();
    assert_eq!(buf.len(), 27);
    assert_eq!(req.header.nlmsg_len, 27);
    assert_eq!(&buf[24..], &[0xde, 0xad, 0xbe]);
}

#[test]
fn frames_that_were_joined_come_apart_as_they_were() {
    let bodies: Vec<Vec<u8>> = vec![vec![], vec![1], vec![1, 2], vec![1, 2, 3], vec![1, 2, 3, 4]];
    let mut buf = Vec::new();
    for (i, body) in bodies.iter().enumerate() {
        buf.extend(frame(16 + i as u16, 40 + i as u32, 7, body));
    }
    let msgs = NetlinkMessage::from(&buf).unwrap();
    assert_eq!(msgs.len(), bodies.len());
    for (i, msg) in msgs.iter().enumerate() {
        assert_eq!(msg.data, bodies[i]);
        assert_eq!(msg.header.nlmsg_len as usize, 16 + bodies[i].len());
        assert_eq!(msg.header.nlmsg_type, 16 + i as u16);
        assert_eq!(msg.header.nlmsg_seq, 40 + i as u32);
    }
}

#[test]
fn every_attribute_of_a_tree_starts_on_a_multiple_of_four() {
    let mut peer = NetlinkRouteAttr::new(1, vec![0; 16]);
    peer.add_child(3, zero_terminated("veth-peer"));
    peer.add_child(4, vec![0x78, 0x05, 0x00, 0x00]);
    let mut data = NetlinkRouteAttr::new(2, vec![]);
    data.add_child_from_attr(peer);
    let mut info = NetlinkRouteAttr::new(18, vec![]);
    info.add_child(1, b"veth".to_vec());
    info.add_child_from_attr(data);
    assert!(!info.is_empty());
    let bytes = info.serialize();
    assert_eq!(bytes.len() % 4, 0);
    assert_eq!(bytes.len(), info.len());

    fn walk(bytes: &[u8], base: usize, inline: &dyn Fn(u16) -> usize, seen: &mut Vec<(usize, u16, u16)>) {
        let mut at = 0;
        while bytes.len() - at >= 4 {
            let len = u16::from_le_bytes([bytes[at], bytes[at + 1]]) as usize;
            let ty = u16::from_le_bytes([bytes[at + 2], bytes[at + 3]]);
            seen.push((base + at, ty, len as u16));
            assert!(len >= 4);
            let padded = (len + 3) & !3;
            assert!(bytes[at + len..at + padded].iter().all(|b| *b == 0));
            if ty == 18 || ty == 2 || (ty == 1 && len > 12) {
                let skip = inline(len as u16);
                walk(&bytes[at + 4 + skip..at + len], base + at + 4 + skip, inline, seen);
            }
            at += padded;
        }
    }
    let mut seen = Vec::new();
    walk(&bytes, 0, &|len| if len == 44 { 16 } else { 0 }, &mut seen);
    assert_eq!(
        seen,
        vec![
            (0, 18, 60),
            (4, 1, 8),
            (12, 2, 48),
            (16, 1, 44),
            (36, 3, 14),
            (52, 4, 8)
        ]
    );
    assert!(seen.iter().all(|(at, _, _)| at % 4 == 0));
}

#[test]
fn a_part_states_the_length_it_has_on_the_wire() {
    assert_eq!(NetlinkRequestData::Info(IfInfoMessage::new(0)).len(), 16);
    assert_eq!(NetlinkRequestData::Addr(IfAddrMessage::new(0)).len(), 8);
    assert_eq!(NetlinkRequestData::Route(RouteMessage::new_rt_msg()).len(), 12);
    let attr = NetlinkRequestData::Attr(NetlinkRouteAttr::new(3, vec![1, 2, 3]));
    assert_eq!(attr.len(), 7);
    assert_eq!(attr.serialize().len(), 8);
}
