use netlink::addr::{
    addr_deserialize, addrs_from_reply, build_addr_request, build_addr_show_request, AddrCmd,
    Address,
};
use netlink::attr::NetlinkRouteAttr;
use netlink::consts;
use netlink::error::NetlinkError;
use netlink::ip::{IpAddr, IpNet};
use netlink::message::IfAddrMessage;

fn v4(a: [u8; 4], prefix: u8) -> IpNet {
    IpNet::new(IpAddr::V4(a), prefix).unwrap()
}

fn body_of(addr: &Address, index: i32) -> Vec<u8> {
    let (proto, flags) = AddrCmd::Add.verb();
    let mut req = build_addr_request(addr, index, proto, flags).unwrap();
    req.serialize()[16..].to_vec()
}

#[test]
fn the_request_for_an_ipv4_address_is_written_byte_for_byte() {
    let addr = Address {
        ip: v4([127, 0, 0, 2], 24),
        ..Default::default()
    };
    let (proto, flags) = AddrCmd::Add.verb();
    let mut req = build_addr_request(&addr, 1, proto, flags).unwrap();
    let bytes = req.serialize();
    assert_eq!(
        bytes,
        vec![
            0x30, 0x00, 0x00, 0x00, 0x14, 0x00, 0x05, 0x06, 0x00, 0x00, 0x00, 0x00, 0x00, 0x00,
            0x00, 0x00, 0x02, 0x18, 0x00, 0x00, 0x01, 0x00, 0x00, 0x00, 0x08, 0x00, 0x02, 0x00,
            0x7f, 0x00, 0x00, 0x02, 0x08, 0x00, 0x01, 0x00, 0x7f, 0x00, 0x00, 0x02, 0x08, 0x00,
            0x04, 0x00, 0x7f, 0x00, 0x00, 0xff
        ]
    );
}

#[test]
fn an_ipv4_address_comes_back_from_its_request() {
    let addr = Address {
        ip: v4([127, 0, 0, 2], 24),
        scope: 254,
        label: "lo:1".to_string(),
        ..Default::default()
    };
    let got = addr_deserialize(&body_of(&addr, 3)).unwrap();
    assert_eq!(got.index, 3);
    assert_eq!(got.ip, addr.ip);
    assert_eq!(got.scope, 254);
    assert_eq!(got.local, Some(IpAddr::V4([127, 0, 0, 2])));
    assert_eq!(got.broadcast, Some(IpAddr::V4([127, 0, 0, 255])));
    assert_eq!(got.label, "lo:1");
}

#[test]
fn an_ipv6_address_comes_back_from_its_request() {
    let six = IpAddr::V6([0xfe, 0x80, 0, 0, 0, 0, 0, 0, 0, 0, 0, 0, 0, 0, 0, 1]);
    let addr = Address {
        ip: IpNet::new(six, 64).unwrap(),
        scope: 253,
        label: "ignored".to_string(),
        ..Default::default()
    };
    let body = body_of(&addr, 2);
    assert_eq!(body.len(), 8 + 20 + 20);
    assert_eq!(IfAddrMessage::deserialize(&body).unwrap().ifa_family, 10);
    let got = addr_deserialize(&body).unwrap();
    assert_eq!(got.index, 2);
    assert_eq!(got.ip, addr.ip);
    assert_eq!(got.scope, 253);
    assert_eq!(got.local, Some(six));
    assert_eq!(got.broadcast, None);
    assert_eq!(got.label, "");
}

#[test]
fn an_explicit_broadcast_address_is_sent_as_it_is() {
    let addr = Address {
        ip: v4([10, 0, 0, 5], 8),
        broadcast: Some(IpAddr::V4([10, 0, 0, 255])),
        flags: 0x80,
        ..Default::default()
    };
    let body = body_of(&addr, 1);
    assert_eq!(IfAddrMessage::deserialize(&body).unwrap().ifa_flags, 0x80);
    let got = addr_deserialize(&body).unwrap();
    assert_eq!(got.broadcast, Some(IpAddr::V4([10, 0, 0, 255])));
    let derived = Address {
        ip: v4([10, 0, 0, 5], 8),
        ..Default::default()
    };
    let got = addr_deserialize(&body_of(&derived, 1)).unwrap();
    assert_eq!(got.broadcast, Some(IpAddr::V4([10, 255, 255, 255])));
}

#[test]
fn the_peer_is_sent_in_the_family_of_the_address() {
    let peer_attr = |addr: &Address| {
        let body = body_of(addr, 1);
        let attrs = NetlinkRouteAttr::from(&body[8..]).unwrap();
        assert_eq!(attrs[0].rt_attr.rta_type, consts::IFA_LOCAL);
        assert_eq!(attrs[1].rt_attr.rta_type, consts::IFA_ADDRESS);
        attrs[1].value.clone()
    };
    let plain = Address {
        ip: v4([10, 0, 0, 1], 30),
        peer: Some(v4([10, 0, 0, 2], 30)),
        ..Default::default()
    };
    assert_eq!(peer_attr(&plain), vec![10, 0, 0, 2]);
    let got = addr_deserialize(&body_of(&plain, 1)).unwrap();
    assert_eq!(got.ip, v4([10, 0, 0, 2], 30));
    assert_eq!(got.local, Some(IpAddr::V4([10, 0, 0, 1])));

    let six = IpAddr::V6([0xfd, 0, 0, 0, 0, 0, 0, 0, 0, 0, 0, 0, 0, 0, 0, 1]);
    let mapped = Address {
        ip: IpNet::new(six, 64).unwrap(),
        peer: Some(v4([10, 0, 0, 2], 32)),
        ..Default::default()
    };
    assert_eq!(
        peer_attr(&mapped),
        vec![0, 0, 0, 0, 0, 0, 0, 0, 0, 0, 0xff, 0xff, 10, 0, 0, 2]
    );

    let short = Address {
        ip: v4([10, 0, 0, 1], 30),
        peer: Some(
            IpNet::new(
                IpAddr::V6([0, 0, 0, 0, 0, 0, 0, 0, 0, 0, 0xff, 0xff, 10, 0, 0, 2]),
                128,
            )
            .unwrap(),
        ),
        ..Default::default()
    };
    assert_eq!(peer_attr(&short), vec![10, 0, 0, 2]);
}

#[test]
fn a_peer_without_a_counterpart_is_a_family_mismatch() {
    let addr = Address {
        ip: v4([10, 0, 0, 1], 30),
        peer: Some(IpNet::new(IpAddr::V6([0x20, 1, 0, 0, 0, 0, 0, 0, 0, 0, 0, 0, 0, 0, 0, 2]), 64).unwrap()),
        ..Default::default()
    };
    let (proto, flags) = AddrCmd::Add.verb();
    assert_eq!(
        build_addr_request(&addr, 1, proto, flags).err(),
        Some(NetlinkError::FamilyMismatch)
    );
}

#[test]
fn what_cannot_be_written_is_refused() {
    let (proto, flags) = AddrCmd::Replace.verb();
    let bad_prefix = Address {
        ip: IpNet {
            addr: IpAddr::V4([10, 0, 0, 1]),
            prefix_len: 33,
        },
        ..Default::default()
    };
    assert_eq!(
        build_addr_request(&bad_prefix, 1, proto, flags).err(),
        Some(NetlinkError::InvalidArgument)
    );
    let long_label = Address {
        ip: v4([10, 0, 0, 1], 24),
        label: "l".repeat(65531),
        ..Default::default()
    };
    assert_eq!(
        build_addr_request(&long_label, 1, proto, flags).err(),
        Some(NetlinkError::MalformedMessage)
    );
}

#[test]
fn an_address_attribute_of_seven_bytes_is_an_invalid_argument() {
    let mut body = IfAddrMessage::new(consts::AF_INET).serialize();
    body.extend(NetlinkRouteAttr::new(consts::IFA_ADDRESS, vec![1, 2, 3, 4, 5, 6, 7]).serialize());
    assert_eq!(
        addr_deserialize(&body).err(),
        Some(NetlinkError::InvalidArgument)
    );
    let mut body = IfAddrMessage::new(consts::AF_INET).serialize();
    body.extend(NetlinkRouteAttr::new(consts::IFA_BROADCAST, vec![1, 2, 3]).serialize());
    assert_eq!(
        addr_deserialize(&body).err(),
        Some(NetlinkError::InvalidArgument)
    );
    let mut header = IfAddrMessage::new(consts::AF_INET);
    header.ifa_prefix_len = 33;
    let mut body = header.serialize();
    body.extend(NetlinkRouteAttr::new(consts::IFA_ADDRESS, vec![10, 0, 0, 1]).serialize());
    assert_eq!(
        addr_deserialize(&body).err(),
        Some(NetlinkError::InvalidArgument)
    );
}

#[test]
fn an_address_frame_that_is_cut_short_is_malformed() {
    assert_eq!(
        addr_deserialize(&[0; 7]).err(),
        Some(NetlinkError::MalformedMessage)
    );
    let mut body = IfAddrMessage::new(consts::AF_INET).serialize();
    body.extend(NetlinkRouteAttr::new(consts::IFA_CACHEINFO, vec![0; 7]).serialize());
    assert_eq!(
        addr_deserialize(&body).err(),
        Some(NetlinkError::MalformedMessage)
    );
    let mut body = IfAddrMessage::new(consts::AF_INET).serialize();
    body.extend_from_slice(&[0x09, 0x00, 0x01, 0x00, 0x0a]);
    assert_eq!(
        addr_deserialize(&body).err(),
        Some(NetlinkError::MalformedMessage)
    );
    let got = addr_deserialize(&IfAddrMessage::new(consts::AF_INET).serialize()).unwrap();
    assert_eq!(got, Address::default());
}

#[test]
fn label_and_lifetimes_are_read_from_their_attributes() {
    let mut header = IfAddrMessage::new(consts::AF_INET);
    header.ifa_prefix_len = 8;
    header.ifa_index = 1;
    header.ifa_scope = 254;
    let mut body = header.serialize();
    body.extend(NetlinkRouteAttr::new(consts::IFA_ADDRESS, vec![127, 0, 0, 1]).serialize());
    body.extend(NetlinkRouteAttr::new(consts::IFA_LOCAL, vec![127, 0, 0, 1]).serialize());
    body.extend(NetlinkRouteAttr::new(consts::IFA_LABEL, b"lo\0".to_vec()).serialize());
    let mut cache = Vec::new();
    cache.extend_from_slice(&3600i32.to_le_bytes());
    cache.extend_from_slice(&(-1i32).to_le_bytes());
    cache.extend_from_slice(&[0; 8]);
    body.extend(NetlinkRouteAttr::new(consts::IFA_CACHEINFO, cache).serialize());
    body.extend(NetlinkRouteAttr::new(8, vec![0x80, 0, 0, 0]).serialize());
    let got = addr_deserialize(&body).unwrap();
    assert_eq!(got.index, 1);
    assert_eq!(got.scope, 254);
    assert_eq!(got.ip, v4([127, 0, 0, 1], 8));
    assert_eq!(got.local, Some(IpAddr::V4([127, 0, 0, 1])));
    assert_eq!(got.label, "lo");
    assert_eq!(got.preferred_lifetime, 3600);
    assert_eq!(got.valid_lifetime, -1);
    assert_eq!(got.flags, 0);
    assert_eq!(got.peer, None);
}

#[test]
fn the_addresses_of_one_link_are_picked_from_a_dump() {
    let on = |index: i32, last: u8| {
        body_of(
            &Address {
                ip: v4([127, 0, 0, last], 24),
                ..Default::default()
            },
            index,
        )
    };
    let dump = vec![on(1, 1), on(2, 9), on(1, 2), on(3, 7), on(1, 3)];
    let mine = addrs_from_reply(&dump, 1).unwrap();
    let ips: Vec<IpNet> = mine.iter().map(|a| a.ip).collect();
    assert_eq!(
        ips,
        vec![
            v4([127, 0, 0, 1], 24),
            v4([127, 0, 0, 2], 24),
            v4([127, 0, 0, 3], 24)
        ]
    );
    assert_eq!(addrs_from_reply(&dump, 4).unwrap().len(), 0);
    assert_eq!(addrs_from_reply(&vec![], 1).unwrap().len(), 0);
    let broken = vec![on(1, 1), vec![0; 3], on(1, 2)];
    assert_eq!(
        addrs_from_reply(&broken, 1).err(),
        Some(NetlinkError::MalformedMessage)
    );
}

#[test]
fn the_request_for_all_addresses_is_a_dump() {
    let mut req = build_addr_show_request(consts::AF_UNSPEC);
    let bytes = req.serialize();
    assert_eq!(
        bytes,
        vec![
            0x18, 0x00, 0x00, 0x00, 0x16, 0x00, 0x01, 0x03, 0x00, 0x00, 0x00, 0x00, 0x00, 0x00,
            0x00, 0x00, 0x00, 0x00, 0x00, 0x00, 0x00, 0x00, 0x00, 0x00
        ]
    );
}

#[test]
fn each_address_verb_has_its_type_and_flags() {
    assert_eq!(AddrCmd::Add.verb(), (20, 0x604));
    assert_eq!(AddrCmd::Change.verb(), (20, 0x104));
    assert_eq!(AddrCmd::Replace.verb(), (20, 0x504));
    assert_eq!(AddrCmd::Del.verb(), (21, 0x004));
}
