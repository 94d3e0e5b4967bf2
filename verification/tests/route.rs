use netlink::attr::NetlinkRouteAttr;
use netlink::consts;
use netlink::error::NetlinkError;
use netlink::ip::{IpAddr, IpNet};
use netlink::message::RouteMessage;
use netlink::route::{
    build_route_get_request, build_route_request, route_deserialize, route_from_reply, Route,
    RtCmd,
};

fn v4(a: [u8; 4], prefix: u8) -> IpNet {
    IpNet::new(IpAddr::V4(a), prefix).unwrap()
}

fn sample() -> Route {
    Route {
        oif_index: 1,
        dst: Some(v4([192, 168, 0, 0], 24)),
        src: Some(IpAddr::V4([127, 0, 0, 2])),
        ..Default::default()
    }
}

#[test]
fn the_request_that_adds_a_route_is_written_byte_for_byte() {
    let (proto, flags) = RtCmd::Add.verb();
    let mut req = build_route_request(&sample(), proto, flags).unwrap();
    assert_eq!(
        req.serialize(),
        vec![
            0x34, 0x00, 0x00, 0x00, 0x18, 0x00, 0x05, 0x06, 0x00, 0x00, 0x00, 0x00, 0x00, 0x00,
            0x00, 0x00, 0x02, 0x18, 0x00, 0x00, 0xfe, 0x03, 0x00, 0x01, 0x00, 0x00, 0x00, 0x00,
            0x08, 0x00, 0x04, 0x00, 0x01, 0x00, 0x00, 0x00, 0x08, 0x00, 0x01, 0x00, 0xc0, 0xa8,
            0x00, 0x00, 0x08, 0x00, 0x07, 0x00, 0x7f, 0x00, 0x00, 0x02
        ]
    );
}

#[test]
fn the_request_that_deletes_a_route_names_no_table() {
    let (proto, flags) = RtCmd::Del.verb();
    let mut route = sample();
    route.scope = 253;
    route.flags = 0x100;
    let mut req = build_route_request(&route, proto, flags).unwrap();
    let bytes = req.serialize();
    assert_eq!(&bytes[4..8], &[0x19, 0x00, 0x05, 0x00]);
    assert_eq!(
        RouteMessage::deserialize(&bytes[16..]),
        Ok(RouteMessage {
            family: 2,
            dst_len: 24,
            src_len: 0,
            tos: 0,
            table: 0,
            protocol: 0,
            scope: 253,
            rtm_type: 0,
            flags: 0x100,
        })
    );
}

#[test]
fn a_route_comes_back_from_its_request() {
    let (proto, flags) = RtCmd::Replace.verb();
    let route = Route {
        oif_index: 4,
        dst: Some(v4([10, 1, 0, 0], 16)),
        src: Some(IpAddr::V4([10, 1, 0, 9])),
        gw: Some(IpAddr::V4([10, 1, 0, 1])),
        scope: 253,
        ..Default::default()
    };
    let mut req = build_route_request(&route, proto, flags).unwrap();
    let got = route_deserialize(&req.serialize()[16..]).unwrap();
    assert_eq!(got.dst, route.dst);
    assert_eq!(got.src, route.src);
    assert_eq!(got.gw, route.gw);
    assert_eq!(got.oif_index, 4);
    assert_eq!(got.family, 2);
    assert_eq!(got.scope, 253);
    assert_eq!(got.table, consts::RT_TABLE_MAIN);
    assert_eq!(got.protocol, consts::RTPROT_BOOT);
    assert_eq!(got.rtm_type, consts::RTN_UNICAST);

    let six = IpAddr::V6([0x20, 0x01, 0x0d, 0xb8, 0, 0, 0, 0, 0, 0, 0, 0, 0, 0, 0, 0]);
    let gw = IpAddr::V6([0xfe, 0x80, 0, 0, 0, 0, 0, 0, 0, 0, 0, 0, 0, 0, 0, 1]);
    let route = Route {
        oif_index: 2,
        dst: Some(IpNet::new(six, 32).unwrap()),
        gw: Some(gw),
        ..Default::default()
    };
    let mut req = build_route_request(&route, proto, flags).unwrap();
    let got = route_deserialize(&req.serialize()[16..]).unwrap();
    assert_eq!(got.dst, route.dst);
    assert_eq!(got.gw, Some(gw));
    assert_eq!(got.src, None);
    assert_eq!(got.family, 10);
}

#[test]
fn addresses_of_two_families_are_a_family_mismatch() {
    let (proto, flags) = RtCmd::Add.verb();
    let six = IpAddr::V6([0; 16]);
    let mut route = sample();
    route.gw = Some(six);
    assert_eq!(
        build_route_request(&route, proto, flags).err(),
        Some(NetlinkError::FamilyMismatch)
    );
    let mut route = sample();
    route.src = Some(six);
    assert_eq!(
        build_route_request(&route, proto, flags).err(),
        Some(NetlinkError::FamilyMismatch)
    );
    let route = Route {
        src: Some(IpAddr::V4([10, 0, 0, 1])),
        gw: Some(six),
        ..Default::default()
    };
    assert_eq!(
        build_route_request(&route, proto, flags).err(),
        Some(NetlinkError::FamilyMismatch)
    );
    let route = Route {
        dst: Some(IpNet {
            addr: IpAddr::V4([10, 0, 0, 0]),
            prefix_len: 40,
        }),
        gw: Some(six),
        ..Default::default()
    };
    assert_eq!(
        build_route_request(&route, proto, flags).err(),
        Some(NetlinkError::InvalidArgument)
    );
    let only_gw = Route {
        gw: Some(six),
        ..Default::default()
    };
    let mut req = build_route_request(&only_gw, proto, flags).unwrap();
    assert_eq!(
        RouteMessage::deserialize(&req.serialize()[16..])
            .unwrap()
            .family,
        10
    );
}

#[test]
fn the_outgoing_link_is_left_out_only_of_a_question_that_names_none() {
    let types = |route: &Route, proto: u16| -> Vec<u16> {
        let mut req = build_route_request(route, proto, consts::NLM_F_ACK).unwrap();
        NetlinkRouteAttr::from(&req.serialize()[28..])
            .unwrap()
            .iter()
            .map(|a| a.rt_attr.rta_type)
            .collect()
    };
    let unnamed = Route::default();
    assert_eq!(types(&unnamed, consts::RTM_NEWROUTE), vec![consts::RTA_OIF]);
    assert_eq!(types(&unnamed, consts::RTM_GETROUTE), Vec::<u16>::new());
    let mut named = Route::default();
    named.oif_index = 3;
    assert_eq!(types(&named, consts::RTM_GETROUTE), vec![consts::RTA_OIF]);
}

#[test]
fn the_attributes_of_a_route_frame_fill_the_model() {
    let header = RouteMessage {
        family: 2,
        dst_len: 24,
        src_len: 0,
        tos: 7,
        table: 254,
        protocol: 4,
        scope: 253,
        rtm_type: 1,
        flags: 0x200,
    };
    let mut body = header.serialize();
    body.extend(NetlinkRouteAttr::new(consts::RTA_DST, vec![192, 168, 0, 0]).serialize());
    body.extend(NetlinkRouteAttr::new(consts::RTA_IIF, 5i32.to_le_bytes().to_vec()).serialize());
    body.extend(NetlinkRouteAttr::new(consts::RTA_OIF, 6i32.to_le_bytes().to_vec()).serialize());
    body.extend(NetlinkRouteAttr::new(15, 254u32.to_le_bytes().to_vec()).serialize());
    let got = route_deserialize(&body).unwrap();
    assert_eq!(
        got,
        Route {
            oif_index: 6,
            iif_index: 5,
            family: 2,
            dst: Some(v4([192, 168, 0, 0], 24)),
            src: None,
            gw: None,
            tos: 7,
            table: 254,
            protocol: 4,
            scope: 253,
            rtm_type: 1,
            flags: 0,
        }
    );
}

#[test]
fn what_does_not_read_as_a_route_says_why() {
    assert_eq!(
        route_deserialize(&[0; 11]),
        Err(NetlinkError::MalformedMessage)
    );
    let mut body = RouteMessage::new_rt_msg().serialize();
    body.extend(NetlinkRouteAttr::new(consts::RTA_GATEWAY, vec![1, 2, 3, 4, 5, 6, 7]).serialize());
    assert_eq!(route_deserialize(&body), Err(NetlinkError::InvalidArgument));
    let mut body = RouteMessage::new_rt_msg().serialize();
    body.extend(NetlinkRouteAttr::new(consts::RTA_OIF, vec![1, 2]).serialize());
    assert_eq!(
        route_deserialize(&body),
        Err(NetlinkError::MalformedMessage)
    );
    let mut header = RouteMessage::new_rt_msg();
    header.dst_len = 33;
    let mut body = header.serialize();
    body.extend(NetlinkRouteAttr::new(consts::RTA_DST, vec![10, 0, 0, 0]).serialize());
    assert_eq!(route_deserialize(&body), Err(NetlinkError::InvalidArgument));
    let mut body = RouteMessage::new_rt_msg().serialize();
    body.extend_from_slice(&[0x03, 0x00, 0x01, 0x00]);
    assert_eq!(
        route_deserialize(&body),
        Err(NetlinkError::MalformedMessage)
    );
}

#[test]
fn the_question_for_a_route_names_the_whole_address() {
    let mut req = build_route_get_request(&IpAddr::V4([192, 168, 0, 0]));
    assert_eq!(
        req.serialize(),
        vec![
            0x24, 0x00, 0x00, 0x00, 0x1a, 0x00, 0x05, 0x00, 0x00, 0x00, 0x00, 0x00, 0x00, 0x00,
            0x00, 0x00, 0x02, 0x20, 0x00, 0x00, 0x00, 0x00, 0x00, 0x00, 0x00, 0x00, 0x00, 0x00,
            0x08, 0x00, 0x01, 0x00, 0xc0, 0xa8, 0x00, 0x00
        ]
    );
    let mut req = build_route_get_request(&IpAddr::V6([0; 16]));
    let bytes = req.serialize();
    assert_eq!(bytes.len(), 16 + 12 + 20);
    assert_eq!(&bytes[16..18], &[10, 128]);
}

#[test]
fn the_reply_to_a_question_for_a_route() {
    let (proto, flags) = RtCmd::Add.verb();
    let mut req = build_route_request(&sample(), proto, flags).unwrap();
    let body = req.serialize()[16..].to_vec();
    let found = route_from_reply(Ok(vec![body.clone()])).unwrap();
    assert_eq!(found.len(), 1);
    assert_eq!(found[0].oif_index, 1);
    assert_eq!(found[0].dst, Some(v4([192, 168, 0, 0], 24)));
    assert_eq!(route_from_reply(Ok(vec![])), Err(NetlinkError::NotFound));
    assert_eq!(
        route_from_reply(Ok(vec![body.clone(), body])),
        Err(NetlinkError::Ambiguous)
    );
    assert_eq!(
        route_from_reply(Ok(vec![vec![0; 4]])),
        Err(NetlinkError::MalformedMessage)
    );
    let missing = NetlinkError::KernelError {
        errno: 2,
        message: "No such file or directory".to_string(),
        tail: vec![],
    };
    assert_eq!(route_from_reply(Err(missing)), Err(NetlinkError::NotFound));
    let unreachable = NetlinkError::KernelError {
        errno: 101,
        message: "Network is unreachable".to_string(),
        tail: vec![],
    };
    assert_eq!(
        route_from_reply(Err(unreachable.clone())),
        Err(unreachable)
    );
    assert_eq!(
        route_from_reply(Err(NetlinkError::UnexpectedPeer { port: 5 })),
        Err(NetlinkError::UnexpectedPeer { port: 5 })
    );
}

#[test]
fn each_route_verb_has_its_type_and_flags() {
    assert_eq!(RtCmd::Add.verb(), (24, 0x604));
    assert_eq!(RtCmd::Append.verb(), (24, 0xc04));
    assert_eq!(RtCmd::Replace.verb(), (24, 0x504));
    assert_eq!(RtCmd::Del.verb(), (25, 0x004));
}
