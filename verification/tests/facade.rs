use netlink::addr::{AddrCmd, Address};
use netlink::cni::{Interface, Ip, Response};
use netlink::consts;
use netlink::error::NetlinkError;
use netlink::ip::{IpAddr, IpNet};
use netlink::link::{link_from_reply, Kind, Link, LinkAttrs};
use netlink::message::{NetlinkMessage, NetlinkMessageHeader};
use netlink::netlink::Netlink;
use netlink::route::{route_from_reply, Route, RtCmd};

fn reply(msg_type: u16, seq: u32, pid: u32, data: &[u8]) -> Vec<u8> {
    let header = NetlinkMessageHeader {
        nlmsg_len: 16 + data.len() as u32,
        nlmsg_type: msg_type,
        nlmsg_flags: 0,
        nlmsg_seq: seq,
        nlmsg_pid: pid,
    };
    let mut bytes = header.serialize();
    bytes.extend_from_slice(data);
    while bytes.len() % 4 != 0 {
        bytes.push(0);
    }
    bytes
}

fn header_of(bytes: &[u8]) -> NetlinkMessageHeader {
    NetlinkMessageHeader::deserialize(bytes).unwrap()
}

#[test]
fn test_new() {
    let nl = Netlink::new();
    assert_eq!(nl.sockets.len(), 1);
    assert_eq!(nl.sockets[&consts::NETLINK_ROUTE].seq, 0);
}

#[test]
fn every_verb_sends_its_type_and_flags_under_the_next_number() {
    let mut nl = Netlink::new();
    let mut attrs = LinkAttrs::new();
    attrs.name = "foo".to_string();
    attrs.index = 3;
    let link = Kind::Dummy(attrs.clone());
    let addr = Address {
        ip: IpNet::new(IpAddr::V4([127, 0, 0, 2]), 24).unwrap(),
        ..Default::default()
    };
    let route = Route {
        oif_index: 3,
        dst: Some(IpNet::new(IpAddr::V4([192, 168, 0, 0]), 24).unwrap()),
        ..Default::default()
    };
    let pid = 77;
    let mut sent: Vec<Vec<u8>> = Vec::new();
    sent.push(nl.link_add(&link, pid).unwrap().0);
    sent.push(nl.link_modify(&link, pid).unwrap().0);
    sent.push(nl.link_setup(&link, pid).0);
    sent.push(nl.link_del(&link, pid).0);
    sent.push(nl.link_get(&attrs, pid).unwrap().0);
    sent.push(nl.addr_handle(AddrCmd::Add, 3, &addr, pid).unwrap().0);
    sent.push(nl.addr_handle(AddrCmd::Change, 3, &addr, pid).unwrap().0);
    sent.push(nl.addr_handle(AddrCmd::Replace, 3, &addr, pid).unwrap().0);
    sent.push(nl.addr_handle(AddrCmd::Del, 3, &addr, pid).unwrap().0);
    sent.push(nl.addr_show(pid).0);
    sent.push(nl.route_handle(RtCmd::Add, &route, pid).unwrap().0);
    sent.push(nl.route_handle(RtCmd::Append, &route, pid).unwrap().0);
    sent.push(nl.route_handle(RtCmd::Replace, &route, pid).unwrap().0);
    sent.push(nl.route_handle(RtCmd::Del, &route, pid).unwrap().0);
    sent.push(nl.route_get(&IpAddr::V4([192, 168, 0, 0]), pid).0);
    let want: Vec<(u16, u16)> = vec![
        (16, 0x605),
        (16, 0x005),
        (16, 0x005),
        (17, 0x005),
        (18, 0x005),
        (20, 0x605),
        (20, 0x105),
        (20, 0x505),
        (21, 0x005),
        (22, 0x301),
        (24, 0x605),
        (24, 0xc05),
        (24, 0x505),
        (25, 0x005),
        (26, 0x005),
    ];
    for (i, bytes) in sent.iter().enumerate() {
        let header = header_of(bytes);
        assert_eq!((header.nlmsg_type, header.nlmsg_flags), want[i]);
        assert_eq!(header.nlmsg_seq, i as u32 + 1);
        assert_eq!(header.nlmsg_len as usize, bytes.len());
        assert_eq!(bytes.len() % 4, 0);
        assert_eq!(header.nlmsg_pid, 0);
    }
    assert_eq!(nl.sockets[&consts::NETLINK_ROUTE].seq, 15);
    assert_eq!(nl.sockets.len(), 1);
}

#[test]
fn a_request_that_cannot_be_built_takes_no_number() {
    let mut nl = Netlink::new();
    let mut attrs = LinkAttrs::new();
    attrs.name = "n".repeat(70000);
    assert_eq!(
        nl.link_add(&Kind::Dummy(attrs.clone()), 1).err(),
        Some(NetlinkError::MalformedMessage)
    );
    assert_eq!(
        nl.link_modify(&Kind::Dummy(attrs.clone()), 1).err(),
        Some(NetlinkError::MalformedMessage)
    );
    assert_eq!(
        nl.link_get(&attrs, 1).err(),
        Some(NetlinkError::MalformedMessage)
    );
    let route = Route {
        src: Some(IpAddr::V4([1, 1, 1, 1])),
        gw: Some(IpAddr::V6([0; 16])),
        ..Default::default()
    };
    assert_eq!(
        nl.route_handle(RtCmd::Add, &route, 1).err(),
        Some(NetlinkError::FamilyMismatch)
    );
    assert_eq!(nl.sockets[&consts::NETLINK_ROUTE].seq, 0);
    let (bytes, _) = nl.addr_show(1);
    assert_eq!(header_of(&bytes).nlmsg_seq, 1);
}

#[test]
fn a_counter_is_made_when_its_family_is_first_used() {
    let mut nl = Netlink::new();
    nl.sockets.clear();
    let (bytes, exchange) = nl.addr_show(5);
    assert_eq!(header_of(&bytes).nlmsg_seq, 1);
    assert_eq!(exchange.seq, 1);
    assert_eq!(nl.sockets.len(), 1);
    assert_eq!(nl.sockets[&consts::NETLINK_ROUTE].seq, 1);
}

#[test]
fn a_dummy_is_added_found_renamed_and_gone() {
    let mut nl = Netlink::new();
    let pid = 4242;
    let mut attrs = LinkAttrs::new();
    attrs.name = "foo".to_string();
    let dummy = Kind::Dummy(attrs.clone());

    let (request, mut exchange) = nl.link_add(&dummy, pid).unwrap();
    let ack = |seq: u32| reply(consts::NLMSG_ERROR, seq, pid, &[0; 20]);
    assert_eq!(exchange.receive(&ack(1), 0), Ok(true));
    assert_eq!(exchange.finish().len(), 0);

    let mut kernel_view = NetlinkMessage::from(&request).unwrap()[0].data.clone();
    kernel_view[4] = 9;
    let (_, mut exchange) = nl.link_get(&attrs, pid).unwrap();
    let mut answer = reply(consts::RTM_NEWLINK, 2, pid, &kernel_view);
    answer.extend(ack(2));
    assert_eq!(exchange.receive(&answer, 0), Ok(true));
    let mut link = link_from_reply(Ok(exchange.finish())).unwrap();
    assert_eq!(link.attrs().name, "foo");
    assert_eq!(link.link_type(), "dummy");
    assert!(link.attrs().index > 0);

    match &mut link {
        Kind::Dummy(a) => a.name = "bar".to_string(),
        _ => panic!("wrong link type"),
    }
    let (request, mut exchange) = nl.link_modify(&link, pid).unwrap();
    assert_eq!(exchange.receive(&ack(3), 0), Ok(true));
    let renamed = link_from_reply(Ok(vec![NetlinkMessage::from(&request).unwrap()[0]
        .data
        .clone()]))
    .unwrap();
    assert_eq!(renamed.attrs().name, "bar");
    assert_eq!(renamed.attrs().index, 9);

    let (_, mut exchange) = nl.link_del(&link, pid);
    assert_eq!(exchange.receive(&ack(4), 0), Ok(true));

    let (_, mut exchange) = nl.link_get(link.attrs(), pid).unwrap();
    let mut gone = (-19i32).to_le_bytes().to_vec();
    gone.extend_from_slice(&[0; 16]);
    let outcome = exchange.receive(&reply(consts::NLMSG_ERROR, 5, pid, &gone), 0);
    assert!(matches!(
        outcome,
        Err(NetlinkError::KernelError { errno: 19, .. })
    ));
    assert_eq!(
        link_from_reply(outcome.map(|_| vec![])).err(),
        Some(NetlinkError::NotFound)
    );
}

#[test]
fn a_route_is_added_found_and_gone() {
    let mut nl = Netlink::new();
    let pid = 1;
    let route = Route {
        oif_index: 1,
        dst: Some(IpNet::new(IpAddr::V4([192, 168, 0, 0]), 24).unwrap()),
        src: Some(IpAddr::V4([127, 0, 0, 2])),
        ..Default::default()
    };
    let (request, mut exchange) = nl.route_handle(RtCmd::Add, &route, pid).unwrap();
    assert_eq!(
        exchange.receive(&reply(consts::NLMSG_ERROR, 1, pid, &[0; 20]), 0),
        Ok(true)
    );
    let stored = NetlinkMessage::from(&request).unwrap()[0].data.clone();

    let (_, mut exchange) = nl.route_get(&IpAddr::V4([192, 168, 0, 0]), pid);
    let mut answer = reply(consts::RTM_NEWROUTE, 2, pid, &stored);
    answer.extend(reply(consts::NLMSG_ERROR, 2, pid, &[0; 20]));
    assert_eq!(exchange.receive(&answer, 0), Ok(true));
    let res = route_from_reply(Ok(exchange.finish())).unwrap();
    assert_eq!(res.len(), 1);
    assert_eq!(res[0].oif_index, 1);
    assert_eq!(res[0].dst, route.dst);

    let (_, mut exchange) = nl.route_get(&IpAddr::V4([192, 168, 0, 0]), pid);
    let missing = (-2i32).to_le_bytes();
    let outcome = exchange.receive(&reply(consts::NLMSG_ERROR, 3, pid, &missing), 0);
    assert_eq!(
        route_from_reply(outcome.map(|_| vec![])),
        Err(NetlinkError::NotFound)
    );
}

#[test]
fn a_plugin_s_result_holds_what_it_was_given() {
    let interface = Interface::new("eth0", "02:42:ac:11:00:02", "/var/run/netns/x");
    assert_eq!(interface.name, "eth0");
    assert_eq!(interface.mac, "02:42:ac:11:00:02");
    assert_eq!(interface.sandbox, "/var/run/netns/x");
    let ip = Ip::new("10.244.0.5/24", "10.244.0.1");
    assert_eq!(ip.version, "4");
    assert_eq!(ip.address, "10.244.0.5/24");
    assert_eq!(ip.gateway, "10.244.0.1");
    assert_eq!(ip.interface, 0);
    let res = Response::new(vec![interface], vec![ip]);
    assert_eq!(res.cni_version, "0.3.0");
    assert_eq!(res.interfaces.len(), 1);
    assert_eq!(res.interfaces[0].name, "eth0");
    assert_eq!(res.ips.len(), 1);
    assert_eq!(res.ips[0].gateway, "10.244.0.1");
}
