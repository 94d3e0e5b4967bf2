use netlink::consts;
use netlink::error::NetlinkError;
use netlink::handle::{Exchange, SocketHandle};
use netlink::message::{IfInfoMessage, NetlinkMessageHeader};
use netlink::request::{NetlinkRequest, NetlinkRequestData};

fn frame(msg_type: u16, seq: u32, pid: u32, data: &[u8]) -> Vec<u8> {
    let header = NetlinkMessageHeader {
        nlmsg_len: 16 + data.len() as u32,
        nlmsg_type: msg_type,
        nlmsg_flags: 0,
        nlmsg_seq: seq,
        nlmsg_pid: pid,
    };
    let mut bytes = header.serialize();
    bytes.extend_from_slice(data);
    while bytes.len() % 4 != 0 {
        bytes.push(0);
    }
    bytes
}

fn ack(seq: u32, pid: u32) -> Vec<u8> {
    let mut data = vec![0, 0, 0, 0];
    data.extend_from_slice(&[0x20, 0, 0, 0, 0x10, 0, 5, 6, 1, 0, 0, 0, 0, 0, 0, 0]);
    frame(consts::NLMSG_ERROR, seq, pid, &data)
}

fn waiting(seq: u32, pid: u32) -> Exchange {
    Exchange {
        seq,
        pid,
        payloads: vec![],
        done: false,
    }
}

#[test]
fn the_sequence_number_grows_with_every_request() {
    let mut handle = SocketHandle::new();
    assert_eq!(handle.seq, 0);
    let mut first = NetlinkRequest::new(consts::RTM_GETLINK, consts::NLM_F_ACK);
    first.add_data(NetlinkRequestData::Info(IfInfoMessage::new(0)));
    let (bytes, exchange) = handle.begin(&mut first, 4711);
    assert_eq!(handle.seq, 1);
    assert_eq!(exchange, waiting(1, 4711));
    assert_eq!(first.header.nlmsg_seq, 1);
    assert_eq!(first.header.nlmsg_len, 32);
    assert_eq!(
        NetlinkMessageHeader::deserialize(&bytes).unwrap(),
        NetlinkMessageHeader {
            nlmsg_len: 32,
            nlmsg_type: 18,
            nlmsg_flags: 5,
            nlmsg_seq: 1,
            nlmsg_pid: 0,
        }
    );
    let mut second = NetlinkRequest::new(consts::RTM_GETLINK, consts::NLM_F_ACK);
    let (bytes, exchange) = handle.begin(&mut second, 4711);
    assert_eq!(handle.seq, 2);
    assert_eq!(exchange.seq, 2);
    assert_eq!(&bytes[8..12], &[2, 0, 0, 0]);
}

#[test]
fn an_acknowledgement_completes_the_exchange() {
    let mut exchange = waiting(1, 7);
    assert_eq!(exchange.receive(&ack(1, 7), 0), Ok(true));
    assert!(exchange.done);
    assert_eq!(exchange.finish(), Vec::<Vec<u8>>::new());
}

#[test]
fn bodies_are_gathered_until_the_dump_is_done() {
    let mut exchange = waiting(3, 7);
    let mut first = frame(consts::RTM_NEWADDR, 3, 7, &[1, 2, 3, 4, 5, 6, 7, 8]);
    first.extend(frame(consts::RTM_NEWADDR, 3, 7, &[9]));
    assert_eq!(exchange.receive(&first, 0), Ok(false));
    assert!(!exchange.done);
    assert_eq!(exchange.payloads.len(), 2);
    let mut second = frame(consts::RTM_NEWADDR, 3, 7, &[10, 11]);
    second.extend(frame(consts::NLMSG_DONE, 3, 7, &[0, 0, 0, 0]));
    second.extend(frame(consts::RTM_NEWADDR, 3, 7, &[12]));
    assert_eq!(exchange.receive(&second, 0), Ok(true));
    assert_eq!(
        exchange.finish(),
        vec![vec![1, 2, 3, 4, 5, 6, 7, 8], vec![9], vec![10, 11]]
    );
}

#[test]
fn a_reply_and_its_acknowledgement_in_one_datagram() {
    let mut exchange = waiting(9, 100);
    let mut buf = frame(consts::RTM_NEWLINK, 9, 100, &[0; 16]);
    buf.extend(ack(9, 100));
    assert_eq!(exchange.receive(&buf, 0), Ok(true));
    assert_eq!(exchange.finish(), vec![vec![0; 16]]);
}

#[test]
fn a_reply_with_another_sequence_number_is_a_sequence_mismatch() {
    let mut exchange = waiting(5, 7);
    assert_eq!(
        exchange.receive(&frame(consts::RTM_NEWLINK, 4, 7, &[1, 2, 3, 4]), 0),
        Err(NetlinkError::SequenceMismatch {
            expected: 5,
            found: 4
        })
    );
    assert_eq!(exchange.seq, 5);
    assert!(!exchange.done);
    let mut handle = SocketHandle { seq: 5 };
    let mut next = NetlinkRequest::new(consts::RTM_GETLINK, consts::NLM_F_ACK);
    let (_, following) = handle.begin(&mut next, 7);
    assert_eq!(following.seq, 6);

    let mut other_port = waiting(5, 7);
    assert_eq!(
        other_port.receive(&frame(consts::RTM_NEWLINK, 4, 8, &[1]), 0),
        Err(NetlinkError::SequenceMismatch {
            expected: 5,
            found: 4
        })
    );
}

#[test]
fn a_reply_from_another_peer_than_the_kernel_is_refused() {
    let mut exchange = waiting(1, 7);
    assert_eq!(
        exchange.receive(&ack(1, 7), 1234),
        Err(NetlinkError::UnexpectedPeer { port: 1234 })
    );
    assert!(!exchange.done);
    assert_eq!(
        exchange.receive(&[0xff; 3], 1),
        Err(NetlinkError::UnexpectedPeer { port: 1 })
    );
}

#[test]
fn frames_for_another_port_are_passed_over() {
    let mut exchange = waiting(1, 7);
    let mut buf = frame(consts::RTM_NEWLINK, 1, 8, &[1, 1, 1, 1]);
    buf.extend(frame(consts::NLMSG_ERROR, 1, 8, &[0xff, 0xff, 0xff, 0xff]));
    buf.extend(frame(consts::NLMSG_DONE, 1, 8, &[]));
    buf.extend(frame(consts::RTM_NEWLINK, 1, 7, &[2, 2, 2, 2]));
    assert_eq!(exchange.receive(&buf, 0), Ok(false));
    assert_eq!(exchange.payloads, vec![vec![2, 2, 2, 2]]);
}

#[test]
fn the_kernel_refuses_with_its_error_number() {
    let mut exchange = waiting(2, 7);
    let mut data = (-17i32).to_le_bytes().to_vec();
    data.extend_from_slice(&[0xaa, 0xbb, 0xcc, 0xdd]);
    match exchange.receive(&frame(consts::NLMSG_ERROR, 2, 7, &data), 0) {
        Err(NetlinkError::KernelError {
            errno,
            message,
            tail,
        }) => {
            assert_eq!(errno, 17);
            assert_eq!(tail, vec![0xaa, 0xbb, 0xcc, 0xdd]);
            assert!(!message.is_empty());
        }
        other => panic!("unexpected {:?}", other),
    }
    let mut exchange = waiting(2, 7);
    let least = i32::MIN.to_le_bytes();
    match exchange.receive(&frame(consts::NLMSG_DONE, 2, 7, &least), 0) {
        Err(NetlinkError::KernelError { errno, tail, .. }) => {
            assert_eq!(errno, i32::MAX);
            assert_eq!(tail, Vec::<u8>::new());
        }
        other => panic!("unexpected {:?}", other),
    }
    let mut exchange = waiting(2, 7);
    let mut buf = frame(consts::RTM_NEWLINK, 2, 7, &[1]);
    buf.extend(frame(consts::NLMSG_ERROR, 2, 7, &2i32.to_le_bytes()));
    match exchange.receive(&buf, 0) {
        Err(NetlinkError::KernelError { errno, .. }) => assert_eq!(errno, -2),
        other => panic!("unexpected {:?}", other),
    }
}

#[test]
fn what_is_cut_short_is_malformed() {
    let mut exchange = waiting(2, 7);
    assert_eq!(
        exchange.receive(&frame(consts::NLMSG_ERROR, 2, 7, &[0, 0, 0]), 0),
        Err(NetlinkError::MalformedMessage)
    );
    let mut cut = frame(consts::RTM_NEWLINK, 2, 7, &[1, 2, 3, 4]);
    cut[0] = 40;
    assert_eq!(
        exchange.receive(&cut, 0),
        Err(NetlinkError::MalformedMessage)
    );
    assert_eq!(exchange.receive(&[], 0), Ok(false));
    assert_eq!(exchange.receive(&[0; 15], 0), Ok(false));
}
