use netlink::error::NetlinkError;
use netlink::ip::{vec_to_addr, IpAddr, IpNet};

#[test]
fn four_octets_are_ipv4_and_sixteen_are_ipv6() {
    assert_eq!(
        vec_to_addr(vec![127, 0, 0, 2]),
        Ok(IpAddr::V4([127, 0, 0, 2]))
    );
    let six = vec![0x20, 0x01, 0x0d, 0xb8, 0, 0, 0, 0, 0, 0, 0, 0, 0, 0, 0, 1];
    match vec_to_addr(six.clone()) {
        Ok(IpAddr::V6(a)) => assert_eq!(a.to_vec(), six),
        other => panic!("unexpected {:?}", other),
    }
    assert_eq!(IpAddr::V4([10, 0, 0, 1]).octets(), vec![10, 0, 0, 1]);
    assert_eq!(IpAddr::V4([10, 0, 0, 1]).family(), 2);
    assert_eq!(IpAddr::V6([0; 16]).family(), 10);
    assert_eq!(IpAddr::V6([0; 16]).octets(), vec![0; 16]);
}

#[test]
fn an_address_of_seven_octets_is_an_invalid_argument() {
    assert_eq!(
        vec_to_addr(vec![1, 2, 3, 4, 5, 6, 7]),
        Err(NetlinkError::InvalidArgument)
    );
    assert_eq!(vec_to_addr(vec![]), Err(NetlinkError::InvalidArgument));
    assert_eq!(vec_to_addr(vec![0; 17]), Err(NetlinkError::InvalidArgument));
}

#[test]
fn a_prefix_is_no_longer_than_its_address() {
    let v4 = IpAddr::V4([192, 168, 0, 0]);
    let net = IpNet::new(v4, 24).unwrap();
    assert_eq!(net.addr(), v4);
    assert_eq!(net.prefix_len(), 24);
    assert!(net.is_valid());
    assert!(IpNet::new(v4, 32).is_ok());
    assert_eq!(IpNet::new(v4, 33), Err(NetlinkError::InvalidArgument));
    let v6 = IpAddr::V6([0; 16]);
    assert!(IpNet::new(v6, 128).is_ok());
    assert_eq!(IpNet::new(v6, 129), Err(NetlinkError::InvalidArgument));
    assert_eq!(
        IpNet::default(),
        IpNet {
            addr: IpAddr::V4([0, 0, 0, 0]),
            prefix_len: 0
        }
    );
    assert!(!IpNet {
        addr: v4,
        prefix_len: 40
    }
    .is_valid());
}

#[test]
fn the_broadcast_address_has_every_host_bit_set() {
    let net = |a: [u8; 4], p: u8| IpNet::new(IpAddr::V4(a), p).unwrap();
    assert_eq!(
        net([10, 244, 0, 1], 24).broadcast(),
        Some(IpAddr::V4([10, 244, 0, 255]))
    );
    assert_eq!(
        net([127, 0, 0, 2], 24).broadcast(),
        Some(IpAddr::V4([127, 0, 0, 255]))
    );
    assert_eq!(
        net([10, 1, 2, 3], 32).broadcast(),
        Some(IpAddr::V4([10, 1, 2, 3]))
    );
    assert_eq!(
        net([10, 1, 2, 3], 0).broadcast(),
        Some(IpAddr::V4([255, 255, 255, 255]))
    );
    assert_eq!(
        net([172, 16, 5, 9], 12).broadcast(),
        Some(IpAddr::V4([172, 31, 255, 255]))
    );
    assert_eq!(
        net([192, 168, 1, 130], 25).broadcast(),
        Some(IpAddr::V4([192, 168, 1, 255]))
    );
    assert_eq!(IpNet::new(IpAddr::V6([0; 16]), 64).unwrap().broadcast(), None);
    assert_eq!(
        IpNet {
            addr: IpAddr::V4([10, 0, 0, 0]),
            prefix_len: 33
        }
        .broadcast(),
        None
    );
}

#[test]
fn addresses_stand_for_each_other_across_families() {
    let v4 = IpAddr::V4([10, 0, 0, 1]);
    assert_eq!(
        v4.to_ipv6_mapped(),
        vec![0, 0, 0, 0, 0, 0, 0, 0, 0, 0, 0xff, 0xff, 10, 0, 0, 1]
    );
    assert_eq!(v4.to_ipv4(), Some(vec![10, 0, 0, 1]));
    let mapped = IpAddr::V6([0, 0, 0, 0, 0, 0, 0, 0, 0, 0, 0xff, 0xff, 10, 0, 0, 1]);
    assert_eq!(mapped.to_ipv4(), Some(vec![10, 0, 0, 1]));
    assert_eq!(mapped.to_ipv6_mapped(), mapped.octets());
    let compatible = IpAddr::V6([0, 0, 0, 0, 0, 0, 0, 0, 0, 0, 0, 0, 10, 0, 0, 1]);
    assert_eq!(compatible.to_ipv4(), Some(vec![10, 0, 0, 1]));
    let global = IpAddr::V6([0x20, 0x01, 0x0d, 0xb8, 0, 0, 0, 0, 0, 0, 0, 0, 0, 0, 0, 1]);
    assert_eq!(global.to_ipv4(), None);
    let half = IpAddr::V6([0, 0, 0, 0, 0, 0, 0, 0, 0, 0, 0xff, 0x00, 10, 0, 0, 1]);
    assert_eq!(half.to_ipv4(), None);
}
