use netlink::link::{link_deserialize, Kind, Link};

/// A link frame's body as the kernel sent it for a bridge named docker0,
/// in hexadecimal.
const DOCKER0_DUMP: [&str; 44] = [
    "000001000400000003100000000000000c000300646f636b6572300008000d000000000005001000",
    "02000000050011000000000008000400dc050000080032004400000008003300ffff000008001b00",
    "0000000008001e000000000008001f000100000008002800ffff0000080029000000010008002000",
    "0100000005002100000000000c0006006e6f717565756500080023000100000008002f0000000000",
    "0800300001000000050027000000000024000e000000000000000000000000000000000000000000",
    "0000000000000000000000000a00010002423b14a79800000a000200ffffffffffff0000c4001700",
    "00000000000000000000000000000000000000000000000000000000000000000000000000000000",
    "00000000000000000000000000000000000000000000000000000000000000000000000000000000",
    "00000000000000000000000000000000000000000000000000000000000000000000000000000000",
    "00000000000000000000000000000000000000000000000000000000000000000000000000000000",
    "00000000000000000000000000000000000000000000000000000000000000006400070000000000",
    "00000000000000000000000000000000000000000000000000000000000000000000000000000000",
    "00000000000000000000000000000000000000000000000000000000000000000000000000000000",
    "0000000000000000000000000c002b000500020000000000ac0112000b0001006272696467650000",
    "9c0102000c00100000000000000000000c00110000000000000000000c0012000000000000000000",
    "0c001300711600000000000008000100dc05000008000200c800000008000300d007000008000400",
    "3075000008000500000000000600060000800000050007000000000006000900000000000c000b00",
    "800002423b14a7980c000a00800002423b14a79806000c000000000008000d000000000005000e00",
    "0000000005000f00000000000a0014000180c200000000000c002e00000000000300000006000800",
    "810000000600270001000000050029000000000005002d0000000000050016000100000005001700",
    "010000000500180000000000050019000000000005002a000000000008001a001000000008001b00",
    "0010000008001c000200000008001d000200000005002b000200000005002c00010000000c001e00",
    "64000000000000000c001f0090650000000000000c0020009c630000000000000c002100d4300000",
    "000000000c002200e8030000000000000c002300340c000000000000050024000000000005002500",
    "0000000005002600000000000c031a00880002008400010001000000000000000000000001000000",
    "01000000010000000100000002000000000000000000000000000000000000000000000000000000",
    "00000000000000000000000000000000000000000100000000000000000000000000000000000000",
    "000000000000000010270000e80300000000000000000000000000000000000080020a0008000100",
    "0000000014000500ffff0000c2c577000c890000e8030000e40002000100000040000000dc050000",
    "00000000010000000100000001000000ffffffffa00f0000e803000002000000803a090080510100",
    "0300000058020000100000000000000001000000010000000100000060ea00000000000000000000",
    "0000000000000000000000000000000001000000000000000000000010270000e803000001000000",
    "00000000000000000100000000000000000000000100000000000000000000000000000000000000",
    "80ee3600000000000000000001000000000000000000000000000000000000000000000000040000",
    "00000000ffff0000ffffffff2c010300250000000000000000000000000000000000000000000000",
    "00000000000000000000000000000000040000000000000030010000000000000000000000000000",
    "00000000000000000000000000000000000000000000000000000000000000000000000000000000",
    "00000000000000000400000000000000000000000000000000000000000000000000000000000000",
    "00000000000000000000000000000000000000000000000000000000000000000000000000000000",
    "00000000000000000400000000000000000000000000000000000000000000000000000000000000",
    "30010000000000000000000000000000000000000000000000000000000000000000000000000000",
    "00000000000000000000000000000000000000000000000000000000000000003400060006000000",
    "00000000000000000000000000000000000000000000000000000000000000000000000000000000",
    "0000000014000700000000000000000000000000000000000500080000000000",
];

fn dump_bytes() -> Vec<u8> {
    let text: String = DOCKER0_DUMP.concat();
    let digits: Vec<u8> = text
        .chars()
        .map(|c| c.to_digit(16).unwrap() as u8)
        .collect();
    digits.chunks(2).map(|pair| pair[0] * 16 + pair[1]).collect()
}

#[test]
fn test_link_deserialize() {
    let dump = dump_bytes();
    assert_eq!(dump.len(), 1752);
    let link = link_deserialize(&dump).unwrap();
    assert_eq!(link.link_type(), "bridge");

    let attrs = link.attrs();
    assert_eq!(attrs.index, 4);
    assert_eq!(attrs.name, "docker0");
    assert_eq!(attrs.mtu, 1500);
    assert_eq!(attrs.raw_flags, 0x1003);

    match link.kind() {
        Kind::Bridge {
            attrs: _,
            hello_time,
            ageing_time,
            multicast_snooping,
            vlan_filtering,
        } => {
            assert_eq!(hello_time.unwrap(), 200);
            assert_eq!(ageing_time.unwrap(), 30000);
            assert_eq!(multicast_snooping.unwrap(), true);
            assert_eq!(vlan_filtering.unwrap(), false);
        }
        _ => panic!("Expected bridge link"),
    }
}
