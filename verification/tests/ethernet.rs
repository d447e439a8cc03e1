use netview::ethernet::{Address, EtherType, Frame};
use netview::Error;

const DST_MAC: [u8; 6] = [0x01, 0x02, 0x03, 0x04, 0x05, 0x06];
const SRC_MAC: [u8; 6] = [0x11, 0x12, 0x13, 0x14, 0x15, 0x16];

#[test]
fn ethernet_test_protocol() {
    let payload_bytes: [u8; 50] = [
        0xaa, 0x00, 0x00, 0x00, 0x00, 0x00, 0x00, 0x00, 0x00, 0x00, 0x00, 0x00, 0x00, 0x00,
        0x00, 0x00, 0x00, 0x00, 0x00, 0x00, 0x00, 0x00, 0x00, 0x00, 0x00, 0x00, 0x00, 0x00,
        0x00, 0x00, 0x00, 0x00, 0x00, 0x00, 0x00, 0x00, 0x00, 0x00, 0x00, 0x00, 0x00, 0x00,
        0x00, 0x00, 0x00, 0x00, 0x00, 0x00, 0x00, 0xff,
    ];

    let bytes = vec![0xa5u8; 64];
    let mut frame = Frame::new_unchecked(bytes);
    frame.set_dst_addr(Address(DST_MAC));
    frame.set_src_addr(Address(SRC_MAC));
    frame.set_ether_type(EtherType::ECTP);
    frame.payload_mut(&payload_bytes[..]);

    assert_eq!(frame.dst_addr(), Address(DST_MAC));
    assert_eq!(frame.src_addr(), Address(SRC_MAC));
    assert_eq!(frame.ether_type(), EtherType::ECTP);
    assert_eq!(frame.payload(), &payload_bytes[..]);
    assert_eq!(frame.as_bytes().len(), 64);
}

#[test]
fn ethernet_check_len_boundaries() {
    let frame = Frame::new_unchecked(vec![0u8; 13]);
    assert_eq!(frame.check_len(), Err(Error::Truncated));
    assert!(Frame::new_checked(vec![0u8; 13]).is_err());

    let frame = Frame::new_unchecked(vec![0u8; 14]);
    assert_eq!(frame.check_len(), Ok(()));
    assert!(Frame::new_checked(vec![0u8; 14]).is_ok());
}

#[test]
fn ether_type_catch_all() {
    assert_eq!(EtherType::from(0x1234), EtherType::Unsupported);
    assert_eq!(EtherType::from(0x0800), EtherType::IPv4);
    assert_eq!(EtherType::from(0x0806), EtherType::ARP);
    assert_eq!(EtherType::from(0x86DD), EtherType::IPv6);
    assert_eq!(EtherType::from(0x9000), EtherType::ECTP);

    let mut bytes = vec![0u8; 14];
    bytes[12] = 0x12;
    bytes[13] = 0x34;
    let frame = Frame::new_unchecked(bytes);
    assert_eq!(frame.ether_type(), EtherType::Unsupported);
}

#[test]
fn ether_type_wire_values() {
    assert_eq!(u16::from(EtherType::IPv4), 0x0800);
    assert_eq!(u16::from(EtherType::ARP), 0x0806);
    assert_eq!(u16::from(EtherType::IPv6), 0x86DD);
    assert_eq!(u16::from(EtherType::ECTP), 0x9000);
    assert_eq!(u16::from(EtherType::Unsupported), 0xFFFF);
}

#[test]
fn address_classification() {
    let broadcast = Address([0xFF; 6]);
    assert!(broadcast.is_broadcast());
    assert!(broadcast.is_multicast());
    assert!(!broadcast.is_unicast());

    let multicast = Address([0x01, 0x00, 0x5E, 0x00, 0x00, 0x01]);
    assert!(multicast.is_multicast());
    assert!(!multicast.is_broadcast());
    assert!(!multicast.is_unicast());

    let unicast = Address([0x10, 0x12, 0x13, 0x14, 0x15, 0x16]);
    assert!(!unicast.is_broadcast());
    assert!(!unicast.is_multicast());
    assert!(unicast.is_unicast());

    // the group bit is the least significant bit of the first byte
    assert!(Address(SRC_MAC).is_multicast());

    let local = Address([0x02, 0x00, 0x00, 0x00, 0x00, 0x01]);
    assert!(local.is_local());
    assert!(!Address([0x10, 0, 0, 0, 0, 0]).is_local());
}

#[test]
fn frame_lengths() {
    assert_eq!(Frame::header_len(), 14);
    assert_eq!(Frame::frame_len(50), 64);
}

#[test]
fn set_ether_type_leaves_neighbors() {
    let mut frame = Frame::new_unchecked(vec![0x77u8; 20]);
    frame.set_ether_type(EtherType::IPv4);
    let bytes = frame.into_inner();
    assert_eq!(bytes[11], 0x77);
    assert_eq!(bytes[12], 0x08);
    assert_eq!(bytes[13], 0x00);
    assert_eq!(bytes[14], 0x77);
}

#[test]
fn address_from_bytes_roundtrip() {
    let addr = Address::from_bytes(&DST_MAC[..]);
    assert_eq!(addr.as_bytes(), &DST_MAC[..]);
}
