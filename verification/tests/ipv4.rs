use netview::ethernet::{Address as MacAddress, EtherType, Frame};
use netview::ip::ipv4::{Address, Packet};
use netview::ip::{Protocol, Version};
use netview::Error;

const DST_MAC: [u8; 6] = [0x01, 0x02, 0x03, 0x04, 0x05, 0x06];
const SRC_MAC: [u8; 6] = [0x11, 0x12, 0x13, 0x14, 0x15, 0x16];

#[test]
fn ipv4_test_protocol() {
    let mut frame = Frame::new_unchecked(vec![0u8; 64]);
    frame.set_dst_addr(MacAddress(DST_MAC));
    frame.set_src_addr(MacAddress(SRC_MAC));
    frame.set_ether_type(EtherType::IPv4);

    let mut packet = Packet::new_unchecked(vec![0u8; 50]);
    packet.set_version(4);
    packet.set_header_len(20);
    packet.clear_flags();
    packet.set_dscp(0);
    packet.set_ecn(0);
    packet.set_total_len(30);
    packet.set_ident(0x0);
    packet.set_more_frags(false);
    packet.set_dont_frag(false);
    packet.set_frag_offset(0);
    packet.set_hop_limit(0x20);
    packet.set_protocol(Protocol::Test);
    packet.set_src_addr(Address([171, 24, 16, 35]));
    packet.set_dst_addr(Address([10, 10, 10, 1]));
    packet.fill_checksum();
    frame.payload_mut(packet.as_bytes());

    assert_eq!(packet.check_len(), Ok(()));
    assert_eq!(packet.version(), 4);
    assert_eq!(packet.header_len(), 20);
    assert!(!packet.dont_frag());
    assert!(!packet.more_frags());
    assert_eq!(packet.frag_offset(), 0);
    assert_eq!(packet.dscp(), 0);
    assert_eq!(packet.ecn(), 0);
    assert_eq!(packet.total_len(), 30);
    assert_eq!(packet.ident(), 0);
    assert_eq!(packet.hop_limit(), 0x20);
    // the private Test placeholder 0xFD decodes as Unsupported
    assert_eq!(packet.protocol(), Protocol::Unsupported);
    assert_eq!(packet.src_addr(), Address([171, 24, 16, 35]));
    assert_eq!(packet.dst_addr(), Address([10, 10, 10, 1]));
    assert!(packet.verify_checksum());
    assert_eq!(frame.payload(), packet.as_bytes());
}

#[test]
fn ipv4_check_len_boundaries() {
    // a 24-byte buffer whose header claims 24 bytes but whose declared
    // total length is only 20: self-contradictory, so Malformed
    let mut packet = Packet::new_unchecked(vec![0u8; 24]);
    packet.set_version(4);
    packet.set_header_len(24);
    packet.set_total_len(20);
    assert_eq!(packet.check_len(), Err(Error::Malformed));

    // header 20, declared total 30, but only 25 bytes present: Truncated
    let mut packet = Packet::new_unchecked(vec![0u8; 25]);
    packet.set_version(4);
    packet.set_header_len(20);
    packet.set_total_len(30);
    assert_eq!(packet.check_len(), Err(Error::Truncated));

    // shorter than any IPv4 header at all: Truncated
    let packet = Packet::new_unchecked(vec![0u8; 19]);
    assert_eq!(packet.check_len(), Err(Error::Truncated));

    // consistent lengths pass
    let mut packet = Packet::new_unchecked(vec![0u8; 30]);
    packet.set_version(4);
    packet.set_header_len(20);
    packet.set_total_len(30);
    assert_eq!(packet.check_len(), Ok(()));
    assert!(Packet::new_checked(packet.into_inner()).is_ok());
}

#[test]
fn bit_packed_fields_do_not_bleed() {
    let mut packet = Packet::new_unchecked(vec![0u8; 20]);
    packet.set_version(4);
    packet.set_header_len(20);
    packet.set_dscp(0x3F);
    packet.set_ecn(0x3);
    // the type-of-service byte did not perturb version or header length
    assert_eq!(packet.version(), 4);
    assert_eq!(packet.header_len(), 20);
    assert_eq!(packet.dscp(), 0x3F);
    assert_eq!(packet.ecn(), 0x3);
    // and vice versa
    packet.set_version(6);
    packet.set_header_len(60);
    assert_eq!(packet.dscp(), 0x3F);
    assert_eq!(packet.ecn(), 0x3);
    assert_eq!(packet.version(), 6);
    assert_eq!(packet.header_len(), 60);
}

#[test]
fn flags_and_fragment_offset_roundtrip() {
    let mut packet = Packet::new_unchecked(vec![0u8; 20]);
    packet.clear_flags();
    packet.set_dont_frag(true);
    packet.set_more_frags(true);
    packet.set_frag_offset(1000);
    assert!(packet.dont_frag());
    assert!(packet.more_frags());
    assert_eq!(packet.frag_offset(), 1000);

    packet.set_dont_frag(false);
    assert!(!packet.dont_frag());
    assert!(packet.more_frags());
    assert_eq!(packet.frag_offset(), 1000);

    packet.set_more_frags(false);
    assert!(!packet.more_frags());
    assert_eq!(packet.frag_offset(), 1000);

    packet.set_frag_offset(0x1FF8);
    assert_eq!(packet.frag_offset(), 0x1FF8);
    assert!(!packet.dont_frag());
    assert!(!packet.more_frags());

    packet.clear_flags();
    assert!(!packet.dont_frag());
    assert!(!packet.more_frags());
    assert_eq!(packet.frag_offset(), 0x1FF8);
}

#[test]
fn ipv4_fill_then_verify() {
    // an all-zero header
    let mut packet = Packet::new_unchecked(vec![0u8; 20]);
    packet.set_header_len(20);
    packet.fill_checksum();
    assert!(packet.verify_checksum());

    // an all-ones header (the length nibble must stay consistent)
    let mut packet = Packet::new_unchecked(vec![0xFFu8; 60]);
    packet.set_header_len(60);
    packet.fill_checksum();
    assert!(packet.verify_checksum());

    // an arbitrary header
    let mut packet = Packet::new_unchecked(vec![0u8; 28]);
    packet.set_version(4);
    packet.set_header_len(20);
    packet.set_total_len(28);
    packet.set_ident(0xBEEF);
    packet.set_hop_limit(64);
    packet.set_protocol(Protocol::UDP);
    packet.set_src_addr(Address([192, 168, 0, 1]));
    packet.set_dst_addr(Address([192, 168, 0, 2]));
    packet.fill_checksum();
    assert!(packet.verify_checksum());
}

#[test]
fn ipv4_bit_flip_breaks_checksum() {
    let mut packet = Packet::new_unchecked(vec![0u8; 20]);
    packet.set_version(4);
    packet.set_header_len(20);
    packet.set_total_len(20);
    packet.set_src_addr(Address([10, 0, 0, 1]));
    packet.fill_checksum();
    assert!(packet.verify_checksum());

    // flip a single bit of a source-address byte
    let mut bytes = packet.into_inner();
    bytes[13] ^= 0x10;
    let packet = Packet::new_unchecked(bytes);
    assert!(!packet.verify_checksum());

    // flip a single bit of the stored checksum itself
    let mut bytes = packet.into_inner();
    bytes[13] ^= 0x10; // restore
    bytes[10] ^= 0x01;
    let packet = Packet::new_unchecked(bytes);
    assert!(!packet.verify_checksum());
}

#[test]
fn payload_mut_writes_declared_region_only() {
    let mut packet = Packet::new_unchecked(vec![0xEEu8; 32]);
    packet.set_version(4);
    packet.set_header_len(20);
    packet.set_total_len(28);
    packet.payload_mut(&[1, 2, 3, 4, 5, 6, 7, 8]);
    let bytes = packet.into_inner();
    assert_eq!(&bytes[20..28], &[1, 2, 3, 4, 5, 6, 7, 8]);
    // trailing bytes beyond the declared total length are untouched
    assert_eq!(&bytes[28..32], &[0xEE; 4]);
}

#[test]
fn version_of_packet() {
    assert_eq!(Version::of_packet(&[0x45, 0x00]), Ok(Version::IPv4));
    assert_eq!(Version::of_packet(&[0x60]), Ok(Version::IPv6));
    assert_eq!(Version::of_packet(&[0x00]), Err(Error::Unrecognized));
    assert_eq!(Version::of_packet(&[0x51]), Err(Error::Unrecognized));
}

#[test]
fn protocol_wire_values() {
    assert_eq!(Protocol::from(0x01), Protocol::ICMP);
    assert_eq!(Protocol::from(0x06), Protocol::TCP);
    assert_eq!(Protocol::from(0x11), Protocol::UDP);
    assert_eq!(Protocol::from(0x2B), Protocol::IPv6Route);
    assert_eq!(Protocol::from(0x3C), Protocol::IPv6Opts);
    // the private Test placeholder is not recognized on decode
    assert_eq!(Protocol::from(0xFD), Protocol::Unsupported);
    assert_eq!(Protocol::from(0x99), Protocol::Unsupported);

    assert_eq!(u8::from(Protocol::ICMP), 0x01);
    assert_eq!(u8::from(Protocol::IPv6Route), 0x2B);
    assert_eq!(u8::from(Protocol::IPv6Frag), 0x2C);
    assert_eq!(u8::from(Protocol::ICMPv6), 0x3A);
    assert_eq!(u8::from(Protocol::IPv6NoNxt), 0x3B);
    assert_eq!(u8::from(Protocol::Test), 0xFD);
    assert_eq!(u8::from(Protocol::Unsupported), 0xFF);
}

#[test]
fn ipv4_address_classification() {
    assert!(Address([255, 255, 255, 255]).is_broadcast());
    assert!(Address([0, 0, 0, 0]).is_unspecified());
    assert!(Address([224, 0, 0, 1]).is_multicast());
    assert!(Address([169, 254, 1, 1]).is_link_local());
    assert!(Address([127, 0, 0, 1]).is_loopback());

    let host = Address::new(192, 168, 1, 1);
    assert!(host.is_unicast());
    assert!(!host.is_broadcast());
    assert!(!host.is_multicast());
    assert!(!host.is_unspecified());
    assert_eq!(host.as_bytes(), &[192, 168, 1, 1]);
    assert_eq!(Address::from_bytes(&[192, 168, 1, 1]), host);
}
