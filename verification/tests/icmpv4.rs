use netview::ethernet::{Address as MacAddress, EtherType, Frame};
use netview::icmp::icmpv4::{Message, Packet as IcmpPacket};
use netview::ip::ipv4::{Address as IpAddress, Packet as Ipv4Packet};
use netview::ip::Protocol;
use netview::Error;

const DST_MAC: [u8; 6] = [0x01, 0x02, 0x03, 0x04, 0x05, 0x06];
const SRC_MAC: [u8; 6] = [0x11, 0x12, 0x13, 0x14, 0x15, 0x16];

#[test]
fn icmpv4_test_protocol() {
    let mut frame = Frame::new_unchecked(vec![0u8; 14 + 32]);
    frame.set_dst_addr(MacAddress(DST_MAC));
    frame.set_src_addr(MacAddress(SRC_MAC));
    frame.set_ether_type(EtherType::IPv4);

    let mut packet = IcmpPacket::new_unchecked(vec![0u8; 12]);
    packet.set_msg_type(Message::EchoRequest);
    packet.set_msg_code(0);
    packet.set_echo_ident(0x1234);
    packet.set_echo_seq_no(0xabcd);
    packet.data_mut("ABCD".as_ref());
    packet.fill_checksum();

    let mut ipv4_packet = Ipv4Packet::new_unchecked(vec![0u8; 32]);
    ipv4_packet.set_version(4);
    ipv4_packet.set_header_len(20);
    ipv4_packet.clear_flags();
    ipv4_packet.set_dscp(0);
    ipv4_packet.set_ecn(0);
    ipv4_packet.set_total_len(32);
    ipv4_packet.set_ident(0x0);
    ipv4_packet.set_more_frags(false);
    ipv4_packet.set_dont_frag(true);
    ipv4_packet.set_frag_offset(0);
    ipv4_packet.set_hop_limit(0x20);
    ipv4_packet.set_protocol(Protocol::ICMP);
    ipv4_packet.set_src_addr(IpAddress([172, 27, 60, 82]));
    ipv4_packet.set_dst_addr(IpAddress([10, 10, 10, 1]));
    ipv4_packet.fill_checksum();

    ipv4_packet.payload_mut(packet.as_bytes());
    frame.payload_mut(ipv4_packet.as_bytes());

    // decode every layer back from the assembled frame
    let frame = Frame::new_checked(frame.into_inner()).unwrap();
    assert_eq!(frame.dst_addr(), MacAddress(DST_MAC));
    assert_eq!(frame.src_addr(), MacAddress(SRC_MAC));
    assert_eq!(frame.ether_type(), EtherType::IPv4);

    let ip = Ipv4Packet::new_checked(frame.payload().to_vec()).unwrap();
    assert_eq!(ip.version(), 4);
    assert_eq!(ip.header_len(), 20);
    assert_eq!(ip.total_len(), 32);
    assert_eq!(ip.hop_limit(), 0x20);
    assert!(ip.dont_frag());
    assert!(!ip.more_frags());
    assert_eq!(ip.frag_offset(), 0);
    assert_eq!(ip.protocol(), Protocol::ICMP);
    assert_eq!(ip.src_addr(), IpAddress([172, 27, 60, 82]));
    assert_eq!(ip.dst_addr(), IpAddress([10, 10, 10, 1]));
    assert!(ip.verify_checksum());

    let hl = ip.header_len() as usize;
    let total = ip.total_len() as usize;
    let icmp = IcmpPacket::new_checked(ip.as_bytes()[hl..total].to_vec()).unwrap();
    assert_eq!(icmp.msg_type(), Message::EchoRequest);
    assert_eq!(icmp.msg_code(), 0);
    assert_eq!(icmp.echo_ident(), 0x1234);
    assert_eq!(icmp.echo_seq_no(), 0xabcd);
    assert_eq!(&icmp.as_bytes()[8..], "ABCD".as_bytes());
    assert!(icmp.verify_checksum());
}

#[test]
fn message_catch_all() {
    assert_eq!(Message::from(200), Message::Unsupported);
    assert_eq!(Message::from(0), Message::EchoReply);
    assert_eq!(Message::from(8), Message::EchoRequest);
    assert_eq!(u8::from(Message::EchoReply), 0);
    assert_eq!(u8::from(Message::EchoRequest), 8);
    assert_eq!(u8::from(Message::Unsupported), 0xFF);

    let mut bytes = vec![0u8; 8];
    bytes[0] = 200;
    let packet = IcmpPacket::new_unchecked(bytes);
    assert_eq!(packet.msg_type(), Message::Unsupported);
    assert_eq!(packet.header_len(), 8);
}

#[test]
fn icmp_check_len() {
    let packet = IcmpPacket::new_unchecked(vec![0u8; 7]);
    assert_eq!(packet.check_len(), Err(Error::Truncated));
    assert!(IcmpPacket::new_checked(vec![0u8; 7]).is_err());

    let packet = IcmpPacket::new_unchecked(vec![0u8; 8]);
    assert_eq!(packet.check_len(), Ok(()));
    assert!(IcmpPacket::new_checked(vec![0u8; 8]).is_ok());
}

#[test]
fn icmp_fill_then_verify() {
    // an all-zero message
    let mut packet = IcmpPacket::new_unchecked(vec![0u8; 8]);
    packet.fill_checksum();
    assert!(packet.verify_checksum());

    // an all-ones message
    let mut packet = IcmpPacket::new_unchecked(vec![0xFFu8; 8]);
    packet.fill_checksum();
    assert!(packet.verify_checksum());

    // an arbitrary echo message with a body
    let mut packet = IcmpPacket::new_unchecked(vec![0u8; 13]);
    packet.set_msg_type(Message::EchoReply);
    packet.set_msg_code(0);
    packet.set_echo_ident(0xDEAD);
    packet.set_echo_seq_no(0x0001);
    packet.data_mut(&[0x10, 0x20, 0x30, 0x40, 0x50]);
    packet.fill_checksum();
    assert!(packet.verify_checksum());
}

#[test]
fn icmp_bit_flip_breaks_checksum() {
    let mut packet = IcmpPacket::new_unchecked(vec![0u8; 12]);
    packet.set_msg_type(Message::EchoRequest);
    packet.set_echo_ident(0x1234);
    packet.fill_checksum();
    assert!(packet.verify_checksum());

    // a flip in the body
    let mut bytes = packet.into_inner();
    bytes[9] ^= 0x80;
    let packet = IcmpPacket::new_unchecked(bytes);
    assert!(!packet.verify_checksum());

    // a flip in the stored checksum
    let mut bytes = packet.into_inner();
    bytes[9] ^= 0x80; // restore
    bytes[2] ^= 0x04;
    let packet = IcmpPacket::new_unchecked(bytes);
    assert!(!packet.verify_checksum());
}

#[test]
fn set_msg_code_writes_the_code() {
    let mut packet = IcmpPacket::new_unchecked(vec![0u8; 8]);
    packet.set_msg_code(3);
    assert_eq!(packet.msg_code(), 3);
}
