use netview::checksum;

#[test]
fn data_exact_value() {
    // 0x0001 + 0xf203 = 0xf204, no carry to fold
    assert_eq!(checksum::data(&[0x00, 0x01, 0xf2, 0x03]), 0xf204);
}

#[test]
fn data_empty_and_single() {
    assert_eq!(checksum::data(&[]), 0);
    // an odd trailing byte is the high byte of a virtual word
    assert_eq!(checksum::data(&[0x01]), 0x0100);
    assert_eq!(checksum::data(&[0xab, 0xcd, 0x01]), 0xaccd);
}

#[test]
fn data_folds_carries() {
    // 0xffff + 0xffff = 0x1fffe, which folds to 0xffff
    assert_eq!(checksum::data(&[0xff, 0xff, 0xff, 0xff]), 0xffff);
    // 0x8000 + 0x8001 = 0x10001, which folds to 0x0002
    assert_eq!(checksum::data(&[0x80, 0x00, 0x80, 0x01]), 0x0002);
}

#[test]
fn propagate_carries_folds_twice() {
    assert_eq!(checksum::propagate_carries(0x0000_1234), 0x1234);
    assert_eq!(checksum::propagate_carries(0x0001_ffff), 0x0001);
    // 0xffff_ffff -> 0xffff + 0xffff = 0x1fffe -> 1 + 0xfffe = 0xffff
    assert_eq!(checksum::propagate_carries(0xffff_ffff), 0xffff);
}

#[test]
fn combine_equals_single_pass() {
    let a = [0x12u8, 0x34, 0x56, 0x78];
    let b = [0x9au8, 0xbc, 0xde];
    let mut joined = Vec::new();
    joined.extend_from_slice(&a);
    joined.extend_from_slice(&b);
    let combined = checksum::combine(&[checksum::data(&a), checksum::data(&b)]);
    assert_eq!(combined, checksum::data(&joined));
}

#[test]
fn combine_exact_value() {
    assert_eq!(checksum::combine(&[]), 0);
    assert_eq!(checksum::combine(&[0x1234]), 0x1234);
    assert_eq!(checksum::combine(&[0xffff, 0x0001]), 0x0001);
}
