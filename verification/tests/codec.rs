use hardlight::codec::{decode_u32, decode_unit, encode_u32, encode_unit};

#[test]
fn a_number_is_its_four_bytes_least_significant_first() {
    assert_eq!(encode_u32(0x04030201), vec![1, 2, 3, 4]);
    assert_eq!(encode_u32(1), vec![1, 0, 0, 0]);
    assert_eq!(encode_u32(u32::MAX), vec![255, 255, 255, 255]);
}

#[test]
fn decoding_undoes_encoding() {
    for n in [0, 1, 255, 256, 65536, 0xdeadbeef, u32::MAX] {
        assert_eq!(decode_u32(&encode_u32(n)), Some(n));
    }
}

#[test]
fn a_number_is_read_from_the_last_four_bytes() {
    assert_eq!(decode_u32(&[9, 9, 9, 9, 5, 0, 0, 0]), Some(5));
}

#[test]
fn bytes_of_another_length_are_no_number() {
    assert_eq!(decode_u32(&[]), None);
    assert_eq!(decode_u32(&[1]), None);
    assert_eq!(decode_u32(&[1, 2, 3]), None);
    assert_eq!(decode_u32(&[1, 2, 3, 4, 5]), None);
    assert_eq!(decode_u32(&[1, 2, 3, 4, 5, 6]), None);
}

#[test]
fn nothing_takes_no_bytes() {
    assert_eq!(encode_unit(), Vec::<u8>::new());
    assert_eq!(decode_unit(&[]), Some(()));
    assert_eq!(decode_unit(&[1, 2, 3]), Some(()));
}
