use hardlight::text::decimal_string;
use hardlight::version::{hl_version_string, major_version, HL_VERSION};

#[test]
fn the_major_version_is_the_first_number_of_the_version() {
    assert_eq!(HL_VERSION, "1.0.0");
    assert_eq!(major_version(), 1);
}

#[test]
fn the_protocol_is_named_after_the_major_version() {
    assert_eq!(hl_version_string(0), b"hl/0".to_vec());
    assert_eq!(hl_version_string(1), b"hl/1".to_vec());
    assert_eq!(hl_version_string(42), b"hl/42".to_vec());
    assert_eq!(hl_version_string(u32::MAX), b"hl/4294967295".to_vec());
}

#[test]
fn two_major_versions_name_two_protocols() {
    assert_ne!(hl_version_string(1), hl_version_string(11));
    assert_ne!(hl_version_string(10), hl_version_string(1));
    assert_eq!(hl_version_string(7), hl_version_string(7));
}

#[test]
fn numbers_have_their_decimal_form() {
    for n in [0, 9, 10, 99, 100, 65535, 1000000007, u32::MAX] {
        assert_eq!(decimal_string(n), n.to_string());
        assert_eq!(decimal_string(n).parse::<u32>(), Ok(n));
    }
}
