//! The version of the protocol, and how a client and a server tell it to each other.

use std::str::FromStr;

use tokio_tungstenite::tungstenite::http::HeaderValue;
use vstd::prelude::*;
use vstd::utf8::{decode_utf8, encode_utf8, encode_utf8_decode_utf8, is_ascii_chars_encode_utf8};

use crate::text::{
    decimal, decimal_has_no_leading_zero, decimal_reads_back, decimal_string, digits_value,
    is_digit,
};

verus! {

/// The version of this library.
pub const HL_VERSION: &'static str = "1.0.0";

/// The number that a text is read as: decimal digits, at least one, with an
/// optional plus sign in front, and a value that fits.
pub open spec fn parse_u32(s: Seq<char>) -> Option<u32> {
    let digits = if s.len() > 0 && s[0] == '+' {
        s.skip(1)
    } else {
        s
    };
    if digits.len() > 0 && (forall|i: int| 0 <= i < digits.len() ==> is_digit(#[trigger] digits[i]))
        && digits_value(digits) <= u32::MAX {
        Some(digits_value(digits) as u32)
    } else {
        None
    }
}

/// How many characters stand before the first dot, or in all if there is none.
pub open spec fn until_dot(s: Seq<char>) -> nat
    decreases s.len(),
{
    if s.len() == 0 || s[0] == '.' {
        0
    } else {
        1 + until_dot(s.skip(1))
    }
}

/// The major, minor and patch number that a version stands for: three numbers with
/// dots between them.
pub open spec fn parsed_version(s: Seq<char>) -> Option<(u32, u32, u32)> {
    let i = until_dot(s) as int;
    let rest = s.skip(i + 1);
    let j = until_dot(rest) as int;
    let last = rest.skip(j + 1);
    if i < s.len() && j < rest.len() && !last.contains('.') {
        match (parse_u32(s.take(i)), parse_u32(rest.take(j)), parse_u32(last)) {
            (Some(major), Some(minor), Some(patch)) => Some((major, minor, patch)),
            _ => None,
        }
    } else {
        None
    }
}

/// Calls `version::Version::from_str`. It splits the text at every dot, wants three
/// parts, and reads each with `u32::from_str`; it fails on anything else.
#[verifier::external_body]
fn parse_version(s: &str) -> (r: Option<(u32, u32, u32)>)
    ensures
        r == parsed_version(s@),
{
    version::Version::from_str(s).ok().map(|v| (v.major, v.minor, v.patch))
}

/// Whether a byte may stand in the value of an HTTP header.
pub open spec fn is_header_byte(b: u8) -> bool {
    (b >= 32 && b != 127) || b == 9
}

/// Calls `http::HeaderValue::from_str` and takes the bytes of the value it gives.
/// It gives one exactly if every byte of the text's UTF-8 form is a tab or is at
/// least 32 and not 127, and the value's bytes are then that form.
#[verifier::external_body]
fn header_value(s: &str) -> (r: Option<Vec<u8>>)
    ensures
        r is Some <==> forall|i: int|
            0 <= i < encode_utf8(s@).len() ==> is_header_byte(#[trigger] encode_utf8(s@)[i]),
        r matches Some(bytes) ==> bytes@ == encode_utf8(s@),
{
    HeaderValue::from_str(s).ok().map(|v| v.as_bytes().to_vec())
}

/// The major number of this library's version.
pub open spec fn hl_major() -> u32 {
    (parsed_version(HL_VERSION@)->0).0
}

proof fn lemma_hl_version()
    ensures
        parsed_version(HL_VERSION@) == Some((1u32, 0u32, 0u32)),
{
    reveal_strlit("1.0.0");
    let s = HL_VERSION@;
    assert(s =~= seq!['1', '.', '0', '.', '0']);
    reveal_with_fuel(until_dot, 3);
    reveal_with_fuel(digits_value, 3);
    assert(s.skip(1)[0] == '.');
    let rest = s.skip(2);
    assert(rest.skip(1)[0] == '.');
    let last = rest.skip(2);
    assert(last =~= seq!['0']);
    assert(s.take(1) =~= seq!['1']);
    assert(rest.take(1) =~= seq!['0']);
    assert(seq!['1'].drop_last() =~= Seq::<char>::empty());
    assert(seq!['0'].drop_last() =~= Seq::<char>::empty());
    assert(parse_u32(seq!['1']) == Some(1u32));
    assert(parse_u32(seq!['0']) == Some(0u32));
}

/// The major number of this library's version.
pub fn major_version() -> (r: u32)
    ensures
        r == hl_major(),
{
    proof {
        lemma_hl_version();
    }
    parse_version(HL_VERSION).unwrap().0
}

/// The name of the protocol with a major version.
pub open spec fn protocol_name(major: u32) -> Seq<char> {
    "hl/"@ + decimal(major as nat)
}

/// The bytes by which a client and a server tell each other the protocol.
pub open spec fn protocol_bytes(major: u32) -> Seq<u8> {
    encode_utf8(protocol_name(major))
}

/// The bytes by which a client and a server tell each other the protocol, as the
/// value of a header.
pub fn hl_version_string(major: u32) -> (r: Vec<u8>)
    ensures
        r@ == protocol_bytes(major),
{
    let mut name = "hl/".to_owned();
    name.append(decimal_string(major).as_str());
    proof {
        reveal_strlit("hl/");
        decimal_reads_back(major as nat);
        let chars = protocol_name(major);
        assert forall|i: int| 0 <= i < chars.len() implies 32 <= #[trigger] chars[i] as u32
            && (chars[i] as u32) < 127 by {
            if i >= 3 {
                assert(chars[i] == decimal(major as nat)[i - 3]);
            }
        }
        is_ascii_chars_encode_utf8(chars);
    }
    header_value(name.as_str()).unwrap()
}

/// Two versions name the same protocol exactly if their major numbers are the same.
pub proof fn protocols_differ(a: u32, b: u32)
    ensures
        protocol_bytes(a) == protocol_bytes(b) <==> a == b,
{
    if protocol_bytes(a) == protocol_bytes(b) {
        encode_utf8_decode_utf8(protocol_name(a));
        encode_utf8_decode_utf8(protocol_name(b));
        let n = "hl/"@.len() as int;
        assert(protocol_name(a).skip(n) =~= decimal(a as nat));
        assert(protocol_name(b).skip(n) =~= decimal(b as nat));
        decimal_reads_back(a as nat);
        decimal_reads_back(b as nat);
    }
}

/// The name of a protocol is `hl/` with the major version behind it, in decimal and without
/// leading zeros.
pub proof fn a_protocol_names_its_major_version(major: u32)
    ensures
        ({
            let name = protocol_name(major);
            let number = name.skip(3);
            &&& name.take(3) == seq!['h', 'l', '/']
            &&& number.len() > 0
            &&& forall|i: int| 0 <= i < number.len() ==> is_digit(#[trigger] number[i])
            &&& digits_value(number) == major
            &&& number[0] == '0' <==> major == 0
            &&& major == 0 ==> number.len() == 1
            &&& decode_utf8(protocol_bytes(major)) == name
        }),
{
    reveal_strlit("hl/");
    let name = protocol_name(major);
    assert(name.take(3) =~= seq!['h', 'l', '/']);
    assert(name.skip(3) =~= decimal(major as nat));
    encode_utf8_decode_utf8(name);
    decimal_reads_back(major as nat);
    decimal_has_no_leading_zero(major as nat);
}

}
