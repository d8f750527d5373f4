use hardlight::pem::{choose_key, load_certified_key, CertifiedKey, PemError};

fn section(kind: &str, base64: &str) -> String {
    format!("-----BEGIN {kind}-----\n{base64}\n-----END {kind}-----\n")
}

#[test]
fn all_certificates_and_the_first_key_are_loaded() {
    let certificates = section("CERTIFICATE", "AQID") + "junk\n" + &section("CERTIFICATE", "BA==");
    let keys = section("RSA PRIVATE KEY", "Cg==")
        + &section("PRIVATE KEY", "BQY=")
        + &section("PRIVATE KEY", "Bw==");
    assert_eq!(
        load_certified_key(certificates.as_bytes(), keys.as_bytes()),
        Ok(CertifiedKey { chain: vec![vec![1, 2, 3], vec![4]], key: vec![5, 6] })
    );
}

#[test]
fn a_file_may_hold_both() {
    let both = section("CERTIFICATE", "AQID") + &section("PRIVATE KEY", "BQY=");
    assert_eq!(
        load_certified_key(both.as_bytes(), both.as_bytes()),
        Ok(CertifiedKey { chain: vec![vec![1, 2, 3]], key: vec![5, 6] })
    );
}

#[test]
fn certificates_may_be_missing_and_a_key_may_not() {
    let key = section("PRIVATE KEY", "BQY=");
    assert_eq!(
        load_certified_key(b"", key.as_bytes()),
        Ok(CertifiedKey { chain: vec![], key: vec![5, 6] })
    );
    assert_eq!(load_certified_key(b"", b""), Err(PemError::NoKey));
    let other = section("RSA PRIVATE KEY", "BQY=");
    assert_eq!(load_certified_key(b"", other.as_bytes()), Err(PemError::NoKey));
}

#[test]
fn files_that_cannot_be_read_are_refused() {
    let key = section("PRIVATE KEY", "BQY=");
    let broken = b"-----BEGIN CERTIFICATE-----\nAQID\n";
    assert_eq!(load_certified_key(broken, key.as_bytes()), Err(PemError::Certificates));
    assert_eq!(load_certified_key(broken, broken), Err(PemError::Certificates));
    assert_eq!(load_certified_key(b"", broken), Err(PemError::Keys));
    let not_base64 = section("PRIVATE KEY", "!");
    assert_eq!(load_certified_key(b"", not_base64.as_bytes()), Err(PemError::Keys));
}

#[test]
fn the_first_of_the_keys_is_chosen() {
    let keys = || Some(vec![vec![1], vec![2]]);
    assert_eq!(choose_key(Some(vec![vec![9]]), keys()), Ok(CertifiedKey { chain: vec![vec![9]], key: vec![1] }));
    assert_eq!(choose_key(None, keys()), Err(PemError::Certificates));
    assert_eq!(choose_key(None, None), Err(PemError::Certificates));
    assert_eq!(choose_key(Some(vec![]), None), Err(PemError::Keys));
    assert_eq!(choose_key(Some(vec![]), Some(vec![])), Err(PemError::NoKey));
}
