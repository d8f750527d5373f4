//! The certificates and the private key of a server, from the contents of PEM files.

use rustls_pemfile::{certs, pkcs8_private_keys};
use vstd::prelude::*;

verus! {

/// The certificates that `rustls_pemfile::certs` reads from the contents of a PEM file, in
/// order, if it can read them.
pub uninterp spec fn pem_certificates(contents: Seq<u8>) -> Option<Seq<Seq<u8>>>;

/// The private keys that `rustls_pemfile::pkcs8_private_keys` reads from the contents of a
/// PEM file, in order, if it can read them.
pub uninterp spec fn pem_private_keys(contents: Seq<u8>) -> Option<Seq<Seq<u8>>>;

/// The contents of byte strings.
pub open spec fn all_bytes(list: Seq<Vec<u8>>) -> Seq<Seq<u8>> {
    list.map_values(|bytes: Vec<u8>| bytes@)
}

/// Calls `rustls_pemfile::certs` on the contents of a file. What it reads depends on the
/// contents alone. `None` if the contents are no PEM file.
#[verifier::external_body]
fn read_certificates(contents: &[u8]) -> (r: Option<Vec<Vec<u8>>>)
    ensures
        match r {
            Some(list) => pem_certificates(contents@) == Some(all_bytes(list@)),
            None => pem_certificates(contents@) is None,
        },
{
    let mut reader = contents;
    certs(&mut reader).ok()
}

/// Calls `rustls_pemfile::pkcs8_private_keys` on the contents of a file. What it reads
/// depends on the contents alone. `None` if the contents are no PEM file.
#[verifier::external_body]
fn read_private_keys(contents: &[u8]) -> (r: Option<Vec<Vec<u8>>>)
    ensures
        match r {
            Some(list) => pem_private_keys(contents@) == Some(all_bytes(list@)),
            None => pem_private_keys(contents@) is None,
        },
{
    let mut reader = contents;
    pkcs8_private_keys(&mut reader).ok()
}

/// A server's certificates and its private key, all in DER form.
#[derive(Debug, PartialEq, Eq)]
pub struct CertifiedKey {
    /// The certificates, in order.
    pub chain: Vec<Vec<u8>>,
    /// The private key.
    pub key: Vec<u8>,
}

/// Why a server's certificates and key could not be loaded.
#[derive(Clone, Copy, Debug, PartialEq, Eq, Structural)]
pub enum PemError {
    /// The certificates could not be read.
    Certificates,
    /// The keys could not be read.
    Keys,
    /// There is no key.
    NoKey,
}

/// Whether this comes of the certificates and the keys that were read, if they were: all
/// the certificates and the first key.
pub open spec fn is_certified_key(
    chain: Option<Seq<Seq<u8>>>,
    keys: Option<Seq<Seq<u8>>>,
    r: Result<CertifiedKey, PemError>,
) -> bool {
    match (chain, keys) {
        (None, _) => r == Err::<CertifiedKey, _>(PemError::Certificates),
        (Some(_), None) => r == Err::<CertifiedKey, _>(PemError::Keys),
        (Some(chain), Some(keys)) => if keys.len() == 0 {
            r == Err::<CertifiedKey, _>(PemError::NoKey)
        } else {
            r is Ok && all_bytes(r->Ok_0.chain@) == chain && r->Ok_0.key@ == keys[0]
        },
    }
}

/// A list of byte strings, if there is one, as its contents.
pub open spec fn list_bytes(list: Option<Vec<Vec<u8>>>) -> Option<Seq<Seq<u8>>> {
    match list {
        Some(list) => Some(all_bytes(list@)),
        None => None,
    }
}

/// The certificates and the key that a server uses, of those that were read.
pub fn choose_key(chain: Option<Vec<Vec<u8>>>, keys: Option<Vec<Vec<u8>>>) -> (r: Result<
    CertifiedKey,
    PemError,
>)
    ensures
        is_certified_key(list_bytes(chain), list_bytes(keys), r),
{
    match chain {
        None => Err(PemError::Certificates),
        Some(chain) => match keys {
            None => Err(PemError::Keys),
            Some(mut keys) => {
                if keys.is_empty() {
                    return Err(PemError::NoKey);
                }
                let key = keys.remove(0);
                Ok(CertifiedKey { chain, key })
            },
        },
    }
}

/// Loads a server's certificates and its key from the contents of two PEM files.
pub fn load_certified_key(cert_file: &[u8], key_file: &[u8]) -> (r: Result<CertifiedKey, PemError>)
    ensures
        is_certified_key(pem_certificates(cert_file@), pem_private_keys(key_file@), r),
{
    choose_key(read_certificates(cert_file), read_private_keys(key_file))
}

/// A server is loaded exactly if the certificates and the keys can be read and there is a key,
/// however many there are: with all the certificates, in order, and the first key.
pub proof fn a_server_has_every_certificate_and_the_first_key(
    chain: Option<Vec<Vec<u8>>>,
    keys: Option<Vec<Vec<u8>>>,
    r: Result<CertifiedKey, PemError>,
)
    requires
        call_ensures(choose_key, (chain, keys), r),
    ensures
        r is Ok <==> chain is Some && keys is Some && keys->0@.len() > 0,
        r is Ok ==> {
            &&& r->Ok_0.chain@.len() == chain->0@.len()
            &&& forall|i: int|
                0 <= i < chain->0@.len() ==> #[trigger] r->Ok_0.chain@[i]@ == chain->0@[i]@
            &&& r->Ok_0.key@ == keys->0@.first()@
        },
        chain is None ==> r == Err::<CertifiedKey, _>(PemError::Certificates),
        chain is Some && keys is None ==> r == Err::<CertifiedKey, _>(PemError::Keys),
        chain is Some && keys is Some && keys->0@.len() == 0 ==> r == Err::<CertifiedKey, _>(
            PemError::NoKey,
        ),
{
    if r is Ok {
        let loaded = all_bytes(r->Ok_0.chain@);
        let given = all_bytes(chain->0@);
        assert(loaded.len() == given.len());
        assert forall|i: int| 0 <= i < chain->0@.len() implies #[trigger] r->Ok_0.chain@[i]@
            == chain->0@[i]@ by {
            assert(loaded[i] == given[i]);
        }
    }
}

/// Loading from two files gives what comes of the certificates in the one and of the keys in
/// the other, and of nothing else.
pub proof fn a_server_is_loaded_from_its_files(
    cert_file: &[u8],
    key_file: &[u8],
    r: Result<CertifiedKey, PemError>,
)
    requires
        call_ensures(load_certified_key, (cert_file, key_file), r),
    ensures
        ({
            let chain = pem_certificates(cert_file@);
            let keys = pem_private_keys(key_file@);
            &&& r is Ok <==> chain is Some && keys is Some && keys->0.len() > 0
            &&& r is Ok ==> {
                &&& r->Ok_0.chain@.len() == chain->0.len()
                &&& forall|i: int|
                    0 <= i < chain->0.len() ==> #[trigger] r->Ok_0.chain@[i]@ == chain->0[i]
                &&& r->Ok_0.key@ == keys->0.first()
            }
            &&& chain is None ==> r == Err::<CertifiedKey, _>(PemError::Certificates)
            &&& chain is Some && keys is None ==> r == Err::<CertifiedKey, _>(PemError::Keys)
            &&& chain is Some && keys is Some && keys->0.len() == 0 ==> r
                == Err::<CertifiedKey, _>(PemError::NoKey)
        }),
{
    if r is Ok {
        let loaded = all_bytes(r->Ok_0.chain@);
        let given = pem_certificates(cert_file@)->0;
        assert(loaded.len() == given.len());
        assert forall|i: int| 0 <= i < given.len() implies #[trigger] r->Ok_0.chain@[i]@
            == given[i] by {
            assert(loaded[i] == given[i]);
        }
    }
}

}
