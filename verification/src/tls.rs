//! The trust store built from custom CA certificates.

use vstd::prelude::*;
use rustls::RootCertStore;
use wtransport::ClientConfig;
use crate::options::CertificateMode;
use crate::error::{invalid_code, no_detail_codes, ErrorCategory, TransportError};

verus! {

#[verifier::external_type_specification]
#[verifier::external_body]
pub struct ExRootCertStore(rustls::RootCertStore);

/// The DER certificates from which the trust anchors of `store` were made,
/// in the order they were added.
pub uninterp spec fn trust_anchors(store: RootCertStore) -> Seq<Seq<u8>>;

/// Whether rustls refuses `der` as a trust anchor, and the text of its
/// refusal: `None` where `der` is accepted.
pub uninterp spec fn trust_anchor_rejection(der: Seq<u8>) -> Option<Seq<char>>;

/// `RootCertStore::empty`: a store without trust anchors.
#[verifier::external_body]
fn empty_root_store() -> (store: RootCertStore)
    ensures
        trust_anchors(store) == Seq::<Seq<u8>>::empty(),
{
    RootCertStore::empty()
}

/// `RootCertStore::add`: parses `der` as a trust anchor and appends it; the
/// refusal of a certificate that does not parse is handed back as its
/// display text and leaves the store unchanged.
#[verifier::external_body]
fn add_trust_anchor(store: &mut RootCertStore, der: Vec<u8>) -> (r: Result<(), String>)
    ensures
        match trust_anchor_rejection(der@) {
            None => r is Ok && trust_anchors(*final(store)) == trust_anchors(*old(store)).push(der@),
            Some(text) => r matches Err(m) && m@ == text && trust_anchors(*final(store))
                == trust_anchors(*old(store)),
        },
{
    store.add(rustls::pki_types::CertificateDer::from(der)).map_err(|error| error.to_string())
}

/// `RootCertStore::is_empty`: whether the store holds no trust anchor.
#[verifier::external_body]
fn root_store_is_empty(store: &RootCertStore) -> (b: bool)
    ensures
        b == (trust_anchors(*store).len() == 0),
{
    store.is_empty()
}

/// The DER bytes of each certificate.
pub open spec fn ders(certificates: Seq<Vec<u8>>) -> Seq<Seq<u8>> {
    certificates.map_values(|c: Vec<u8>| c@)
}

/// The first certificate that rustls refuses, if any.
pub open spec fn first_rejected(certificates: Seq<Vec<u8>>, k: int) -> bool {
    &&& 0 <= k < certificates.len()
    &&& trust_anchor_rejection(certificates[k]@) is Some
    &&& forall|i: int| 0 <= i < k ==> trust_anchor_rejection(#[trigger] certificates[i]@) is None
}

/// The message of the error for a refused custom CA certificate.
pub open spec fn rejected_message(text: Seq<char>) -> Seq<char> {
    seq!['i', 'n', 'v', 'a', 'l', 'i', 'd', ' ', 'c', 'u', 's', 't', 'o', 'm', ' ', 'C', 'A', ' ',
    'c', 'e', 'r', 't', 'i', 'f', 'i', 'c', 'a', 't', 'e', ':', ' '] + text
}

/// The message of the error for an empty custom CA list.
pub open spec fn empty_list_message() -> Seq<char> {
    seq!['c', 'u', 's', 't', 'o', 'm', ' ', 'C', 'A', ' ', 'l', 'i', 's', 't', ' ', 'i', 's', ' ',
    'e', 'm', 'p', 't', 'y']
}

/// `e` is an invalid-argument error with `message`.
pub open spec fn is_invalid_error(e: TransportError, message: Seq<char>) -> bool {
    &&& e.category == ErrorCategory::InvalidArgument
    &&& e.code == invalid_code()
    &&& e.message@ == message
    &&& !e.retryable
    &&& no_detail_codes(e)
}

/// Every custom CA certificate parses, and there is at least one.
pub open spec fn custom_roots_accepted(certificates: Seq<Vec<u8>>) -> bool {
    &&& certificates.len() > 0
    &&& forall|i: int|
        0 <= i < certificates.len() ==> trust_anchor_rejection(#[trigger] certificates[i]@) is None
}

/// The error that refuses a custom CA list: the refusal of its first
/// certificate that does not parse, or the complaint that it is empty.
pub open spec fn custom_roots_error(certificates: Seq<Vec<u8>>, e: TransportError) -> bool {
    ||| exists|k: int|
        first_rejected(certificates, k) && is_invalid_error(
            e,
            rejected_message(trust_anchor_rejection(certificates[k]@)->Some_0),
        )
    ||| {
        &&& certificates.len() == 0
        &&& is_invalid_error(e, empty_list_message())
    }
}

/// The error for a custom CA certificate that rustls refused with the
/// text `refusal`: an invalid-argument error that quotes it.
pub fn rejected_certificate_error(refusal: &str) -> (e: TransportError)
    ensures
        is_invalid_error(e, rejected_message(refusal@)),
{
    let prefix = String::from_str("invalid custom CA certificate: ");
    let message = prefix.concat(refusal);
    proof {
        reveal_strlit("invalid custom CA certificate: ");
        assert(message@ =~= rejected_message(refusal@));
    }
    TransportError::invalid(message)
}

/// Builds the trust store for the custom CA certificates in DER form. The
/// first certificate that does not parse fails the whole list with an
/// invalid-argument error that quotes the refusal, and an empty list fails
/// with an invalid-argument error too.
pub fn custom_root_store(certificates: Vec<Vec<u8>>) -> (r: Result<RootCertStore, TransportError>)
    ensures
        match r {
            Ok(store) => custom_roots_accepted(certificates@) && trust_anchors(store) == ders(
                certificates@,
            ),
            Err(e) => custom_roots_error(certificates@, e),
        },
{
    let ghost all = certificates@;
    let mut roots = empty_root_store();
    let mut rest = certificates;
    let n = rest.len();
    let mut i: usize = 0;
    while i < n
        invariant
            n == all.len(),
            all == certificates@,
            i <= n,
            rest@ == all.skip(i as int),
            trust_anchors(roots) == ders(all.take(i as int)),
            forall|k: int| 0 <= k < i ==> trust_anchor_rejection(#[trigger] all[k]@) is None,
        decreases n - i,
    {
        let certificate = rest.remove(0);
        assert(certificate == all[i as int]);
        match add_trust_anchor(&mut roots, certificate) {
            Ok(()) => {
                assert(ders(all.take(i + 1)) =~= ders(all.take(i as int)).push(all[i as int]@));
            },
            Err(text) => {
                proof {
                    assert(first_rejected(all, i as int));
                }
                return Err(rejected_certificate_error(text.as_str()));
            },
        }
        proof {
            assert(rest@ =~= all.skip(i + 1));
        }
        i = i + 1;
    }
    assert(all.take(n as int) =~= all);
    if root_store_is_empty(&roots) {
        let message = String::from_str("custom CA list is empty");
        proof {
            assert(ders(all).len() == all.len());
            assert(all.len() == 0);
            reveal_strlit("custom CA list is empty");
            assert(message@ =~= empty_list_message());
        }
        return Err(TransportError::invalid(message));
    }
    Ok(roots)
}

#[verifier::external_type_specification]
#[verifier::external_body]
pub struct ExClientConfig(wtransport::ClientConfig);

/// The SHA-256 digests that `config` accepts the server's certificate by,
/// where it checks the certificate by its digest (its verifier holds them as
/// a set); `None` where it checks certificate chains against trust anchors.
pub uninterp spec fn pinned_hashes(config: ClientConfig) -> Option<Set<Seq<u8>>>;

/// The DER trust anchors that `config` checks the server's certificate
/// chain against, where it checks chains; `None` where a digest verifier
/// replaces that check.
pub uninterp spec fn trusted_roots(config: ClientConfig) -> Option<Seq<Seq<u8>>>;

/// Whether `config` checks certificate chains against the operating
/// system's trust store, loaded when it was built, rather than against a
/// list that the caller supplied or a digest verifier.
pub uninterp spec fn uses_platform_roots(config: ClientConfig) -> bool;

/// The digests, as byte sequences, of a list of SHA-256 hashes.
pub open spec fn digests(hashes: Seq<[u8; 32]>) -> Set<Seq<u8>> {
    hashes.map_values(|h: [u8; 32]| h@).to_set()
}

/// `ClientConfig::builder().with_bind_default().with_native_certs().build()`:
/// a client configuration bound to the default address that checks
/// certificate chains against the operating system's trust store. Which
/// roots that store holds is read from the machine, so the list itself is
/// not stated: only that chains are checked against it and that no digest
/// is pinned.
#[verifier::external_body]
fn native_roots_config() -> (r: ClientConfig)
    ensures
        uses_platform_roots(r),
        pinned_hashes(r) is None,
        trusted_roots(r) is Some,
{
    ClientConfig::builder().with_bind_default().with_native_certs().build()
}

/// `ClientConfig::builder().with_bind_default()
/// .with_server_certificate_hashes(..).build()`: a client configuration
/// whose verifier, in place of any chain check, accepts only certificates
/// with one of the given SHA-256 digests (and, beyond what is stated here,
/// only those currently valid, valid for at most fourteen days and with an
/// ECDSA P-256 key).
#[verifier::external_body]
fn certificate_hashes_config(hashes: Vec<[u8; 32]>) -> (r: ClientConfig)
    ensures
        !uses_platform_roots(r),
        pinned_hashes(r) == Some(digests(hashes@)),
        trusted_roots(r) is None,
{
    ClientConfig::builder()
        .with_bind_default()
        .with_server_certificate_hashes(hashes.into_iter().map(wtransport::tls::Sha256Digest::new))
        .build()
}

/// `wtransport::tls::client::build_default_tls_config` on `roots` with no
/// custom verifier, then
/// `ClientConfig::builder().with_bind_default().with_custom_tls(..).build()`:
/// a client configuration that checks certificate chains against exactly
/// the trust anchors of `roots`, in place of the native roots.
#[verifier::external_body]
fn custom_roots_config(roots: RootCertStore) -> (r: ClientConfig)
    ensures
        !uses_platform_roots(r),
        trusted_roots(r) == Some(trust_anchors(roots)),
        pinned_hashes(r) is None,
{
    let tls = wtransport::tls::client::build_default_tls_config(std::sync::Arc::new(roots), None);
    ClientConfig::builder().with_bind_default().with_custom_tls(tls).build()
}

/// The client configuration for a certificate mode. Native roots give one
/// that checks chains against the machine's roots; certificate hashes give
/// one that pins exactly those digests; custom CA certificates give one
/// that trusts exactly those certificates, in place of the native roots,
/// when the list is accepted, and the list's error otherwise.
pub fn client_config(mode: CertificateMode) -> (r: Result<ClientConfig, TransportError>)
    ensures
        match mode {
            CertificateMode::NativeRoots => r matches Ok(c) && uses_platform_roots(c)
                && pinned_hashes(c) is None && trusted_roots(c) is Some,
            CertificateMode::ServerCertificateHashes(hashes) => r matches Ok(c) && !uses_platform_roots(c)
                && pinned_hashes(c) == Some(digests(hashes@)) && trusted_roots(c) is None,
            CertificateMode::CustomCaCertificates(certificates) => match r {
                Ok(c) => custom_roots_accepted(certificates@) && !uses_platform_roots(c)
                    && trusted_roots(c) == Some(ders(certificates@)) && pinned_hashes(c) is None,
                Err(e) => custom_roots_error(certificates@, e),
            },
        },
{
    match mode {
        CertificateMode::NativeRoots => Ok(native_roots_config()),
        CertificateMode::ServerCertificateHashes(hashes) => Ok(certificate_hashes_config(hashes)),
        CertificateMode::CustomCaCertificates(certificates) => {
            let roots = custom_root_store(certificates)?;
            Ok(custom_roots_config(roots))
        },
    }
}

} // verus!
