use vstd::prelude::*;
use std::sync::Arc;

verus! {

#[verifier::external_type_specification]
#[verifier::external_body]
pub struct ExServerConfig(rustls::ServerConfig);

#[verifier::external_type_specification]
#[verifier::external_body]
pub struct ExTlsError(rustls::Error);

#[verifier::external_type_specification]
#[verifier::external_body]
pub struct ExIoError(std::io::Error);

/// The DER contents of the certificate sections of a PEM text, in order; `None` when a
/// section is malformed.
pub uninterp spec fn pem_certificates(pem: Seq<u8>) -> Option<Seq<Seq<u8>>>;

/// The DER contents of the PKCS8 private key sections of a PEM text, in order; `None` when a
/// section is malformed.
pub uninterp spec fn pem_pkcs8_keys(pem: Seq<u8>) -> Option<Seq<Seq<u8>>>;

/// Whether ring accepts a DER private key as one of the key types rustls can sign with.
pub uninterp spec fn key_accepted(key: Seq<u8>) -> bool;

/// The contents of a list of byte vectors.
pub open spec fn der_views(v: Seq<Vec<u8>>) -> Seq<Seq<u8>> {
    v.map_values(|c: Vec<u8>| c@)
}

/// Relies on `rustls_pemfile::certs`: the certificate sections of the PEM text, read from
/// memory, so the outcome depends on the bytes alone.
#[verifier::external_body]
fn read_pem_certs(pem: &[u8]) -> (r: Result<Vec<Vec<u8>>, std::io::Error>)
    ensures
        match r {
            Ok(v) => pem_certificates(pem@) == Some(der_views(v@)),
            Err(_) => pem_certificates(pem@) is None,
        },
{
    let mut rd = pem;
    rustls_pemfile::certs(&mut rd)
}

/// Relies on `rustls_pemfile::pkcs8_private_keys`: the PKCS8 key sections of the PEM text,
/// read from memory, so the outcome depends on the bytes alone.
#[verifier::external_body]
fn read_pem_pkcs8_keys(pem: &[u8]) -> (r: Result<Vec<Vec<u8>>, std::io::Error>)
    ensures
        match r {
            Ok(v) => pem_pkcs8_keys(pem@) == Some(der_views(v@)),
            Err(_) => pem_pkcs8_keys(pem@) is None,
        },
{
    let mut rd = pem;
    rustls_pemfile::pkcs8_private_keys(&mut rd)
}

/// Relies on rustls's `ServerConfig::builder()` with safe defaults, no client authentication
/// and `with_single_cert`, which succeeds only when ring accepts the key (it may also fail for
/// other reasons, such as the system random source).
#[verifier::external_body]
fn single_cert_config(chain: Vec<Vec<u8>>, key: Vec<u8>) -> (r: Result<
    rustls::ServerConfig,
    rustls::Error,
>)
    ensures
        r is Ok ==> key_accepted(key@),
{
    rustls::ServerConfig::builder()
        .with_safe_defaults()
        .with_no_client_auth()
        .with_single_cert(
            chain.into_iter().map(rustls::Certificate).collect(),
            rustls::PrivateKey(key),
        )
}

/// Why the TLS context could not be built.
#[derive(Clone, Copy, Debug, PartialEq, Eq, Structural)]
pub enum TlsError {
    /// The certificate file is not well-formed PEM.
    Certificates,
    /// The key file is not well-formed PEM.
    PrivateKey,
    /// The key file holds no PKCS8 private key.
    NoPrivateKey,
    /// rustls refused the certificate chain and key.
    Rejected,
}

/// The description of each TLS setup error.
pub open spec fn tls_error_text(e: TlsError) -> Seq<char> {
    match e {
        TlsError::Certificates => "Failed to read certificates"@,
        TlsError::PrivateKey => "Failed to read private key"@,
        TlsError::NoPrivateKey => "No private key found"@,
        TlsError::Rejected => "Failed to configure TLS"@,
    }
}

impl TlsError {
    /// A description for the startup failure message.
    pub fn message(&self) -> (r: &'static str)
        ensures
            r@ == tls_error_text(*self),
    {
        match self {
            TlsError::Certificates => "Failed to read certificates",
            TlsError::PrivateKey => "Failed to read private key",
            TlsError::NoPrivateKey => "No private key found",
            TlsError::Rejected => "Failed to configure TLS",
        }
    }
}

/// The certificate chain (DER) in the PEM text `pem`.
pub fn load_certs(pem: &[u8]) -> (r: Result<Vec<Vec<u8>>, TlsError>)
    ensures
        match (r, pem_certificates(pem@)) {
            (Ok(v), Some(c)) => der_views(v@) == c,
            (Err(e), None) => e == TlsError::Certificates,
            _ => false,
        },
{
    match read_pem_certs(pem) {
        Ok(v) => Ok(v),
        Err(_) => Err(TlsError::Certificates),
    }
}

/// The first PKCS8 private key (DER) in the PEM text `pem`.
pub fn load_private_key(pem: &[u8]) -> (r: Result<Vec<u8>, TlsError>)
    ensures
        match (r, pem_pkcs8_keys(pem@)) {
            (Ok(k), Some(keys)) => keys.len() > 0 && k@ == keys[0],
            (Err(e), None) => e == TlsError::PrivateKey,
            (Err(e), Some(keys)) => keys.len() == 0 && e == TlsError::NoPrivateKey,
            _ => false,
        },
{
    match read_pem_pkcs8_keys(pem) {
        Ok(mut keys) => {
            if keys.len() == 0 {
                Err(TlsError::NoPrivateKey)
            } else {
                let k = keys.swap_remove(0);
                Ok(k)
            }
        },
        Err(_) => Err(TlsError::PrivateKey),
    }
}

/// The error that reading the PEM texts `cert` and `key` meets first, if any.
pub open spec fn pem_outcome(cert: Seq<u8>, key: Seq<u8>) -> Option<TlsError> {
    match (pem_certificates(cert), pem_pkcs8_keys(key)) {
        (None, _) => Some(TlsError::Certificates),
        (Some(_), None) => Some(TlsError::PrivateKey),
        (Some(_), Some(keys)) => if keys.len() == 0 {
            Some(TlsError::NoPrivateKey)
        } else {
            None
        },
    }
}

/// The first PKCS8 private key of the PEM text `key` (empty when it has none).
pub open spec fn first_pem_key(key: Seq<u8>) -> Seq<u8> {
    match pem_pkcs8_keys(key) {
        Some(keys) => if keys.len() > 0 {
            keys[0]
        } else {
            Seq::empty()
        },
        None => Seq::empty(),
    }
}

/// The server's TLS context, from the PEM texts of its certificate chain and private key: the
/// whole chain and the first PKCS8 key of the key text go to rustls, and its refusal becomes
/// `Rejected`.
pub fn configure_tls(cert_pem: &[u8], key_pem: &[u8]) -> (r: Result<
    Arc<rustls::ServerConfig>,
    TlsError,
>)
    ensures
        match pem_outcome(cert_pem@, key_pem@) {
            Some(e) => r == Err::<Arc<rustls::ServerConfig>, TlsError>(e),
            None => match r {
                Ok(_) => key_accepted(first_pem_key(key_pem@)),
                Err(e) => e == TlsError::Rejected,
            },
        },
{
    let chain = match load_certs(cert_pem) {
        Ok(c) => c,
        Err(e) => return Err(e),
    };
    let key = match load_private_key(key_pem) {
        Ok(k) => k,
        Err(e) => return Err(e),
    };
    match single_cert_config(chain, key) {
        Ok(config) => Ok(Arc::new(config)),
        Err(_) => Err(TlsError::Rejected),
    }
}

} // verus!
