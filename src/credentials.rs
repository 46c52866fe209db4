use vstd::prelude::*;

verus! {

/// The DER blocks of the certificates in a PEM text, per rustls.
pub uninterp spec fn pem_certificates(pem: Seq<u8>) -> Option<Seq<Seq<u8>>>;

/// The DER blocks of the PKCS8 private keys in a PEM text, per rustls.
pub uninterp spec fn pem_pkcs8_keys(pem: Seq<u8>) -> Option<Seq<Seq<u8>>>;

pub open spec fn ders_view(v: Vec<Vec<u8>>) -> Seq<Seq<u8>> {
    v@.map_values(|d: Vec<u8>| d@)
}

/// Relies on rustls's pemfile::certs: the DER bytes of each block between
/// certificate markers, or failure where a block is not valid base64.
#[verifier::external_body]
fn read_pem_certificates(pem: &[u8]) -> (r: Option<Vec<Vec<u8>>>)
    ensures
        match r {
            Some(v) => pem_certificates(pem@) == Some(ders_view(v)),
            None => pem_certificates(pem@) is None,
        },
{
    let mut rd: &[u8] = pem;
    tokio_rustls::rustls::internal::pemfile::certs(&mut rd).ok().map(|v| v.into_iter().map(|c| c.0).collect())
}

/// Relies on rustls's pemfile::pkcs8_private_keys: the DER bytes of each
/// block between PKCS8 key markers, or failure where a block is not valid
/// base64.
#[verifier::external_body]
fn read_pem_pkcs8_keys(pem: &[u8]) -> (r: Option<Vec<Vec<u8>>>)
    ensures
        match r {
            Some(v) => pem_pkcs8_keys(pem@) == Some(ders_view(v)),
            None => pem_pkcs8_keys(pem@) is None,
        },
{
    let mut rd: &[u8] = pem;
    tokio_rustls::rustls::internal::pemfile::pkcs8_private_keys(&mut rd).ok().map(|v| v.into_iter().map(|k| k.0).collect())
}

/// Why credential material was refused.
#[derive(Clone, Copy, Debug, PartialEq, Eq, Structural)]
pub enum CredentialError {
    /// A PEM block could not be decoded.
    Malformed,
    /// A server was given no certificate.
    NoCertificate,
    /// A server was given no private key.
    NoKey,
}

pub open spec fn credential_spec(parsed: Option<Seq<Seq<u8>>>) -> Result<Seq<Seq<u8>>, CredentialError> {
    match parsed {
        None => Err(CredentialError::Malformed),
        Some(v) => Ok(v),
    }
}

pub open spec fn credential_view(r: Result<Vec<Vec<u8>>, CredentialError>) -> Result<Seq<Seq<u8>>, CredentialError> {
    match r {
        Ok(v) => Ok(ders_view(v)),
        Err(e) => Err(e),
    }
}

/// Accepts decoded PEM blocks, and refuses text that failed to decode.
pub fn check_blocks(parsed: Option<Vec<Vec<u8>>>) -> (r: Result<Vec<Vec<u8>>, CredentialError>)
    ensures
        credential_view(r) == credential_spec(
            match parsed {
                Some(v) => Some(ders_view(v)),
                None => None,
            },
        ),
{
    match parsed {
        None => Err(CredentialError::Malformed),
        Some(v) => Ok(v),
    }
}

/// The certificate chain in a PEM text, as DER blocks in file order.
pub fn decode_certificates(pem: &[u8]) -> (r: Result<Vec<Vec<u8>>, CredentialError>)
    ensures
        credential_view(r) == credential_spec(pem_certificates(pem@)),
{
    check_blocks(read_pem_certificates(pem))
}

/// The PKCS8 private keys in a PEM text, as DER blocks in file order.
pub fn decode_pkcs8_keys(pem: &[u8]) -> (r: Result<Vec<Vec<u8>>, CredentialError>)
    ensures
        credential_view(r) == credential_spec(pem_pkcs8_keys(pem@)),
{
    check_blocks(read_pem_pkcs8_keys(pem))
}

/// What a server presents: its whole certificate chain and the first of its
/// private keys. A server needs at least one certificate and one key.
pub fn server_credentials(certs: Vec<Vec<u8>>, keys: Vec<Vec<u8>>) -> (r: Result<(Vec<Vec<u8>>, Vec<u8>), CredentialError>)
    ensures
        certs@.len() == 0 ==> r == Err::<(Vec<Vec<u8>>, Vec<u8>), CredentialError>(CredentialError::NoCertificate),
        certs@.len() > 0 && keys@.len() == 0 ==> r == Err::<(Vec<Vec<u8>>, Vec<u8>), CredentialError>(
            CredentialError::NoKey,
        ),
        certs@.len() > 0 && keys@.len() > 0 ==> (r matches Ok((c, k)) && ders_view(c) == ders_view(certs) && k@
            == keys@[0]@),
{
    if certs.len() == 0 {
        return Err(CredentialError::NoCertificate);
    }
    let mut keys = keys;
    if keys.len() == 0 {
        return Err(CredentialError::NoKey);
    }
    let key = keys.remove(0);
    Ok((certs, key))
}

} // verus!
