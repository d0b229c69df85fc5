//! Each lineage with the expiry date of its certificate, or why that could
//! not be read.
use vstd::prelude::*;

verus! {

/// A lineage and its certificate's expiry (RFC 3339), or the error reading
/// the certificate.
pub struct DomainExpiration {
    pub domain: String,
    pub expiration: Option<String>,
    pub error: Option<String>,
}

/// The entry for `domain`, from the result of reading its certificate's
/// expiry: exactly one of `expiration` and `error` is set.
pub fn domain_expiration(domain: String, expires: Result<String, String>) -> (r: DomainExpiration)
    ensures
        r.domain@ == domain@,
        match expires {
            Ok(x) => r.expiration matches Some(y) && y@ == x@ && r.error is None,
            Err(e) => r.error matches Some(y) && y@ == e@ && r.expiration is None,
        },
{
    match expires {
        Ok(x) => DomainExpiration { domain, expiration: Some(x), error: None },
        Err(e) => DomainExpiration { domain, expiration: None, error: Some(e) },
    }
}

} // verus!
