//! Reading a lineage's full chain and private key from its live directory.
use vstd::prelude::*;

use crate::scripts::cert_name::{cert_name_of, normalize_cert_name};
use crate::scripts::file_read::{FileRead, FileReadView};
use crate::text::copy_str;

verus! {

/// The full chain of a domain's lineage (the domain normalized).
pub open spec fn fullchain_path_of(domain: Seq<char>) -> Seq<char> {
    "/etc/letsencrypt/live/"@ + cert_name_of(domain) + "/fullchain.pem"@
}

/// The private key of a domain's lineage (the domain normalized).
pub open spec fn private_key_path_of(domain: Seq<char>) -> Seq<char> {
    "/etc/letsencrypt/live/"@ + cert_name_of(domain) + "/privkey.pem"@
}

/// What reading a domain's full chain gives.
pub open spec fn fullchain_result(domain: Seq<char>, read: FileReadView) -> Result<Seq<char>, Seq<char>> {
    match read {
        FileReadView::Content(c) => Ok(c),
        FileReadView::NotFound => Err("Fullchain file not found for domain: "@ + domain),
        FileReadView::Failed(e) => Err("Failed to read fullchain file: "@ + e),
    }
}

/// What reading a domain's private key gives.
pub open spec fn private_key_result(domain: Seq<char>, read: FileReadView) -> Result<Seq<char>, Seq<char>> {
    match read {
        FileReadView::Content(c) => Ok(c),
        FileReadView::NotFound => Err("Private key file not found for domain: "@ + domain),
        FileReadView::Failed(e) => Err("Failed to read private key file: "@ + e),
    }
}

/// The model of a text result.
pub open spec fn string_result_view(r: Result<String, String>) -> Result<Seq<char>, Seq<char>> {
    match r {
        Ok(s) => Ok(s@),
        Err(e) => Err(e@),
    }
}

/// Where a domain's full chain lives.
pub fn fullchain_path(domain: &str) -> (r: String)
    ensures
        r@ == fullchain_path_of(domain@),
{
    let name = normalize_cert_name(domain);
    let mut r = copy_str("/etc/letsencrypt/live/");
    r.append(name.as_str());
    r.append("/fullchain.pem");
    r
}

/// Where a domain's private key lives.
pub fn private_key_path(domain: &str) -> (r: String)
    ensures
        r@ == private_key_path_of(domain@),
{
    let name = normalize_cert_name(domain);
    let mut r = copy_str("/etc/letsencrypt/live/");
    r.append(name.as_str());
    r.append("/privkey.pem");
    r
}

/// A domain's full chain, from what reading its file gave.
pub fn fullchain(domain: &str, read: FileRead) -> (r: Result<String, String>)
    ensures
        string_result_view(r) == fullchain_result(domain@, read@),
{
    match read {
        FileRead::Content(c) => Ok(c),
        FileRead::NotFound => {
            let mut m = copy_str("Fullchain file not found for domain: ");
            m.append(domain);
            Err(m)
        },
        FileRead::Failed(e) => {
            let mut m = copy_str("Failed to read fullchain file: ");
            m.append(e.as_str());
            Err(m)
        },
    }
}

/// A domain's private key, from what reading its file gave.
pub fn private_key(domain: &str, read: FileRead) -> (r: Result<String, String>)
    ensures
        string_result_view(r) == private_key_result(domain@, read@),
{
    match read {
        FileRead::Content(c) => Ok(c),
        FileRead::NotFound => {
            let mut m = copy_str("Private key file not found for domain: ");
            m.append(domain);
            Err(m)
        },
        FileRead::Failed(e) => {
            let mut m = copy_str("Failed to read private key file: ");
            m.append(e.as_str());
            Err(m)
        },
    }
}

} // verus!
