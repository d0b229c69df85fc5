//! Certbot records how a certificate was issued in
//! `/etc/letsencrypt/renewal/<cert-name>.conf`, section `[renewalparams]`,
//! key `authenticator` (`webroot`, `dns-cloudflare`, `standalone`, ...). That
//! file is the single source of truth for which challenge method owns a
//! lineage; `certbot renew` reads the same file.
use vstd::prelude::*;

use crate::scripts::file_read::{FileRead, FileReadView};
use crate::scripts::prepare_error::{CertbotPrepareError, PrepareErrorView};
use crate::text::{
    chars_of, copy_str, lemma_find_char, lines, lines_of, position_of, split_once, string_of_range,
    strs, trim, trim_str,
};

verus! {

/// The path of a lineage's renewal config.
pub open spec fn renewal_config_path_of(cert_name: Seq<char>) -> Seq<char> {
    "/etc/letsencrypt/renewal/"@ + cert_name + ".conf"@
}

/// The authenticator a single config line names: `authenticator = <value>`,
/// with whitespace around the key and value ignored; comment lines (starting
/// with `#` once trimmed) name none.
pub open spec fn authenticator_in_line(line: Seq<char>) -> Option<Seq<char>> {
    let t = trim(line);
    if t.len() > 0 && t[0] == '#' {
        None
    } else {
        match split_once(t, '=') {
            Some((key, value)) => if trim(key) == "authenticator"@ {
                Some(trim(value))
            } else {
                None
            },
            None => None,
        }
    }
}

/// The authenticator named by the first line of `ls` that names one.
pub open spec fn authenticator_in(ls: Seq<Seq<char>>) -> Option<Seq<char>>
    decreases ls.len(),
{
    if ls.len() == 0 {
        None
    } else {
        match authenticator_in(ls.drop_last()) {
            Some(a) => Some(a),
            None => authenticator_in_line(ls.last()),
        }
    }
}

/// The error for a renewal config that could not be read.
pub open spec fn read_failed_message(path: Seq<char>, error: Seq<char>) -> Seq<char> {
    "Failed to read "@ + path + ": "@ + error
}

/// The error for a renewal config that names no authenticator.
pub open spec fn no_authenticator_message(path: Seq<char>) -> Seq<char> {
    "Renewal config "@ + path + " has no 'authenticator' entry"@
}

/// What a lineage's renewal config says about its authenticator:
/// - `Ok(None)` when the config does not exist (the lineage was never issued);
/// - `Ok(Some(a))` when it exists and names `a`;
/// - `Err(Io)` when it could not be read, or exists but names no
///   authenticator. A config that could not be understood must never pass a
///   no-clobber guard as "no config".
pub open spec fn renewal_lookup(path: Seq<char>, read: FileReadView) -> Result<
    Option<Seq<char>>,
    PrepareErrorView,
> {
    match read {
        FileReadView::NotFound => Ok(None),
        FileReadView::Failed(e) => Err(PrepareErrorView::Io(read_failed_message(path, e))),
        FileReadView::Content(c) => match authenticator_in(lines(c)) {
            Some(a) => Ok(Some(a)),
            None => Err(PrepareErrorView::Io(no_authenticator_message(path))),
        },
    }
}

/// The model of a lookup result as a caller holds it.
pub open spec fn lookup_view(r: Result<Option<String>, CertbotPrepareError>) -> Result<
    Option<Seq<char>>,
    PrepareErrorView,
> {
    match r {
        Ok(Some(a)) => Ok(Some(a@)),
        Ok(None) => Ok(None),
        Err(e) => Err(e@),
    }
}

/// The path of `cert_name`'s renewal config.
pub fn renewal_config_path(cert_name: &str) -> (r: String)
    ensures
        r@ == renewal_config_path_of(cert_name@),
{
    let mut r = copy_str("/etc/letsencrypt/renewal/");
    r.append(cert_name);
    r.append(".conf");
    r
}

/// The authenticator a single config line names.
pub fn parse_authenticator_line(line: &str) -> (r: Option<String>)
    ensures
        match r {
            Some(a) => authenticator_in_line(line@) == Some(a@),
            None => authenticator_in_line(line@) is None,
        },
{
    let t = trim_str(line);
    let v = chars_of(t.as_str());
    if v.len() > 0 && v[0] == '#' {
        return None;
    }
    match position_of(&v, '=') {
        None => None,
        Some(k) => {
            proof {
                lemma_find_char(v@, '=');
            }
            let key_raw = string_of_range(&v, 0, k);
            assert(key_raw@ =~= v@.take(k as int));
            let key = trim_str(key_raw.as_str());
            let expected = copy_str("authenticator");
            if key == expected {
                let value_raw = string_of_range(&v, k + 1, v.len());
                assert(value_raw@ =~= v@.skip(k + 1));
                Some(trim_str(value_raw.as_str()))
            } else {
                None
            }
        },
    }
}

/// The authenticator named by the first line of a renewal config that names
/// one.
pub fn parse_renewal_authenticator(content: &str) -> (r: Option<String>)
    ensures
        match r {
            Some(a) => authenticator_in(lines(content@)) == Some(a@),
            None => authenticator_in(lines(content@)) is None,
        },
{
    let ls = lines_of(content);
    let ghost all = strs(ls@);
    let mut i: usize = 0;
    assert(all.take(0) =~= Seq::<Seq<char>>::empty());
    while i < ls.len()
        invariant
            i <= ls.len(),
            all == strs(ls@),
            all == lines(content@),
            authenticator_in(all.take(i as int)) is None,
        decreases ls.len() - i,
    {
        assert(all.take(i + 1).drop_last() =~= all.take(i as int));
        assert(all.take(i + 1).last() == ls@[i as int]@);
        match parse_authenticator_line(ls[i].as_str()) {
            Some(a) => {
                proof {
                    lemma_authenticator_prefix(all, i + 1);
                }
                return Some(a);
            },
            None => {},
        }
        i = i + 1;
    }
    assert(all.take(ls.len() as int) =~= all);
    None
}

/// A line found in a prefix of the config is the one the whole config names.
pub proof fn lemma_authenticator_prefix(ls: Seq<Seq<char>>, n: int)
    requires
        0 <= n <= ls.len(),
        authenticator_in(ls.take(n)) is Some,
    ensures
        authenticator_in(ls) == authenticator_in(ls.take(n)),
    decreases ls.len() - n,
{
    if n < ls.len() {
        assert(ls.take(n + 1).drop_last() =~= ls.take(n));
        lemma_authenticator_prefix(ls, n + 1);
    } else {
        assert(ls.take(n) =~= ls);
    }
}

/// What the read of the renewal config at `path` says about the lineage's
/// authenticator.
pub fn renewal_authenticator(path: &str, read: FileRead) -> (r: Result<
    Option<String>,
    CertbotPrepareError,
>)
    ensures
        lookup_view(r) == renewal_lookup(path@, read@),
{
    match read {
        FileRead::NotFound => Ok(None),
        FileRead::Failed(e) => {
            let mut m = copy_str("Failed to read ");
            m.append(path);
            m.append(": ");
            m.append(e.as_str());
            Err(CertbotPrepareError::Io(m))
        },
        FileRead::Content(c) => match parse_renewal_authenticator(c.as_str()) {
            Some(a) => Ok(Some(a)),
            None => {
                let mut m = copy_str("Renewal config ");
                m.append(path);
                m.append(" has no 'authenticator' entry");
                Err(CertbotPrepareError::Io(m))
            },
        },
    }
}

} // verus!
