//! Certbot stores a certificate under its apex name whether or not it was
//! requested as a wildcard: `*.example.com` and `example.com` both live in
//! `/etc/letsencrypt/live/example.com`. Every entry point that accepts a
//! domain normalizes through here so that both spellings behave the same.
use vstd::prelude::*;

use crate::text::{chars_of, is_ws, push_char, string_of_range, trim, trim_bounds, trim_end, trim_start};

verus! {

/// Whether `s` begins with `*.`.
pub open spec fn has_wildcard_prefix(s: Seq<char>) -> bool {
    s.len() >= 2 && s[0] == '*' && s[1] == '.'
}

/// `s.strip_prefix("*.").unwrap_or(s)`.
pub open spec fn strip_wildcard(s: Seq<char>) -> Seq<char> {
    if has_wildcard_prefix(s) {
        s.skip(2)
    } else {
        s
    }
}

/// The lineage name of a domain: trimmed, with one leading `*.` removed.
pub open spec fn cert_name_of(domain: Seq<char>) -> Seq<char> {
    strip_wildcard(trim(domain))
}

/// The characters `*.` followed by `s`.
pub open spec fn wildcard_of(s: Seq<char>) -> Seq<char> {
    seq!['*', '.'] + s
}

/// Whether `v` begins with `*.`.
pub fn starts_with_wildcard(v: &Vec<char>) -> (r: bool)
    ensures
        r == has_wildcard_prefix(v@),
{
    v.len() >= 2 && v[0] == '*' && v[1] == '.'
}

/// Normalize a domain to the name certbot files its certificate under.
pub fn normalize_cert_name(domain: &str) -> (r: String)
    ensures
        r@ == cert_name_of(domain@),
{
    let v = chars_of(domain);
    let (i, j) = trim_bounds(&v);
    if j - i >= 2 && v[i] == '*' && v[i + 1] == '.' {
        string_of_range(&v, i + 2, j)
    } else {
        string_of_range(&v, i, j)
    }
}

/// `*.` followed by `apex`, as a string.
pub fn wildcard_domain(apex: &str) -> (r: String)
    ensures
        r@ == wildcard_of(apex@),
{
    let mut r = String::new();
    push_char(&mut r, '*');
    push_char(&mut r, '.');
    r.append(apex);
    assert(r@ =~= wildcard_of(apex@));
    r
}

// ---------------------------------------------------------------------------
// Facts about trimming used by the laws below
// ---------------------------------------------------------------------------

/// What `trim_end` leaves is a prefix of its argument, and it ends with a
/// character that is not whitespace (or is empty).
pub proof fn lemma_trim_end_shape(s: Seq<char>)
    ensures
        trim_end(s).len() <= s.len(),
        trim_end(s) =~= s.take(trim_end(s).len() as int),
        trim_end(s).len() == 0 || !is_ws(trim_end(s).last()),
    decreases s.len(),
{
    if s.len() > 0 && is_ws(s.last()) {
        lemma_trim_end_shape(s.drop_last());
        assert(s.drop_last().take(trim_end(s).len() as int) =~= s.take(trim_end(s).len() as int));
    } else {
        assert(s.take(s.len() as int) =~= s);
    }
}

/// Trimming the end of `p + q` leaves `p` alone when `q` starts with a
/// character that is not whitespace.
pub proof fn lemma_trim_end_append(p: Seq<char>, q: Seq<char>)
    requires
        q.len() > 0,
        !is_ws(q[0]),
    ensures
        trim_end(p + q) == p + trim_end(q),
    decreases q.len(),
{
    if is_ws(q.last()) {
        assert(q.len() >= 2);
        assert((p + q).drop_last() =~= p + q.drop_last());
        lemma_trim_end_append(p, q.drop_last());
    } else {
        assert((p + q).last() == q.last());
    }
}

/// `trim` never leaves whitespace at either end.
pub proof fn lemma_trim_ends(s: Seq<char>)
    ensures
        trim(s).len() == 0 || (!is_ws(trim(s)[0]) && !is_ws(trim(s).last())),
{
    lemma_trim_start_shape(s);
    lemma_trim_end_shape(trim_start(s));
}

/// `trim_start` leaves an empty sequence or one that starts with a
/// character that is not whitespace.
pub proof fn lemma_trim_start_shape(s: Seq<char>)
    ensures
        trim_start(s).len() == 0 || !is_ws(trim_start(s)[0]),
    decreases s.len(),
{
    if s.len() > 0 && is_ws(s[0]) {
        lemma_trim_start_shape(s.drop_first());
    }
}

// ---------------------------------------------------------------------------
// Laws
// ---------------------------------------------------------------------------

/// The wildcard spelling of a lineage name normalizes back to that name:
/// for every domain `d`, `normalize("*." + normalize(d)) == normalize(d)`.
pub proof fn law_wildcard_of_cert_name(d: Seq<char>)
    ensures
        cert_name_of(wildcard_of(cert_name_of(d))) == cert_name_of(d),
{
    let t = trim(d);
    let n = cert_name_of(d);
    lemma_trim_ends(d);
    let w = wildcard_of(n);
    assert(!is_ws('*')) by {
        assert(('*' as u32) == 0x2A);
    }
    assert(!is_ws('.')) by {
        assert(('.' as u32) == 0x2E);
    }
    assert(trim_start(w) == w);
    if n.len() == 0 {
        assert(w =~= seq!['*', '.']);
        assert(trim_end(w) == w) by {
            assert(w.last() == '.');
        }
        assert(w.skip(2) =~= n);
    } else {
        assert(n.last() == t.last());
        assert(w.last() == n.last());
        assert(trim_end(w) == w);
        assert(w.skip(2) =~= n);
    }
}

/// The apex and wildcard spellings of a domain name the same lineage:
/// `normalize("*." + d) == normalize(d)` whenever `d` is empty or starts
/// with a character that is not whitespace and does not itself start with
/// `*.`.
pub proof fn law_wildcard_and_apex_agree(d: Seq<char>)
    requires
        d.len() == 0 || !is_ws(d[0]),
        !has_wildcard_prefix(d),
    ensures
        cert_name_of(wildcard_of(d)) == cert_name_of(d),
{
    let w = wildcard_of(d);
    assert(!is_ws('*')) by {
        assert(('*' as u32) == 0x2A);
    }
    assert(!is_ws('.')) by {
        assert(('.' as u32) == 0x2E);
    }
    assert(trim_start(w) == w);
    if d.len() == 0 {
        assert(w =~= seq!['*', '.']);
        assert(trim_end(w) == w) by {
            assert(w.last() == '.');
        }
        assert(trim(d) =~= d);
        assert(w.skip(2) =~= d);
    } else {
        assert(trim_start(d) == d);
        lemma_trim_end_append(seq!['*', '.'], d);
        lemma_trim_end_shape(d);
        let e = trim_end(d);
        assert(e.len() >= 1) by {
            if e.len() == 0 {
                assert(d.len() > 0);
                lemma_trim_end_nonempty(d);
            }
        }
        assert(e[0] == d[0]);
        assert(e.len() >= 2 ==> e[1] == d[1]);
        assert(!has_wildcard_prefix(e));
        assert((seq!['*', '.'] + e).skip(2) =~= e);
    }
}

/// `trim_end` keeps a first character that is not whitespace.
pub proof fn lemma_trim_end_nonempty(s: Seq<char>)
    requires
        s.len() > 0,
        !is_ws(s[0]),
    ensures
        trim_end(s).len() > 0,
    decreases s.len(),
{
    if is_ws(s.last()) {
        assert(s.len() >= 2);
        lemma_trim_end_nonempty(s.drop_last());
    }
}

} // verus!
