//! The ACME HTTP-01 challenge files certbot writes into the webroot
//! (`<webroot>/.well-known/acme-challenge/<token>`): serving one by token,
//! and listing those present while an issuance is mid-validation.
use vstd::prelude::*;

use crate::scripts::file_read::{FileRead, FileReadView};
use crate::scripts::init_http_01::DEFAULT_HTTP_01_WEBROOT;
use crate::text::{chars_of, copy_str, lemma_lex_total, lemma_lex_trans, lex_le, str_le, trim_end, trim_end_str};

verus! {

/// Whether `c` may appear in an ACME token: tokens are base64url
/// (RFC 8555), `[A-Za-z0-9_-]`.
pub open spec fn is_token_char(c: char) -> bool {
    ||| ('a' <= c <= 'z')
    ||| ('A' <= c <= 'Z')
    ||| ('0' <= c <= '9')
    ||| c == '-'
    ||| c == '_'
}

/// Whether `t` is a well-formed token; anything else could escape the
/// challenge directory and is never read.
pub open spec fn is_valid_token(t: Seq<char>) -> bool {
    t.len() > 0 && forall|i: int| 0 <= i < t.len() ==> is_token_char(#[trigger] t[i])
}

/// The challenge directory under the default webroot.
pub open spec fn challenge_dir_of() -> Seq<char> {
    "/var/www/acme"@ + "/.well-known/acme-challenge"@
}

/// The file a token's challenge lives in.
pub open spec fn challenge_path_of(token: Seq<char>) -> Seq<char> {
    challenge_dir_of() + "/"@ + token
}

/// Whether `token` is a well-formed ACME token.
pub fn is_acme_token(token: &str) -> (r: bool)
    ensures
        r == is_valid_token(token@),
{
    let v = chars_of(token);
    if v.len() == 0 {
        return false;
    }
    let mut i: usize = 0;
    while i < v.len()
        invariant
            i <= v.len(),
            v@ == token@,
            forall|j: int| 0 <= j < i ==> is_token_char(#[trigger] v@[j]),
        decreases v.len() - i,
    {
        let c = v[i];
        if !(('a' <= c && c <= 'z') || ('A' <= c && c <= 'Z') || ('0' <= c && c <= '9') || c == '-'
            || c == '_') {
            assert(!is_token_char(v@[i as int]));
            return false;
        }
        i = i + 1;
    }
    true
}

/// The challenge directory under the default webroot.
pub fn challenge_dir() -> (r: String)
    ensures
        r@ == challenge_dir_of(),
{
    let mut r = copy_str(DEFAULT_HTTP_01_WEBROOT);
    r.append("/.well-known/acme-challenge");
    r
}

/// The file to read for `token`, or `None` for a malformed token (which is
/// answered as "no such challenge" without touching the file system).
pub fn challenge_file(token: &str) -> (r: Option<String>)
    ensures
        match r {
            Some(p) => is_valid_token(token@) && p@ == challenge_path_of(token@),
            None => !is_valid_token(token@),
        },
{
    if !is_acme_token(token) {
        return None;
    }
    let mut p = challenge_dir();
    p.append("/");
    p.append(token);
    Some(p)
}

/// A well-formed token can never lead out of the challenge directory: it
/// holds neither a path separator nor a dot, so the file a token names is a
/// direct child of the directory, and never `.` or `..`.
pub proof fn law_token_stays_in_challenge_dir(token: Seq<char>)
    requires
        is_valid_token(token),
    ensures
        forall|i: int| 0 <= i < token.len() ==> #[trigger] token[i] != '/' && token[i] != '.',
        challenge_path_of(token) == challenge_dir_of() + "/"@ + token,
{
    assert forall|i: int| 0 <= i < token.len() implies #[trigger] token[i] != '/' && token[i] != '.' by {
        assert(is_token_char(token[i]));
    }
}

/// What reading a challenge file gives: its contents, `None` when there is
/// no such challenge, or an error.
pub open spec fn challenge_read_result(path: Seq<char>, read: FileReadView) -> Result<
    Option<Seq<char>>,
    Seq<char>,
> {
    match read {
        FileReadView::Content(c) => Ok(Some(c)),
        FileReadView::NotFound => Ok(None),
        FileReadView::Failed(e) => Err("Failed to read "@ + path + ": "@ + e),
    }
}

/// The result of reading the challenge file at `path`.
pub fn challenge_contents(path: &str, read: FileRead) -> (r: Result<Option<String>, String>)
    ensures
        match r {
            Ok(Some(c)) => challenge_read_result(path@, read@) == Ok::<Option<Seq<char>>, Seq<char>>(
                Some(c@),
            ),
            Ok(None) => challenge_read_result(path@, read@) == Ok::<Option<Seq<char>>, Seq<char>>(
                None,
            ),
            Err(e) => challenge_read_result(path@, read@) == Err::<Option<Seq<char>>, Seq<char>>(
                e@,
            ),
        },
{
    match read {
        FileRead::Content(c) => Ok(Some(c)),
        FileRead::NotFound => Ok(None),
        FileRead::Failed(e) => {
            let mut m = copy_str("Failed to read ");
            m.append(path);
            m.append(": ");
            m.append(e.as_str());
            Err(m)
        },
    }
}

/// A challenge present in the webroot: the token (the file name, the last
/// URL segment) and its contents (the key authorization).
pub struct AcmeChallenge {
    pub token: String,
    pub content: String,
}

/// The model of an [`AcmeChallenge`].
pub struct AcmeChallengeView {
    pub token: Seq<char>,
    pub content: Seq<char>,
}

impl View for AcmeChallenge {
    type V = AcmeChallengeView;

    open spec fn view(&self) -> AcmeChallengeView {
        AcmeChallengeView { token: self.token@, content: self.content@ }
    }
}

impl AcmeChallenge {
    /// A copy of the challenge.
    pub fn duplicate(&self) -> (r: AcmeChallenge)
        ensures
            r@ == self@,
    {
        AcmeChallenge { token: self.token.clone(), content: self.content.clone() }
    }
}

/// An entry of the challenge directory: its name, whether it is a regular
/// file, and its text if it is one and could be read.
pub struct ChallengeEntry {
    pub name: String,
    pub is_file: bool,
    pub content: Option<String>,
}

/// The listing of the challenge directory.
pub enum ChallengeListing {
    /// The entries (those whose names are valid UTF-8).
    Entries(Vec<ChallengeEntry>),
    /// The directory does not exist.
    NotFound,
    /// The directory could not be opened; the error's text.
    Failed(String),
    /// Reading an entry failed part-way; the error's text.
    EntryFailed(String),
}

/// The model of a [`ChallengeEntry`]: name, whether a file, and text.
pub open spec fn entry_view(e: ChallengeEntry) -> (Seq<char>, bool, Option<Seq<char>>) {
    (
        e.name@,
        e.is_file,
        match e.content {
            Some(c) => Some(c@),
            None => None,
        },
    )
}

/// The challenge an entry stands for: its name, and its text with trailing
/// whitespace removed (empty when it could not be read).
pub open spec fn challenge_of_entry(e: (Seq<char>, bool, Option<Seq<char>>)) -> AcmeChallengeView {
    AcmeChallengeView {
        token: e.0,
        content: match e.2 {
            Some(c) => trim_end(c),
            None => trim_end(Seq::empty()),
        },
    }
}

/// The challenges a list of entries holds: one per regular file, in order.
pub open spec fn challenges_of(es: Seq<(Seq<char>, bool, Option<Seq<char>>)>) -> Seq<AcmeChallengeView>
    decreases es.len(),
{
    if es.len() == 0 {
        seq![]
    } else {
        let r = challenges_of(es.drop_last());
        if es.last().1 {
            r.push(challenge_of_entry(es.last()))
        } else {
            r
        }
    }
}

/// Whether `cs` is in ascending token order.
pub open spec fn sorted_by_token(cs: Seq<AcmeChallengeView>) -> bool {
    forall|i: int, j: int| 0 <= i < j < cs.len() ==> lex_le(cs[i].token, cs[j].token)
}

/// The models of a list of challenges.
pub open spec fn challenges_view(v: Seq<AcmeChallenge>) -> Seq<AcmeChallengeView> {
    v.map_values(|c: AcmeChallenge| c@)
}

/// `challenges` sorted by token (`sort_by` on the token).
pub fn sort_challenges(v: Vec<AcmeChallenge>) -> (r: Vec<AcmeChallenge>)
    ensures
        sorted_by_token(challenges_view(r@)),
        challenges_view(r@).to_multiset() == challenges_view(v@).to_multiset(),
{
    broadcast use vstd::seq_lib::group_to_multiset_ensures;

    let ghost all = challenges_view(v@);
    let n = v.len();
    let mut r: Vec<AcmeChallenge> = Vec::new();
    let mut i: usize = 0;
    assert(all.take(0) =~= Seq::<AcmeChallengeView>::empty());
    assert(challenges_view(r@) =~= Seq::<AcmeChallengeView>::empty());
    while i < n
        invariant
            n == v.len(),
            i <= n,
            n == all.len(),
            all == challenges_view(v@),
            sorted_by_token(challenges_view(r@)),
            challenges_view(r@).to_multiset() == all.take(i as int).to_multiset(),
        decreases n - i,
    {
        let x = v[i].duplicate();
        assert(x@ == all[i as int]);
        let mut p: usize = 0;
        while p < r.len() && str_le(r[p].token.as_str(), x.token.as_str())
            invariant
                p <= r.len(),
                x@ == all[i as int],
                i < n,
                n == all.len(),
                sorted_by_token(challenges_view(r@)),
                challenges_view(r@).to_multiset() == all.take(i as int).to_multiset(),
                forall|j: int| 0 <= j < p ==> lex_le(#[trigger] r@[j].token@, x.token@),
            decreases r.len() - p,
        {
            p = p + 1;
        }
        let ghost old_r = challenges_view(r@);
        assert(forall|j: int| 0 <= j < r@.len() ==> #[trigger] old_r[j] == r@[j]@);
        proof {
            if p < r.len() {
                lemma_lex_total(old_r[p as int].token, x.token@);
                assert forall|j: int| p <= j < old_r.len() implies lex_le(
                    x.token@,
                    #[trigger] old_r[j].token,
                ) by {
                    if j > p {
                        lemma_lex_trans(x.token@, old_r[p as int].token, old_r[j].token);
                    }
                }
            }
        }
        r.insert(p, x);
        proof {
            let nr = challenges_view(r@);
            assert(nr =~= old_r.insert(p as int, all[i as int]));
            vstd::seq_lib::to_multiset_insert(old_r, p as int, all[i as int]);
            assert(all.take(i + 1) =~= all.take(i as int).push(all[i as int]));
            vstd::seq_lib::to_multiset_build(all.take(i as int), all[i as int]);
            assert forall|a: int, b: int| 0 <= a < b < nr.len() implies lex_le(
                nr[a].token,
                nr[b].token,
            ) by {
                if a < p && b < p {
                    assert(nr[a] == old_r[a] && nr[b] == old_r[b]);
                } else if a < p && b == p {
                    assert(nr[a] == old_r[a]);
                } else if a < p && b > p {
                    assert(nr[a] == old_r[a] && nr[b] == old_r[b - 1]);
                    lemma_lex_trans(old_r[a].token, x.token@, old_r[b - 1].token);
                } else if a == p {
                    assert(nr[b] == old_r[b - 1]);
                } else {
                    assert(nr[a] == old_r[a - 1] && nr[b] == old_r[b - 1]);
                }
            }
        }
        i = i + 1;
    }
    assert(all.take(n as int) =~= all);
    r
}

/// What listing the challenge directory `dir` gives: the challenges, or an
/// error; a missing directory means there are none.
pub open spec fn listing_outcome_ok(
    listing: ChallengeListing,
    r: Seq<AcmeChallengeView>,
) -> bool {
    match listing {
        ChallengeListing::NotFound => r.len() == 0,
        ChallengeListing::Entries(es) => {
            &&& sorted_by_token(r)
            &&& r.to_multiset() == challenges_of(es@.map_values(|e: ChallengeEntry| entry_view(e))).to_multiset()
        },
        _ => false,
    }
}

/// The error a listing of `dir` fails with.
pub open spec fn listing_error(dir: Seq<char>, listing: ChallengeListing) -> Option<Seq<char>> {
    match listing {
        ChallengeListing::Failed(e) => Some("Failed to read "@ + dir + ": "@ + e@),
        ChallengeListing::EntryFailed(e) => Some("Failed to read directory entry: "@ + e@),
        _ => None,
    }
}

/// The challenges a listing of the challenge directory `dir` holds, sorted
/// by token.
pub fn challenges_from_listing(dir: &str, listing: ChallengeListing) -> (r: Result<
    Vec<AcmeChallenge>,
    String,
>)
    ensures
        match r {
            Ok(v) => listing_error(dir@, listing) is None && listing_outcome_ok(
                listing,
                challenges_view(v@),
            ),
            Err(e) => listing_error(dir@, listing) == Some(e@),
        },
{
    match listing {
        ChallengeListing::NotFound => {
            let v: Vec<AcmeChallenge> = Vec::new();
            assert(challenges_view(v@) =~= Seq::<AcmeChallengeView>::empty());
            Ok(v)
        },
        ChallengeListing::Failed(e) => {
            let mut m = copy_str("Failed to read ");
            m.append(dir);
            m.append(": ");
            m.append(e.as_str());
            Err(m)
        },
        ChallengeListing::EntryFailed(e) => {
            let mut m = copy_str("Failed to read directory entry: ");
            m.append(e.as_str());
            Err(m)
        },
        ChallengeListing::Entries(es) => {
            let ghost all = es@.map_values(|e: ChallengeEntry| entry_view(e));
            let mut found: Vec<AcmeChallenge> = Vec::new();
            let mut i: usize = 0;
            assert(all.take(0) =~= Seq::<(Seq<char>, bool, Option<Seq<char>>)>::empty());
            assert(challenges_view(found@) =~= Seq::<AcmeChallengeView>::empty());
            while i < es.len()
                invariant
                    i <= es.len(),
                    all == es@.map_values(|e: ChallengeEntry| entry_view(e)),
                    challenges_view(found@) == challenges_of(all.take(i as int)),
                decreases es.len() - i,
            {
                assert(all.take(i + 1).drop_last() =~= all.take(i as int));
                assert(all.take(i + 1).last() == entry_view(es@[i as int]));
                let e = &es[i];
                if e.is_file {
                    let content = match &e.content {
                        Some(c) => trim_end_str(c.as_str()),
                        None => trim_end_str(""),
                    };
                    proof {
                        reveal_strlit("");
                        assert(""@ =~= Seq::<char>::empty());
                    }
                    let ch = AcmeChallenge { token: e.name.clone(), content };
                    let ghost before = challenges_view(found@);
                    found.push(ch);
                    assert(challenges_view(found@) =~= before.push(ch@));
                }
                i = i + 1;
            }
            assert(all.take(es.len() as int) =~= all);
            Ok(sort_challenges(found))
        },
    }
}

} // verus!
