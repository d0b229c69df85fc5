//! Repairing a certbot live directory. Certbot requires every `*.pem` in
//! `/etc/letsencrypt/live/<name>/` to be a symlink into
//! `../../archive/<name>/`; when they were replaced by regular files (a copy
//! without `-a`, `scp`, `docker cp`) it refuses to renew. The repair moves
//! regular files aside into a backup directory and recreates the symlinks to
//! the latest archive version.
//!
//! The repair alternates file-system work and decisions, so it is a state
//! machine: [`SymlinkRepair::start`] and [`SymlinkRepair::step`] decide, from
//! what the last file-system operation reported, what to do next.
use vstd::prelude::*;

use crate::scripts::cert_name::{cert_name_of, normalize_cert_name};
use crate::text::{
    chars_of, copy_str, decimal, parse_u32, parse_u32_range, push_decimal, string_of_range, strs,
};

verus! {

// ---------------------------------------------------------------------------
// Reports
// ---------------------------------------------------------------------------

/// What the repair did to one file of the live directory.
pub struct FixedFile {
    pub file: String,
    pub action: String,
    pub backup_path: Option<String>,
}

/// The model of a [`FixedFile`].
pub struct FixedFileView {
    pub file: Seq<char>,
    pub action: Seq<char>,
    pub backup_path: Option<Seq<char>>,
}

impl View for FixedFile {
    type V = FixedFileView;

    open spec fn view(&self) -> FixedFileView {
        FixedFileView {
            file: self.file@,
            action: self.action@,
            backup_path: match self.backup_path {
                Some(p) => Some(p@),
                None => None,
            },
        }
    }
}

/// The report of a finished repair.
pub struct FixSymlinksResult {
    /// The lineage name (the domain normalized: trimmed, wildcard prefix stripped).
    pub domain: String,
    /// The archive version `N` the links now point to (`certN.pem`, ...).
    pub archive_version: u32,
    pub files: Vec<FixedFile>,
}

/// The model of a [`FixSymlinksResult`].
pub struct FixResultView {
    pub domain: Seq<char>,
    pub archive_version: u32,
    pub files: Seq<FixedFileView>,
}

/// The models of a list of file reports.
pub open spec fn files_view(v: Seq<FixedFile>) -> Seq<FixedFileView> {
    v.map_values(|f: FixedFile| f@)
}

impl View for FixSymlinksResult {
    type V = FixResultView;

    open spec fn view(&self) -> FixResultView {
        FixResultView {
            domain: self.domain@,
            archive_version: self.archive_version,
            files: files_view(self.files@),
        }
    }
}

// ---------------------------------------------------------------------------
// Paths
// ---------------------------------------------------------------------------

/// The four files of a lineage, in the order they are handled.
pub open spec fn kind_of(k: int) -> Seq<char> {
    if k == 0 {
        "cert"@
    } else if k == 1 {
        "chain"@
    } else if k == 2 {
        "fullchain"@
    } else {
        "privkey"@
    }
}

/// The number of files a lineage has.
pub const CERT_FILE_COUNT: usize = 4;

/// The name of file `k`.
pub fn cert_kind(k: usize) -> (r: &'static str)
    requires
        k < CERT_FILE_COUNT,
    ensures
        r@ == kind_of(k as int),
{
    if k == 0 {
        "cert"
    } else if k == 1 {
        "chain"
    } else if k == 2 {
        "fullchain"
    } else {
        "privkey"
    }
}

/// `/etc/letsencrypt/archive/<name>`.
pub open spec fn archive_dir_of(c: Seq<char>) -> Seq<char> {
    "/etc/letsencrypt/archive/"@ + c
}

/// `/etc/letsencrypt/live/<name>`.
pub open spec fn live_dir_of(c: Seq<char>) -> Seq<char> {
    "/etc/letsencrypt/live/"@ + c
}

/// `/etc/letsencrypt/broken-live-backup/<name>`.
pub open spec fn backup_dir_of(c: Seq<char>) -> Seq<char> {
    "/etc/letsencrypt/broken-live-backup/"@ + c
}

/// `<kind><version>.pem`.
pub open spec fn versioned_name(k: int, v: u32) -> Seq<char> {
    kind_of(k) + decimal(v as nat) + ".pem"@
}

/// The archive file of kind `k` and version `v`.
pub open spec fn archive_file_of(c: Seq<char>, k: int, v: u32) -> Seq<char> {
    archive_dir_of(c) + "/"@ + versioned_name(k, v)
}

/// `<kind>.pem`.
pub open spec fn file_name_of(k: int) -> Seq<char> {
    kind_of(k) + ".pem"@
}

/// The live path of file `k`.
pub open spec fn live_path_of(c: Seq<char>, k: int) -> Seq<char> {
    live_dir_of(c) + "/"@ + file_name_of(k)
}

/// The target the live link of file `k` must have: relative, into the
/// lineage's archive directory.
pub open spec fn link_target_of(c: Seq<char>, k: int, v: u32) -> Seq<char> {
    "../../archive/"@ + c + "/"@ + versioned_name(k, v)
}

/// The `n`-th name tried for the backup of file `k`: the file name itself,
/// then the file name with `.1`, `.2`, ... appended.
pub open spec fn backup_candidate_of(c: Seq<char>, k: int, n: u32) -> Seq<char> {
    backup_dir_of(c) + "/"@ + file_name_of(k) + if n == 0 {
        Seq::<char>::empty()
    } else {
        "."@ + decimal(n as nat)
    }
}

/// The archive directory of `c`.
pub fn archive_dir(c: &str) -> (r: String)
    ensures
        r@ == archive_dir_of(c@),
{
    let mut r = copy_str("/etc/letsencrypt/archive/");
    r.append(c);
    r
}

/// The live directory of `c`.
pub fn live_dir(c: &str) -> (r: String)
    ensures
        r@ == live_dir_of(c@),
{
    let mut r = copy_str("/etc/letsencrypt/live/");
    r.append(c);
    r
}

/// The backup directory of `c`.
pub fn backup_dir(c: &str) -> (r: String)
    ensures
        r@ == backup_dir_of(c@),
{
    let mut r = copy_str("/etc/letsencrypt/broken-live-backup/");
    r.append(c);
    r
}

/// Append `<kind><version>.pem`.
fn push_versioned_name(r: &mut String, k: usize, v: u32)
    requires
        k < CERT_FILE_COUNT,
    ensures
        final(r)@ == old(r)@ + versioned_name(k as int, v),
{
    r.append(cert_kind(k));
    push_decimal(r, v as u64);
    r.append(".pem");
    assert(final(r)@ =~= old(r)@ + versioned_name(k as int, v));
}

/// The archive file of kind `k` and version `v`.
pub fn archive_file(c: &str, k: usize, v: u32) -> (r: String)
    requires
        k < CERT_FILE_COUNT,
    ensures
        r@ == archive_file_of(c@, k as int, v),
{
    let mut r = archive_dir(c);
    r.append("/");
    push_versioned_name(&mut r, k, v);
    assert(r@ =~= archive_file_of(c@, k as int, v));
    r
}

/// The name of file `k` in the live directory.
pub fn file_name(k: usize) -> (r: String)
    requires
        k < CERT_FILE_COUNT,
    ensures
        r@ == file_name_of(k as int),
{
    let mut r = copy_str(cert_kind(k));
    r.append(".pem");
    r
}

/// The live path of file `k`.
pub fn live_path(c: &str, k: usize) -> (r: String)
    requires
        k < CERT_FILE_COUNT,
    ensures
        r@ == live_path_of(c@, k as int),
{
    let mut r = live_dir(c);
    r.append("/");
    let f = file_name(k);
    r.append(f.as_str());
    assert(r@ =~= live_path_of(c@, k as int));
    r
}

/// The link target of file `k`.
pub fn link_target(c: &str, k: usize, v: u32) -> (r: String)
    requires
        k < CERT_FILE_COUNT,
    ensures
        r@ == link_target_of(c@, k as int, v),
{
    let mut r = copy_str("../../archive/");
    r.append(c);
    r.append("/");
    push_versioned_name(&mut r, k, v);
    assert(r@ =~= link_target_of(c@, k as int, v));
    r
}

/// The `n`-th backup name tried for file `k`.
pub fn backup_candidate(c: &str, k: usize, n: u32) -> (r: String)
    requires
        k < CERT_FILE_COUNT,
    ensures
        r@ == backup_candidate_of(c@, k as int, n),
{
    let mut r = backup_dir(c);
    r.append("/");
    let f = file_name(k);
    r.append(f.as_str());
    if n > 0 {
        r.append(".");
        push_decimal(&mut r, n as u64);
    }
    assert(r@ =~= backup_candidate_of(c@, k as int, n));
    r
}

// ---------------------------------------------------------------------------
// The latest archive version
// ---------------------------------------------------------------------------

/// The version `N` an archive entry `certN.pem` names.
pub open spec fn cert_version_of(name: Seq<char>) -> Option<u32> {
    if name.len() >= 8 && name.take(4) == "cert"@ && name.skip(name.len() - 4) == ".pem"@ {
        parse_u32(name.subrange(4, name.len() - 4))
    } else {
        None
    }
}

/// The version a `certN.pem` entry names.
pub fn cert_version(name: &str) -> (r: Option<u32>)
    ensures
        r == cert_version_of(name@),
{
    let v = chars_of(name);
    let n = v.len();
    if n < 8 {
        return None;
    }
    proof {
        reveal_strlit("cert");
        reveal_strlit(".pem");
    }
    if !(v[0] == 'c' && v[1] == 'e' && v[2] == 'r' && v[3] == 't') {
        assert(v@.take(4)[0] != "cert"@[0] || v@.take(4)[1] != "cert"@[1] || v@.take(4)[2]
            != "cert"@[2] || v@.take(4)[3] != "cert"@[3]);
        return None;
    }
    if !(v[n - 4] == '.' && v[n - 3] == 'p' && v[n - 2] == 'e' && v[n - 1] == 'm') {
        let ghost t = v@.skip(n - 4);
        assert(t[0] != ".pem"@[0] || t[1] != ".pem"@[1] || t[2] != ".pem"@[2] || t[3]
            != ".pem"@[3]);
        return None;
    }
    assert(v@.take(4) =~= "cert"@);
    assert(v@.skip(n - 4) =~= ".pem"@);
    parse_u32_range(&v, 4, n - 4)
}

/// A directory listing: the entry names, or why the listing failed.
pub enum DirListing {
    /// The names of the entries (those that are valid UTF-8).
    Entries(Vec<String>),
    /// The directory does not exist.
    NotFound,
    /// The directory could not be opened; the error's text.
    Failed(String),
    /// Reading an entry failed part-way; the error's text.
    EntryFailed(String),
}

/// The model of a [`DirListing`].
pub enum DirListingView {
    Entries(Seq<Seq<char>>),
    NotFound,
    Failed(Seq<char>),
    EntryFailed(Seq<char>),
}

impl View for DirListing {
    type V = DirListingView;

    open spec fn view(&self) -> DirListingView {
        match self {
            DirListing::Entries(v) => DirListingView::Entries(strs(v@)),
            DirListing::NotFound => DirListingView::NotFound,
            DirListing::Failed(e) => DirListingView::Failed(e@),
            DirListing::EntryFailed(e) => DirListingView::EntryFailed(e@),
        }
    }
}

/// Whether `names` holds a `certN.pem` entry with version `v`.
pub open spec fn has_version(names: Seq<Seq<char>>, v: u32) -> bool {
    exists|i: int| 0 <= i < names.len() && cert_version_of(#[trigger] names[i]) == Some(v)
}

/// Whether `v` is the greatest version the `certN.pem` entries of `names`
/// name.
pub open spec fn is_latest_version(names: Seq<Seq<char>>, v: u32) -> bool {
    &&& has_version(names, v)
    &&& forall|i: int|
        0 <= i < names.len() ==> match cert_version_of(#[trigger] names[i]) {
            Some(w) => w <= v,
            None => true,
        }
}

/// The error for a missing archive directory.
pub open spec fn archive_missing_message(dir: Seq<char>) -> Seq<char> {
    "Archive directory not found: "@ + dir
        + ". Nothing to restore symlinks from — re-issue the certificate."@
}

/// The error for an archive without `certN.pem` files.
pub open spec fn no_versions_message(dir: Seq<char>) -> Seq<char> {
    "No certN.pem files found in "@ + dir
        + ". Nothing to restore symlinks from — re-issue the certificate."@
}

/// What listing the archive directory `dir` tells: the greatest version
/// its `certN.pem` entries name, or why there is none.
pub open spec fn latest_version(dir: Seq<char>, listing: DirListingView) -> Result<u32, Seq<char>> {
    match listing {
        DirListingView::NotFound => Err(archive_missing_message(dir)),
        DirListingView::Failed(e) => Err("Failed to read directory "@ + dir + ": "@ + e),
        DirListingView::EntryFailed(e) => Err("Failed to read directory entry: "@ + e),
        DirListingView::Entries(names) => if exists|v: u32| #[trigger] is_latest_version(names, v) {
            Ok(pick_latest(names))
        } else {
            Err(no_versions_message(dir))
        },
    }
}

/// The greatest version, when there is one.
pub open spec fn pick_latest(names: Seq<Seq<char>>) -> u32 {
    choose|v: u32| #[trigger] is_latest_version(names, v)
}

/// There is at most one greatest version.
pub proof fn lemma_latest_version_unique(names: Seq<Seq<char>>, a: u32, b: u32)
    requires
        is_latest_version(names, a),
        is_latest_version(names, b),
    ensures
        a == b,
{
    let i = choose|i: int| 0 <= i < names.len() && cert_version_of(#[trigger] names[i]) == Some(a);
    let j = choose|j: int| 0 <= j < names.len() && cert_version_of(#[trigger] names[j]) == Some(b);
    assert(a <= b);
    assert(b <= a);
}

/// What `latest_version` means for a listing of entries: the version is
/// the greatest one named, and there is none only when no entry is a
/// `certN.pem`.
pub proof fn lemma_latest_version(dir: Seq<char>, names: Seq<Seq<char>>)
    ensures
        match latest_version(dir, DirListingView::Entries(names)) {
            Ok(v) => is_latest_version(names, v),
            Err(m) => m == no_versions_message(dir) && !exists|v: u32| #[trigger] is_latest_version(names, v),
        },
{
    if exists|v: u32| #[trigger] is_latest_version(names, v) {
        assert(is_latest_version(names, pick_latest(names)));
        let l = DirListingView::Entries(names);
        assert(l is Entries);
        assert(l->Entries_0 == names);
        assert(latest_version(dir, l) is Ok);
        assert(latest_version(dir, DirListingView::Entries(names)) == Ok::<u32, Seq<char>>(
            pick_latest(names),
        ));
    } else {
        assert(latest_version(dir, DirListingView::Entries(names)) == Err::<u32, Seq<char>>(
            no_versions_message(dir),
        ));
    }
}

/// The latest archive version a listing of `dir` holds.
pub fn latest_archive_version(dir: &str, listing: &DirListing) -> (r: Result<u32, String>)
    ensures
        match r {
            Ok(v) => latest_version(dir@, listing@) == Ok::<u32, Seq<char>>(v),
            Err(m) => latest_version(dir@, listing@) == Err::<u32, Seq<char>>(m@),
        },
{
    match listing {
        DirListing::NotFound => {
            let mut m = copy_str("Archive directory not found: ");
            m.append(dir);
            m.append(". Nothing to restore symlinks from — re-issue the certificate.");
            Err(m)
        },
        DirListing::Failed(e) => {
            let mut m = copy_str("Failed to read directory ");
            m.append(dir);
            m.append(": ");
            m.append(e.as_str());
            Err(m)
        },
        DirListing::EntryFailed(e) => {
            let mut m = copy_str("Failed to read directory entry: ");
            m.append(e.as_str());
            Err(m)
        },
        DirListing::Entries(names) => {
            let ghost all = strs(names@);
            let mut latest: Option<u32> = None;
            let mut i: usize = 0;
            while i < names.len()
                invariant
                    i <= names.len(),
                    all == strs(names@),
                    match latest {
                        Some(v) => has_version(all, v) && forall|j: int|
                            0 <= j < i ==> match cert_version_of(#[trigger] all[j]) {
                                Some(w) => w <= v,
                                None => true,
                            },
                        None => forall|j: int|
                            0 <= j < i ==> cert_version_of(#[trigger] all[j]) is None,
                    },
                decreases names.len() - i,
            {
                assert(all[i as int] == names@[i as int]@);
                match cert_version(names[i].as_str()) {
                    Some(v) => {
                        latest = match latest {
                            Some(cur) => if cur < v {
                                Some(v)
                            } else {
                                Some(cur)
                            },
                            None => Some(v),
                        };
                    },
                    None => {},
                }
                i = i + 1;
            }
            match latest {
                Some(v) => {
                    proof {
                        assert(is_latest_version(all, v));
                        assert(exists|w: u32| #[trigger] is_latest_version(all, w));
                        assert(listing@ == DirListingView::Entries(all));
                        lemma_latest_version(dir@, all);
                        let c = latest_version(dir@, listing@)->Ok_0;
                        lemma_latest_version_unique(all, c, v);
                    }
                    Ok(v)
                },
                None => {
                    proof {
                        assert(listing@ == DirListingView::Entries(all));
                        lemma_latest_version(dir@, all);
                        if exists|w: u32| #[trigger] is_latest_version(all, w) {
                            let w = choose|w: u32| #[trigger] is_latest_version(all, w);
                            let j = choose|j: int|
                                0 <= j < all.len() && cert_version_of(#[trigger] all[j]) == Some(w);
                        }
                    }
                    let mut m = copy_str("No certN.pem files found in ");
                    m.append(dir);
                    m.append(". Nothing to restore symlinks from — re-issue the certificate.");
                    Err(m)
                },
            }
        },
    }
}


// ---------------------------------------------------------------------------
// Comparing link targets
// ---------------------------------------------------------------------------

/// Whether two paths are equal as `std::path::Path` compares them: by their
/// components, so that for example a doubled separator makes no difference.
pub uninterp spec fn path_eq(a: Seq<char>, b: Seq<char>) -> bool;

/// Whether a path part is kept as a component: `std::path` drops empty
/// parts (repeated or trailing separators) and `.` parts (keeping only a
/// leading `.` of a relative path, which this leaves out too).
pub open spec fn keep_part(parts: Seq<Seq<char>>, cur: Seq<char>) -> Seq<Seq<char>> {
    if cur.len() == 0 || cur == seq!['.'] {
        parts
    } else {
        parts.push(cur)
    }
}

/// Splitting `s` at `/`: the parts kept so far and the part being read.
pub open spec fn split_parts(s: Seq<char>) -> (Seq<Seq<char>>, Seq<char>)
    decreases s.len(),
{
    if s.len() == 0 {
        (seq![], seq![])
    } else {
        let (parts, cur) = split_parts(s.drop_last());
        if s.last() == '/' {
            (keep_part(parts, cur), seq![])
        } else {
            (parts, cur.push(s.last()))
        }
    }
}

/// The named parts of a path, in order: the texts between separators,
/// without empty and `.` parts (`..` is kept).
pub open spec fn path_parts(s: Seq<char>) -> Seq<Seq<char>> {
    keep_part(split_parts(s).0, split_parts(s).1)
}

/// Whether a path starts at the root.
pub open spec fn is_rooted(s: Seq<char>) -> bool {
    s.len() > 0 && s[0] == '/'
}

/// What two paths with equal component lists have in common: both or
/// neither start at the root, and their named parts are the same.
pub open spec fn same_parts(a: Seq<char>, b: Seq<char>) -> bool {
    is_rooted(a) == is_rooted(b) && path_parts(a) == path_parts(b)
}

/// Whether a link's target text `t` names the path `target`: the same text
/// always does; another text does when it is equal to it as a path, which
/// needs at least the same root and the same named parts.
pub open spec fn names_target(t: Seq<char>, target: Seq<char>) -> bool {
    t == target || (path_eq(t, target) && same_parts(t, target))
}

/// Whether `s` holds no separator.
pub open spec fn no_separator(s: Seq<char>) -> bool {
    forall|i: int| 0 <= i < s.len() ==> #[trigger] s[i] != '/'
}

/// A lineage name as it appears in a path: one named part (not empty, not
/// `.`, without a separator).
pub open spec fn plain_name(c: Seq<char>) -> bool {
    c.len() > 0 && c != seq!['.'] && no_separator(c)
}

/// Reading text without a separator extends the part being read.
proof fn lemma_split_parts_text(a: Seq<char>, b: Seq<char>)
    requires
        no_separator(b),
    ensures
        split_parts(a + b) == (split_parts(a).0, split_parts(a).1 + b),
    decreases b.len(),
{
    if b.len() == 0 {
        assert(a + b =~= a);
        assert(split_parts(a).1 + b =~= split_parts(a).1);
    } else {
        let b0 = b.drop_last();
        lemma_split_parts_text(a, b0);
        assert((a + b).drop_last() =~= a + b0);
        assert((a + b).last() == b.last());
        assert(b.last() == b[b.len() - 1]);
        assert(split_parts(a).1 + b =~= (split_parts(a).1 + b0).push(b.last()));
    }
}

/// The decimal digits hold no separator.
proof fn lemma_decimal_no_separator(n: nat)
    ensures
        no_separator(decimal(n)),
    decreases n,
{
    if n >= 10 {
        lemma_decimal_no_separator(n / 10);
        let d = decimal(n);
        assert(d == decimal(n / 10).push(crate::text::digit_char(n % 10)));
        assert forall|i: int| 0 <= i < d.len() implies #[trigger] d[i] != '/' by {
            if i < d.len() - 1 {
                assert(d[i] == decimal(n / 10)[i]);
            }
        }
    }
}

/// The named parts of a link target: `..`, `..`, `archive`, the lineage
/// name and the versioned file name.
proof fn lemma_link_target_parts(c: Seq<char>, k: int, v: u32)
    requires
        plain_name(c),
    ensures
        path_parts(link_target_of(c, k, v)) == seq![
            seq!['.', '.'],
            seq!['.', '.'],
            "archive"@,
            c,
            versioned_name(k, v),
        ],
        !is_rooted(link_target_of(c, k, v)),
{
    reveal_strlit("../../archive/");
    reveal_strlit("/");
    reveal_strlit("archive");
    reveal_strlit("cert");
    reveal_strlit("chain");
    reveal_strlit("fullchain");
    reveal_strlit("privkey");
    reveal_strlit(".pem");
    let dd = seq!['.', '.'];
    let arch = "archive"@;
    let sl = seq!['/'];
    let vn = versioned_name(k, v);
    lemma_decimal_no_separator(v as nat);
    assert(no_separator(vn)) by {
        assert forall|i: int| 0 <= i < vn.len() implies #[trigger] vn[i] != '/' by {
            let kn = kind_of(k);
            let dn = decimal(v as nat);
            if i < kn.len() {
                assert(vn[i] == kn[i]);
            } else if i < kn.len() + dn.len() {
                assert(vn[i] == dn[i - kn.len()]);
            } else {
                assert(vn[i] == ".pem"@[i - kn.len() - dn.len()]);
            }
        }
    }
    assert(vn.len() >= 4);
    assert(vn != seq!['.']);
    let t = link_target_of(c, k, v);
    let p1 = dd;
    let p2 = p1 + sl;
    let p3 = p2 + dd;
    let p4 = p3 + sl;
    let p5 = p4 + arch;
    let p6 = p5 + sl;
    let p7 = p6 + c;
    let p8 = p7 + sl;
    let p9 = p8 + vn;
    assert(t =~= p9);
    assert(no_separator(dd));
    assert(no_separator(arch));
    lemma_split_parts_text(seq![], dd);
    assert(seq![] + dd =~= p1);
    assert(split_parts(Seq::<char>::empty()) == (Seq::<Seq<char>>::empty(), Seq::<char>::empty()));
    assert(split_parts(p1) == (Seq::<Seq<char>>::empty(), dd));
    assert(p2 =~= p1.push('/'));
    assert(p2.drop_last() =~= p1);
    assert(dd.len() == 2 && dd != seq!['.']);
    assert(keep_part(Seq::<Seq<char>>::empty(), dd) =~= seq![dd]);
    assert(split_parts(p2) == (seq![dd], Seq::<char>::empty()));
    lemma_split_parts_text(p2, dd);
    assert(split_parts(p3) == (seq![dd], dd));
    assert(p4 =~= p3.push('/'));
    assert(p4.drop_last() =~= p3);
    assert(keep_part(seq![dd], dd) =~= seq![dd, dd]);
    assert(split_parts(p4) == (seq![dd, dd], Seq::<char>::empty()));
    lemma_split_parts_text(p4, arch);
    assert(split_parts(p5) == (seq![dd, dd], arch));
    assert(p6 =~= p5.push('/'));
    assert(p6.drop_last() =~= p5);
    assert(arch.len() == 7 && arch != seq!['.']);
    assert(keep_part(seq![dd, dd], arch) =~= seq![dd, dd, arch]);
    assert(split_parts(p6) == (seq![dd, dd, arch], Seq::<char>::empty()));
    lemma_split_parts_text(p6, c);
    assert(split_parts(p7) == (seq![dd, dd, arch], c));
    assert(p8 =~= p7.push('/'));
    assert(p8.drop_last() =~= p7);
    assert(keep_part(seq![dd, dd, arch], c) =~= seq![dd, dd, arch, c]);
    assert(split_parts(p8) == (seq![dd, dd, arch, c], Seq::<char>::empty()));
    lemma_split_parts_text(p8, vn);
    assert(split_parts(p9) == (seq![dd, dd, arch, c], vn));
    assert(path_parts(t) =~= seq![dd, dd, arch, c, vn]);
    assert(t[0] == '.');
}

/// Link targets into two different lineages' archive directories are
/// different paths: they differ in the lineage part.
pub proof fn lemma_other_lineage_target(c: Seq<char>, c2: Seq<char>, k: int, v: u32, k2: int, w: u32)
    requires
        plain_name(c),
        plain_name(c2),
        c != c2,
    ensures
        !same_parts(link_target_of(c2, k2, w), link_target_of(c, k, v)),
{
    lemma_link_target_parts(c, k, v);
    lemma_link_target_parts(c2, k2, w);
    assert(path_parts(link_target_of(c2, k2, w))[3] != path_parts(link_target_of(c, k, v))[3]);
}

/// `Path::new(a) == Path::new(b)`. `Path`'s equality compares the lists of
/// components (`Path::components`), which on Unix are: the root when the
/// path starts with `/`, a leading `.` of a relative path, and then each
/// part between separators other than empty and `.` parts, `..` included.
/// This states that the result depends on the two texts alone, that equal
/// texts are equal paths, and that equal paths have the same root and the
/// same named parts; it leaves out which texts with those are equal.
#[verifier::external_body]
fn same_path(a: &str, b: &str) -> (r: bool)
    ensures
        r == path_eq(a@, b@),
        a@ == b@ ==> r,
        r ==> same_parts(a@, b@),
{
    std::path::Path::new(a) == std::path::Path::new(b)
}

// ---------------------------------------------------------------------------
// The repair as a state machine
// ---------------------------------------------------------------------------

/// What inspecting a live file found.
pub enum LiveEntry {
    /// A symlink; its target, or the error reading it.
    Symlink(Result<String, String>),
    /// Something that is not a symlink (normally a regular file).
    Regular,
    /// Nothing could be inspected (normally: the file is missing).
    Absent,
}

/// The model of a [`LiveEntry`].
pub enum LiveEntryView {
    Symlink(Result<Seq<char>, Seq<char>>),
    Regular,
    Absent,
}

impl View for LiveEntry {
    type V = LiveEntryView;

    open spec fn view(&self) -> LiveEntryView {
        match self {
            LiveEntry::Symlink(Ok(t)) => LiveEntryView::Symlink(Ok(t@)),
            LiveEntry::Symlink(Err(e)) => LiveEntryView::Symlink(Err(e@)),
            LiveEntry::Regular => LiveEntryView::Regular,
            LiveEntry::Absent => LiveEntryView::Absent,
        }
    }
}

/// What the last file-system operation reported.
pub enum RepairEvent {
    /// The archive directory was listed.
    Listed(DirListing),
    /// Whether a path exists.
    Exists(bool),
    /// A directory was created, a file removed or moved, or a symlink
    /// created; or the error's text.
    Done(Result<(), String>),
    /// A live file was inspected.
    Inspected(LiveEntry),
}

/// The model of a [`RepairEvent`].
pub enum RepairEventView {
    Listed(DirListingView),
    Exists(bool),
    Done(Result<(), Seq<char>>),
    Inspected(LiveEntryView),
}

impl View for RepairEvent {
    type V = RepairEventView;

    open spec fn view(&self) -> RepairEventView {
        match self {
            RepairEvent::Listed(l) => RepairEventView::Listed(l@),
            RepairEvent::Exists(b) => RepairEventView::Exists(*b),
            RepairEvent::Done(Ok(())) => RepairEventView::Done(Ok(())),
            RepairEvent::Done(Err(e)) => RepairEventView::Done(Err(e@)),
            RepairEvent::Inspected(e) => RepairEventView::Inspected(e@),
        }
    }
}

/// The next file-system operation to perform, or the repair's result.
pub enum RepairAction {
    /// List the archive directory; answer with `Listed`.
    ListArchive(String),
    /// Tell whether an archive file exists; answer with `Exists`.
    CheckArchiveFile(String),
    /// Create a directory and its parents; answer with `Done`.
    CreateDir(String),
    /// Inspect a live file without following symlinks; answer with
    /// `Inspected`.
    InspectLive(String),
    /// Remove a file; answer with `Done`.
    RemoveFile(String),
    /// Create the symlink `link` pointing to `target`; answer with `Done`.
    CreateSymlink { target: String, link: String },
    /// Tell whether a backup path is taken; answer with `Exists`.
    ProbeBackup(String),
    /// Move (rename) `from` to `to`; answer with `Done`.
    MoveFile { from: String, to: String },
    /// The repair is over.
    Finish(Result<FixSymlinksResult, String>),
}

/// The model of a [`RepairAction`].
pub enum ActionView {
    ListArchive(Seq<char>),
    CheckArchiveFile(Seq<char>),
    CreateDir(Seq<char>),
    InspectLive(Seq<char>),
    RemoveFile(Seq<char>),
    CreateSymlink { target: Seq<char>, link: Seq<char> },
    ProbeBackup(Seq<char>),
    MoveFile { from: Seq<char>, to: Seq<char> },
    Finish(Result<FixResultView, Seq<char>>),
}

impl View for RepairAction {
    type V = ActionView;

    open spec fn view(&self) -> ActionView {
        match self {
            RepairAction::ListArchive(d) => ActionView::ListArchive(d@),
            RepairAction::CheckArchiveFile(p) => ActionView::CheckArchiveFile(p@),
            RepairAction::CreateDir(d) => ActionView::CreateDir(d@),
            RepairAction::InspectLive(p) => ActionView::InspectLive(p@),
            RepairAction::RemoveFile(p) => ActionView::RemoveFile(p@),
            RepairAction::CreateSymlink { target, link } => ActionView::CreateSymlink {
                target: target@,
                link: link@,
            },
            RepairAction::ProbeBackup(p) => ActionView::ProbeBackup(p@),
            RepairAction::MoveFile { from, to } => ActionView::MoveFile { from: from@, to: to@ },
            RepairAction::Finish(Ok(r)) => ActionView::Finish(Ok(r@)),
            RepairAction::Finish(Err(e)) => ActionView::Finish(Err(e@)),
        }
    }
}

/// Why a live link is being created.
pub enum LinkReason {
    /// The old link pointed elsewhere and was removed.
    Relink,
    /// There was no file.
    Create,
    /// A regular file was moved to this backup path.
    BackedUp(String),
}

/// The model of a [`LinkReason`].
pub enum LinkReasonView {
    Relink,
    Create,
    BackedUp(Seq<char>),
}

/// Where the repair stands; the number is the file being handled.
pub enum RepairStage {
    Listing,
    CheckingArchive(usize),
    CreatingLiveDir,
    Inspecting(usize),
    Removing(usize),
    CreatingBackupDir(usize),
    Probing(usize, u32),
    Moving(usize, String),
    Linking(usize, LinkReason),
    Done,
}

/// The model of a [`RepairStage`].
pub enum StageView {
    Listing,
    CheckingArchive(int),
    CreatingLiveDir,
    Inspecting(int),
    Removing(int),
    CreatingBackupDir(int),
    Probing(int, u32),
    Moving(int, Seq<char>),
    Linking(int, LinkReasonView),
    Done,
}

/// The model of a [`SymlinkRepair`].
pub struct RepairView {
    pub cert_name: Seq<char>,
    pub version: u32,
    pub files: Seq<FixedFileView>,
    pub stage: StageView,
}

/// A repair in progress.
pub struct SymlinkRepair {
    cert_name: String,
    version: u32,
    files: Vec<FixedFile>,
    stage: RepairStage,
}

impl View for SymlinkRepair {
    type V = RepairView;

    closed spec fn view(&self) -> RepairView {
        RepairView {
            cert_name: self.cert_name@,
            version: self.version,
            files: files_view(self.files@),
            stage: match self.stage {
                RepairStage::Listing => StageView::Listing,
                RepairStage::CheckingArchive(k) => StageView::CheckingArchive(k as int),
                RepairStage::CreatingLiveDir => StageView::CreatingLiveDir,
                RepairStage::Inspecting(k) => StageView::Inspecting(k as int),
                RepairStage::Removing(k) => StageView::Removing(k as int),
                RepairStage::CreatingBackupDir(k) => StageView::CreatingBackupDir(k as int),
                RepairStage::Probing(k, n) => StageView::Probing(k as int, n),
                RepairStage::Moving(k, p) => StageView::Moving(k as int, p@),
                RepairStage::Linking(k, LinkReason::Relink) => StageView::Linking(
                    k as int,
                    LinkReasonView::Relink,
                ),
                RepairStage::Linking(k, LinkReason::Create) => StageView::Linking(
                    k as int,
                    LinkReasonView::Create,
                ),
                RepairStage::Linking(k, LinkReason::BackedUp(p)) => StageView::Linking(
                    k as int,
                    LinkReasonView::BackedUp(p@),
                ),
                RepairStage::Done => StageView::Done,
            },
        }
    }
}

/// The error for a missing archive file.
pub open spec fn archive_incomplete_message(path: Seq<char>) -> Seq<char> {
    "Archive file not found: "@ + path
        + ". Archive is incomplete — re-issue the certificate instead of fixing symlinks."@
}

/// `<what> <path>: <error>`.
pub open spec fn failed_message(what: Seq<char>, path: Seq<char>, error: Seq<char>) -> Seq<char> {
    what + path + ": "@ + error
}

/// The report of how file `k` was handled.
pub open spec fn fixed_file_of(k: int, action: Seq<char>, backup: Option<Seq<char>>) -> FixedFileView {
    FixedFileView { file: file_name_of(k), action, backup_path: backup }
}

/// The action reported for a link created for `reason`.
pub open spec fn reason_action(reason: LinkReasonView) -> Seq<char> {
    match reason {
        LinkReasonView::Relink => "relinked"@,
        LinkReasonView::Create => "created"@,
        LinkReasonView::BackedUp(_) => "backed_up_and_linked"@,
    }
}

/// The backup path reported for a link created for `reason`.
pub open spec fn reason_backup(reason: LinkReasonView) -> Option<Seq<char>> {
    match reason {
        LinkReasonView::BackedUp(p) => Some(p),
        _ => None,
    }
}

/// End the repair with an error.
pub open spec fn fail_with(s: RepairView, message: Seq<char>) -> (RepairView, ActionView) {
    (RepairView { stage: StageView::Done, ..s }, ActionView::Finish(Err(message)))
}

/// Go on with file `k` (after the files before it are reported in `files`),
/// or finish when all four are done.
pub open spec fn next_file(s: RepairView, files: Seq<FixedFileView>, k: int) -> (
    RepairView,
    ActionView,
) {
    if k < CERT_FILE_COUNT {
        (
            RepairView { files, stage: StageView::Inspecting(k), ..s },
            ActionView::InspectLive(live_path_of(s.cert_name, k)),
        )
    } else {
        (
            RepairView { files: Seq::empty(), stage: StageView::Done, ..s },
            ActionView::Finish(
                Ok(
                    FixResultView {
                        domain: s.cert_name,
                        archive_version: s.version,
                        files: files,
                    },
                ),
            ),
        )
    }
}

/// Create the live link of file `k` for `reason`.
pub open spec fn link_file(s: RepairView, k: int, reason: LinkReasonView) -> (RepairView, ActionView) {
    (
        RepairView { stage: StageView::Linking(k, reason), ..s },
        ActionView::CreateSymlink {
            target: link_target_of(s.cert_name, k, s.version),
            link: live_path_of(s.cert_name, k),
        },
    )
}

/// Whether the repair is waiting for `e`: each stage expects the answer to
/// the operation it asked for, and a backup name is never probed past the
/// last suffix a `u32` can count to.
pub open spec fn accepts(s: RepairView, e: RepairEventView) -> bool {
    match s.stage {
        StageView::Listing => e is Listed,
        StageView::CheckingArchive(_) => e is Exists,
        StageView::CreatingLiveDir => e is Done,
        StageView::Inspecting(_) => e is Inspected,
        StageView::Removing(_) => e is Done,
        StageView::CreatingBackupDir(_) => e is Done,
        StageView::Probing(_, n) => match e {
            RepairEventView::Exists(b) => b ==> n < u32::MAX,
            _ => false,
        },
        StageView::Moving(_, _) => e is Done,
        StageView::Linking(_, _) => e is Done,
        StageView::Done => false,
    }
}

/// One step of the repair: from where it stands and what the last operation
/// reported, where it goes and what it asks for next.
pub open spec fn repair_step(s: RepairView, e: RepairEventView) -> (RepairView, ActionView) {
    let c = s.cert_name;
    let v = s.version;
    match (s.stage, e) {
        (StageView::Listing, RepairEventView::Listed(l)) => match latest_version(
            archive_dir_of(c),
            l,
        ) {
            Err(m) => fail_with(s, m),
            Ok(version) => (
                RepairView { version, stage: StageView::CheckingArchive(0), ..s },
                ActionView::CheckArchiveFile(archive_file_of(c, 0, version)),
            ),
        },
        (StageView::CheckingArchive(k), RepairEventView::Exists(found)) => if !found {
            fail_with(s, archive_incomplete_message(archive_file_of(c, k, v)))
        } else if k + 1 < CERT_FILE_COUNT {
            (
                RepairView { stage: StageView::CheckingArchive(k + 1), ..s },
                ActionView::CheckArchiveFile(archive_file_of(c, k + 1, v)),
            )
        } else {
            (
                RepairView { stage: StageView::CreatingLiveDir, ..s },
                ActionView::CreateDir(live_dir_of(c)),
            )
        },
        (StageView::CreatingLiveDir, RepairEventView::Done(r)) => match r {
            Err(err) => fail_with(
                s,
                failed_message("Failed to create live directory "@, live_dir_of(c), err),
            ),
            Ok(_) => next_file(s, s.files, 0),
        },
        (StageView::Inspecting(k), RepairEventView::Inspected(entry)) => match entry {
            LiveEntryView::Symlink(Err(err)) => fail_with(
                s,
                failed_message("Failed to read symlink "@, live_path_of(c, k), err),
            ),
            LiveEntryView::Symlink(Ok(t)) => if names_target(t, link_target_of(c, k, v)) {
                next_file(s, s.files.push(fixed_file_of(k, "already_valid"@, None)), k + 1)
            } else {
                (
                    RepairView { stage: StageView::Removing(k), ..s },
                    ActionView::RemoveFile(live_path_of(c, k)),
                )
            },
            LiveEntryView::Regular => (
                RepairView { stage: StageView::CreatingBackupDir(k), ..s },
                ActionView::CreateDir(backup_dir_of(c)),
            ),
            LiveEntryView::Absent => link_file(s, k, LinkReasonView::Create),
        },
        (StageView::Removing(k), RepairEventView::Done(r)) => match r {
            Err(err) => fail_with(s, failed_message("Failed to remove "@, live_path_of(c, k), err)),
            Ok(_) => link_file(s, k, LinkReasonView::Relink),
        },
        (StageView::CreatingBackupDir(k), RepairEventView::Done(r)) => match r {
            Err(err) => fail_with(
                s,
                failed_message("Failed to create backup directory "@, backup_dir_of(c), err),
            ),
            Ok(_) => (
                RepairView { stage: StageView::Probing(k, 0), ..s },
                ActionView::ProbeBackup(backup_candidate_of(c, k, 0)),
            ),
        },
        (StageView::Probing(k, n), RepairEventView::Exists(taken)) => if taken {
            (
                RepairView { stage: StageView::Probing(k, (n + 1) as u32), ..s },
                ActionView::ProbeBackup(backup_candidate_of(c, k, (n + 1) as u32)),
            )
        } else {
            (
                RepairView { stage: StageView::Moving(k, backup_candidate_of(c, k, n)), ..s },
                ActionView::MoveFile {
                    from: live_path_of(c, k),
                    to: backup_candidate_of(c, k, n),
                },
            )
        },
        (StageView::Moving(k, p), RepairEventView::Done(r)) => match r {
            Err(err) => fail_with(
                s,
                "Failed to move "@ + live_path_of(c, k) + " to "@ + p + ": "@ + err,
            ),
            Ok(_) => link_file(s, k, LinkReasonView::BackedUp(p)),
        },
        (StageView::Linking(k, reason), RepairEventView::Done(r)) => match r {
            Err(err) => fail_with(
                s,
                "Failed to create symlink "@ + live_path_of(c, k) + " -> "@ + link_target_of(
                    c,
                    k,
                    v,
                ) + ": "@ + err,
            ),
            Ok(_) => next_file(
                s,
                s.files.push(fixed_file_of(k, reason_action(reason), reason_backup(reason))),
                k + 1,
            ),
        },
        _ => (s, ActionView::Finish(Err(Seq::empty()))),
    }
}

/// How the repair of `domain` begins: the lineage is the normalized domain
/// (trimmed, one leading `*.` removed), and the archive directory is listed
/// first.
pub open spec fn repair_start(domain: Seq<char>) -> (RepairView, ActionView) {
    let c = cert_name_of(domain);
    (
        RepairView { cert_name: c, version: 0, files: Seq::empty(), stage: StageView::Listing },
        ActionView::ListArchive(archive_dir_of(c)),
    )
}

/// Whether file report `i` is well formed: it names file `i`, and carries a
/// backup path exactly when the file was backed up.
pub open spec fn report_ok(f: FixedFileView, i: int) -> bool {
    &&& f.file == file_name_of(i)
    &&& (f.backup_path is Some <==> f.action == "backed_up_and_linked"@)
}

/// The invariant of a repair: the files handled so far are reported in
/// order, one report per file, and the file being handled is one of the four.
pub open spec fn repair_inv(s: RepairView) -> bool {
    &&& match s.stage {
        StageView::Listing => s.files.len() == 0,
        StageView::CheckingArchive(k) => 0 <= k < CERT_FILE_COUNT && s.files.len() == 0,
        StageView::CreatingLiveDir => s.files.len() == 0,
        StageView::Inspecting(k) => 0 <= k < CERT_FILE_COUNT && s.files.len() == k,
        StageView::Removing(k) => 0 <= k < CERT_FILE_COUNT && s.files.len() == k,
        StageView::CreatingBackupDir(k) => 0 <= k < CERT_FILE_COUNT && s.files.len() == k,
        StageView::Probing(k, _) => 0 <= k < CERT_FILE_COUNT && s.files.len() == k,
        StageView::Moving(k, _) => 0 <= k < CERT_FILE_COUNT && s.files.len() == k,
        StageView::Linking(k, _) => 0 <= k < CERT_FILE_COUNT && s.files.len() == k,
        StageView::Done => true,
    }
    &&& forall|i: int| 0 <= i < s.files.len() ==> report_ok(#[trigger] s.files[i], i)
}

/// The report literals are distinct.
proof fn lemma_action_names()
    ensures
        "already_valid"@ != "backed_up_and_linked"@,
        "relinked"@ != "backed_up_and_linked"@,
        "created"@ != "backed_up_and_linked"@,
{
    reveal_strlit("already_valid");
    reveal_strlit("backed_up_and_linked");
    reveal_strlit("relinked");
    reveal_strlit("created");
    assert("already_valid"@.len() == 13);
    assert("backed_up_and_linked"@.len() == 20);
    assert("relinked"@.len() == 8);
    assert("created"@.len() == 7);
}

/// Every step keeps the repair's invariant.
pub proof fn law_repair_step_keeps_invariant(s: RepairView, e: RepairEventView)
    requires
        repair_inv(s),
        accepts(s, e),
    ensures
        repair_inv(repair_step(s, e).0),
{
    lemma_action_names();
    let n = repair_step(s, e).0;
    assert forall|i: int| 0 <= i < n.files.len() implies report_ok(#[trigger] n.files[i], i) by {
        if i < s.files.len() {
            assert(n.files[i] == s.files[i]);
        }
    }
}

/// A finished repair reports the lineage, its archive version and all four
/// files, in the order cert, chain, fullchain, privkey.
pub proof fn law_repair_reports_every_file(s: RepairView, e: RepairEventView)
    requires
        repair_inv(s),
        accepts(s, e),
    ensures
        repair_step(s, e).1 matches ActionView::Finish(Ok(r)) ==> {
            &&& r.domain == s.cert_name
            &&& r.files.len() == CERT_FILE_COUNT
            &&& forall|i: int| 0 <= i < CERT_FILE_COUNT ==> report_ok(#[trigger] r.files[i], i)
        },
{
    lemma_action_names();
    if let ActionView::Finish(Ok(r)) = repair_step(s, e).1 {
        assert forall|i: int| 0 <= i < CERT_FILE_COUNT implies report_ok(#[trigger] r.files[i], i) by {
            if i < s.files.len() {
                assert(r.files[i] == s.files[i]);
            }
        }
    }
}

/// A live file is only ever removed when it is a symlink that points
/// somewhere other than its archive file; a regular file is moved aside,
/// never deleted, since it may hold a newer certificate than the archive.
pub proof fn law_repair_never_deletes_regular_files(s: RepairView, e: RepairEventView)
    requires
        repair_inv(s),
        accepts(s, e),
        repair_step(s, e).1 is RemoveFile,
    ensures
        s.stage matches StageView::Inspecting(k) && e matches RepairEventView::Inspected(
            LiveEntryView::Symlink(Ok(t)),
        ) && !names_target(t, link_target_of(s.cert_name, k, s.version))
            && repair_step(s, e).1 == ActionView::RemoveFile(live_path_of(s.cert_name, k)),
{
}

/// Every symlink the repair creates is the live file `k` of the lineage,
/// pointing at that file's archive copy of the chosen version.
pub proof fn law_repair_links_point_into_archive(s: RepairView, e: RepairEventView)
    requires
        repair_inv(s),
        accepts(s, e),
        repair_step(s, e).1 is CreateSymlink,
    ensures
        exists|k: int|
            0 <= k < CERT_FILE_COUNT && repair_step(s, e).1 == (ActionView::CreateSymlink {
                target: link_target_of(s.cert_name, k, s.version),
                link: #[trigger] live_path_of(s.cert_name, k),
            }),
{
    match s.stage {
        StageView::Inspecting(k) => {
            assert(live_path_of(s.cert_name, k) == live_path_of(s.cert_name, k));
        },
        StageView::Removing(k) => {
            assert(live_path_of(s.cert_name, k) == live_path_of(s.cert_name, k));
        },
        StageView::Moving(k, _) => {
            assert(live_path_of(s.cert_name, k) == live_path_of(s.cert_name, k));
        },
        _ => {},
    }
}

/// A backup never overwrites anything: a file is only moved to a backup
/// name that was just probed and found free.
pub proof fn law_repair_backups_never_overwrite(s: RepairView, e: RepairEventView)
    requires
        repair_inv(s),
        accepts(s, e),
        repair_step(s, e).1 is MoveFile,
    ensures
        s.stage matches StageView::Probing(k, n) && e == RepairEventView::Exists(false)
            && repair_step(s, e).1 == (ActionView::MoveFile {
            from: live_path_of(s.cert_name, k),
            to: backup_candidate_of(s.cert_name, k, n),
        }),
{
}

/// The live directory is only touched once all four archive files of the
/// chosen version were found: it is created right after the last of them.
pub proof fn law_repair_checks_archive_first(s: RepairView, e: RepairEventView)
    requires
        repair_inv(s),
        accepts(s, e),
        repair_step(s, e).1 == ActionView::CreateDir(live_dir_of(s.cert_name)),
    ensures
        s.stage == StageView::CheckingArchive(CERT_FILE_COUNT - 1) && e == RepairEventView::Exists(
            true,
        ),
{
    reveal_strlit("/etc/letsencrypt/live/");
    reveal_strlit("/etc/letsencrypt/broken-live-backup/");
    assert(live_dir_of(s.cert_name)[17] == 'l');
    assert(backup_dir_of(s.cert_name)[17] == 'b');
}

/// A live symlink is kept only when its target is the same path as the
/// expected one. A symlink whose target differs from it in its root or in
/// its named parts is removed, the expected link is created, and the file
/// is reported `relinked`.
pub proof fn law_repair_relinks_other_targets(s: RepairView, k: int, t: Seq<char>)
    requires
        repair_inv(s),
        s.stage == StageView::Inspecting(k),
        !same_parts(t, link_target_of(s.cert_name, k, s.version)),
    ensures
        ({
            let c = s.cert_name;
            let (s1, a1) = repair_step(
                s,
                RepairEventView::Inspected(LiveEntryView::Symlink(Ok(t))),
            );
            let (s2, a2) = repair_step(s1, RepairEventView::Done(Ok(())));
            &&& a1 == ActionView::RemoveFile(live_path_of(c, k))
            &&& a2 == (ActionView::CreateSymlink {
                target: link_target_of(c, k, s.version),
                link: live_path_of(c, k),
            })
            &&& repair_step(s2, RepairEventView::Done(Ok(()))) == next_file(
                s2,
                s.files.push(
                    FixedFileView { file: file_name_of(k), action: "relinked"@, backup_path: None },
                ),
                k + 1,
            )
        }),
{
}

/// A live symlink into another lineage's archive directory (for example an
/// old `example.com-0001` lineage while repairing `example.com`) is never
/// kept: it is removed and relinked, whatever file and version it names.
pub proof fn law_repair_relinks_links_into_other_lineages(
    s: RepairView,
    k: int,
    c2: Seq<char>,
    k2: int,
    w: u32,
)
    requires
        repair_inv(s),
        s.stage == StageView::Inspecting(k),
        plain_name(s.cert_name),
        plain_name(c2),
        c2 != s.cert_name,
    ensures
        repair_step(
            s,
            RepairEventView::Inspected(LiveEntryView::Symlink(Ok(link_target_of(c2, k2, w)))),
        ).1 == ActionView::RemoveFile(live_path_of(s.cert_name, k)),
{
    lemma_other_lineage_target(s.cert_name, c2, k, s.version, k2, w);
    law_repair_relinks_other_targets(s, k, link_target_of(c2, k2, w));
}

/// Runs the repair from `s` through the events `es`: where it ends, and
/// each action it asked for on the way.
pub open spec fn run_repair(s: RepairView, es: Seq<RepairEventView>) -> (RepairView, Seq<ActionView>)
    decreases es.len(),
{
    if es.len() == 0 {
        (s, seq![])
    } else {
        let (s1, a) = repair_step(s, es[0]);
        let (s2, rest) = run_repair(s1, es.drop_first());
        (s2, seq![a] + rest)
    }
}

/// The answers to the inspections of a healthy live directory: every live
/// file is a symlink whose target is the text the repair itself writes.
pub open spec fn inspected_answers(c: Seq<char>, v: u32) -> Seq<RepairEventView> {
    Seq::new(
        CERT_FILE_COUNT as nat,
        |k: int| RepairEventView::Inspected(LiveEntryView::Symlink(Ok(link_target_of(c, k, v)))),
    )
}

/// The answers after the listing: all four archive files exist, the live
/// directory is there, and the live files are healthy.
pub open spec fn checked_answers(c: Seq<char>, v: u32) -> Seq<RepairEventView> {
    seq![
        RepairEventView::Exists(true),
        RepairEventView::Exists(true),
        RepairEventView::Exists(true),
        RepairEventView::Exists(true),
        RepairEventView::Done(Ok(())),
    ] + inspected_answers(c, v)
}

/// What the file system answers a repair of a healthy lineage `c` whose
/// archive lists `names`.
pub open spec fn healthy_answers(c: Seq<char>, v: u32, names: Seq<Seq<char>>) -> Seq<RepairEventView> {
    seq![RepairEventView::Listed(DirListingView::Entries(names))] + checked_answers(c, v)
}

/// The reports of the first `n` files when each was already valid.
pub open spec fn valid_reports(n: int) -> Seq<FixedFileView> {
    Seq::new(n as nat, |k: int| fixed_file_of(k, "already_valid"@, None))
}

/// The report of a repair of `c` at version `v` that found every file valid.
pub open spec fn unchanged_report(c: Seq<char>, v: u32) -> ActionView {
    ActionView::Finish(
        Ok(FixResultView { domain: c, archive_version: v, files: valid_reports(CERT_FILE_COUNT as int) }),
    )
}

/// Whether `a` only reads the file system: a listing, an existence check, an
/// inspection, the final report, or creating the live directory, which a
/// lineage whose live files are symlinks already has.
pub open spec fn only_reads(a: ActionView, c: Seq<char>) -> bool {
    ||| a is ListArchive
    ||| a is CheckArchiveFile
    ||| a is InspectLive
    ||| a is Finish
    ||| a == ActionView::CreateDir(live_dir_of(c))
}

/// Whether a run asked only for reads and ended with `last`.
pub open spec fn reads_then(acts: Seq<ActionView>, c: Seq<char>, last: ActionView) -> bool {
    &&& acts.len() > 0
    &&& forall|i: int| 0 <= i < acts.len() ==> only_reads(#[trigger] acts[i], c)
    &&& acts.last() == last
}

/// One step of a run: the first action, then the run from where it leads.
proof fn lemma_run_step(s: RepairView, es: Seq<RepairEventView>)
    requires
        es.len() > 0,
    ensures
        run_repair(s, es).1 == seq![repair_step(s, es[0]).1] + run_repair(
            repair_step(s, es[0]).0,
            es.drop_first(),
        ).1,
{
}

/// Prepending a reading action to a run that reads and ends with `last`.
proof fn lemma_reads_then_cons(a: ActionView, acts: Seq<ActionView>, c: Seq<char>, last: ActionView)
    requires
        only_reads(a, c),
        reads_then(acts, c, last),
    ensures
        reads_then(seq![a] + acts, c, last),
{
    let all = seq![a] + acts;
    assert forall|i: int| 0 <= i < all.len() implies only_reads(#[trigger] all[i], c) by {
        if i > 0 {
            assert(all[i] == acts[i - 1]);
        }
    }
}

/// The healthy inspections from file `k` on only read, and end with the
/// report of an unchanged directory.
proof fn lemma_healthy_inspections(s: RepairView, k: int)
    requires
        s.stage == StageView::Inspecting(k),
        0 <= k < CERT_FILE_COUNT,
        s.files == valid_reports(k),
    ensures
        reads_then(
            run_repair(s, inspected_answers(s.cert_name, s.version).skip(k)).1,
            s.cert_name,
            unchanged_report(s.cert_name, s.version),
        ),
    decreases CERT_FILE_COUNT - k,
{
    let c = s.cert_name;
    let v = s.version;
    let es = inspected_answers(c, v).skip(k);
    lemma_run_step(s, es);
    assert(es[0] == RepairEventView::Inspected(LiveEntryView::Symlink(Ok(link_target_of(c, k, v)))));
    let (s1, a) = repair_step(s, es[0]);
    let files = s.files.push(fixed_file_of(k, "already_valid"@, None));
    assert(files =~= valid_reports(k + 1));
    assert((s1, a) == next_file(s, files, k + 1));
    if k + 1 < CERT_FILE_COUNT {
        assert(es.drop_first() =~= inspected_answers(c, v).skip(k + 1));
        lemma_healthy_inspections(s1, k + 1);
        lemma_reads_then_cons(a, run_repair(s1, es.drop_first()).1, c, unchanged_report(c, v));
    } else {
        assert(es.drop_first() =~= Seq::<RepairEventView>::empty());
        assert(run_repair(s1, es.drop_first()).1 =~= Seq::<ActionView>::empty());
        assert(run_repair(s, es).1 =~= seq![a]);
    }
}

/// From the archive checks on, a healthy lineage only reads and ends with
/// the report of an unchanged directory.
proof fn lemma_healthy_checks(s: RepairView, k: int)
    requires
        s.stage == StageView::CheckingArchive(k),
        0 <= k < CERT_FILE_COUNT,
        s.files == Seq::<FixedFileView>::empty(),
    ensures
        reads_then(
            run_repair(s, checked_answers(s.cert_name, s.version).skip(k)).1,
            s.cert_name,
            unchanged_report(s.cert_name, s.version),
        ),
    decreases CERT_FILE_COUNT - k,
{
    let c = s.cert_name;
    let v = s.version;
    let es = checked_answers(c, v).skip(k);
    lemma_run_step(s, es);
    assert(es[0] == RepairEventView::Exists(true));
    let (s1, a) = repair_step(s, es[0]);
    if k + 1 < CERT_FILE_COUNT {
        assert(s1 == RepairView { stage: StageView::CheckingArchive(k + 1), ..s });
        assert(es.drop_first() =~= checked_answers(c, v).skip(k + 1));
        lemma_healthy_checks(s1, k + 1);
        lemma_reads_then_cons(a, run_repair(s1, es.drop_first()).1, c, unchanged_report(c, v));
    } else {
        assert(s1 == RepairView { stage: StageView::CreatingLiveDir, ..s });
        assert(a == ActionView::CreateDir(live_dir_of(c)));
        let es1 = es.drop_first();
        lemma_run_step(s1, es1);
        assert(es1[0] == RepairEventView::Done(Ok(())));
        let (s2, a2) = repair_step(s1, es1[0]);
        assert(s.files =~= valid_reports(0));
        assert((s2, a2) == next_file(s1, s1.files, 0));
        assert(es1.drop_first() =~= inspected_answers(c, v).skip(0));
        lemma_healthy_inspections(s2, 0);
        lemma_reads_then_cons(a2, run_repair(s2, es1.drop_first()).1, c, unchanged_report(c, v));
        lemma_reads_then_cons(a, run_repair(s1, es1).1, c, unchanged_report(c, v));
    }
}

/// Repeating a successful repair changes nothing. A finished repair leaves
/// every live file a symlink to `link_target_of(c, k, v)` for the latest
/// archive version `v` (see [`law_repair_links_point_into_archive`]); on a
/// second run over that same state every operation only reads, and the
/// report has the same lineage and version with all four files
/// `already_valid` and no backup.
pub proof fn law_repair_is_idempotent(domain: Seq<char>, names: Seq<Seq<char>>, v: u32)
    requires
        latest_version(archive_dir_of(cert_name_of(domain)), DirListingView::Entries(names)) == Ok::<
            u32,
            Seq<char>,
        >(v),
    ensures
        ({
            let c = cert_name_of(domain);
            let (s0, a0) = repair_start(domain);
            &&& only_reads(a0, c)
            &&& reads_then(
                run_repair(s0, healthy_answers(c, v, names)).1,
                c,
                unchanged_report(c, v),
            )
        }),
{
    let c = cert_name_of(domain);
    let s0 = repair_start(domain).0;
    let es = healthy_answers(c, v, names);
    lemma_run_step(s0, es);
    assert(es[0] == RepairEventView::Listed(DirListingView::Entries(names)));
    let (s1, a1) = repair_step(s0, es[0]);
    assert(s1 == RepairView { version: v, stage: StageView::CheckingArchive(0), ..s0 });
    assert(es.drop_first() =~= checked_answers(c, v).skip(0));
    lemma_healthy_checks(s1, 0);
    lemma_reads_then_cons(a1, run_repair(s1, es.drop_first()).1, c, unchanged_report(c, v));
}

impl SymlinkRepair {
    /// The repair's invariant.
    pub open spec fn inv(&self) -> bool {
        repair_inv(self@)
    }

    /// Whether the repair is waiting for `e` (see [`accepts`]).
    pub open spec fn waits_for(&self, e: RepairEventView) -> bool {
        accepts(self@, e)
    }

    /// Begin repairing `domain`'s live directory.
    pub fn start(domain: &str) -> (r: (SymlinkRepair, RepairAction))
        ensures
            r.0.inv(),
            (r.0@, r.1@) == repair_start(domain@),
    {
        let cert_name = normalize_cert_name(domain);
        let action = RepairAction::ListArchive(archive_dir(cert_name.as_str()));
        let r = SymlinkRepair { cert_name, version: 0, files: Vec::new(), stage: RepairStage::Listing };
        assert(r@.files =~= Seq::<FixedFileView>::empty());
        (r, action)
    }

    /// Whether the repair is waiting for `e`.
    pub fn accepts(&self, e: &RepairEvent) -> (r: bool)
        ensures
            r == self.waits_for(e@),
    {
        match (&self.stage, e) {
            (RepairStage::Listing, RepairEvent::Listed(_)) => true,
            (RepairStage::CheckingArchive(_), RepairEvent::Exists(_)) => true,
            (RepairStage::CreatingLiveDir, RepairEvent::Done(_)) => true,
            (RepairStage::Inspecting(_), RepairEvent::Inspected(_)) => true,
            (RepairStage::Removing(_), RepairEvent::Done(_)) => true,
            (RepairStage::CreatingBackupDir(_), RepairEvent::Done(_)) => true,
            (RepairStage::Probing(_, n), RepairEvent::Exists(b)) => !*b || *n < u32::MAX,
            (RepairStage::Moving(_, _), RepairEvent::Done(_)) => true,
            (RepairStage::Linking(_, _), RepairEvent::Done(_)) => true,
            _ => false,
        }
    }

    /// End with `message`.
    fn fail(&mut self, message: String) -> (a: RepairAction)
        ensures
            (final(self)@, a@) == fail_with(old(self)@, message@),
    {
        self.stage = RepairStage::Done;
        RepairAction::Finish(Err(message))
    }

    /// Go on with file `k`, or finish.
    fn next(&mut self, k: usize) -> (a: RepairAction)
        requires
            k <= CERT_FILE_COUNT,
            old(self).files@.len() == k,
        ensures
            (final(self)@, a@) == next_file(old(self)@, old(self)@.files, k as int),
    {
        if k < CERT_FILE_COUNT {
            self.stage = RepairStage::Inspecting(k);
            RepairAction::InspectLive(live_path(self.cert_name.as_str(), k))
        } else {
            let mut files: Vec<FixedFile> = Vec::new();
            let ghost before = self@;
            std::mem::swap(&mut files, &mut self.files);
            self.stage = RepairStage::Done;
            let ghost fv = files_view(files@);
            assert(fv == before.files);
            let result = FixSymlinksResult {
                domain: self.cert_name.clone(),
                archive_version: self.version,
                files,
            };
            proof {
                assert(self.files@ =~= Seq::<FixedFile>::empty());
                assert(self@.files =~= Seq::<FixedFileView>::empty());
                assert(result@.files == before.files);
                assert(result@.domain == before.cert_name);
            }
            let a = RepairAction::Finish(Ok(result));
            assert(a@ == next_file(before, before.files, k as int).1);
            assert(self@ =~= next_file(before, before.files, k as int).0);
            a
        }
    }

    /// Create the live link of file `k`.
    fn link(&mut self, k: usize, reason: LinkReason) -> (a: RepairAction)
        requires
            k < CERT_FILE_COUNT,
        ensures
            (final(self)@, a@) == link_file(
                old(self)@,
                k as int,
                match reason {
                    LinkReason::Relink => LinkReasonView::Relink,
                    LinkReason::Create => LinkReasonView::Create,
                    LinkReason::BackedUp(p) => LinkReasonView::BackedUp(p@),
                },
            ),
    {
        let target = link_target(self.cert_name.as_str(), k, self.version);
        let link = live_path(self.cert_name.as_str(), k);
        self.stage = RepairStage::Linking(k, reason);
        RepairAction::CreateSymlink { target, link }
    }

    /// One step of the repair: take what the last operation reported and
    /// return the next operation to perform, or the result.
    pub fn step(&mut self, event: RepairEvent) -> (a: RepairAction)
        requires
            old(self).inv(),
            old(self).waits_for(event@),
        ensures
            final(self).inv(),
            (final(self)@, a@) == repair_step(old(self)@, event@),
    {
        proof {
            law_repair_step_keeps_invariant(self@, event@);
        }
        let ghost s0 = self@;
        let c = self.cert_name.clone();
        let v = self.version;
        match event {
            RepairEvent::Listed(l) => {
                let dir = archive_dir(c.as_str());
                match latest_archive_version(dir.as_str(), &l) {
                    Err(m) => self.fail(m),
                    Ok(version) => {
                        self.version = version;
                        self.stage = RepairStage::CheckingArchive(0);
                        RepairAction::CheckArchiveFile(archive_file(c.as_str(), 0, version))
                    },
                }
            },
            RepairEvent::Exists(b) => {
                match self.stage {
                    RepairStage::CheckingArchive(k) => {
                        if !b {
                            let mut m = copy_str("Archive file not found: ");
                            let f = archive_file(c.as_str(), k, v);
                            m.append(f.as_str());
                            m.append(
                                ". Archive is incomplete — re-issue the certificate instead of fixing symlinks.",
                            );
                            self.fail(m)
                        } else if k + 1 < CERT_FILE_COUNT {
                            self.stage = RepairStage::CheckingArchive(k + 1);
                            RepairAction::CheckArchiveFile(archive_file(c.as_str(), k + 1, v))
                        } else {
                            self.stage = RepairStage::CreatingLiveDir;
                            RepairAction::CreateDir(live_dir(c.as_str()))
                        }
                    },
                    RepairStage::Probing(k, n) => {
                        if b {
                            self.stage = RepairStage::Probing(k, n + 1);
                            RepairAction::ProbeBackup(backup_candidate(c.as_str(), k, n + 1))
                        } else {
                            let to = backup_candidate(c.as_str(), k, n);
                            self.stage = RepairStage::Moving(k, to.clone());
                            RepairAction::MoveFile { from: live_path(c.as_str(), k), to }
                        }
                    },
                    _ => {
                        assert(false);
                        self.fail(String::new())
                    },
                }
            },
            RepairEvent::Inspected(entry) => {
                let k = match self.stage {
                    RepairStage::Inspecting(k) => k,
                    _ => {
                        assert(false);
                        0
                    },
                };
                match entry {
                    LiveEntry::Symlink(Err(err)) => {
                        let mut m = copy_str("Failed to read symlink ");
                        let p = live_path(c.as_str(), k);
                        m.append(p.as_str());
                        m.append(": ");
                        m.append(err.as_str());
                        self.fail(m)
                    },
                    LiveEntry::Symlink(Ok(t)) => {
                        let target = link_target(c.as_str(), k, v);
                        if same_path(t.as_str(), target.as_str()) {
                            let report = FixedFile {
                                file: file_name(k),
                                action: copy_str("already_valid"),
                                backup_path: None,
                            };
                            let ghost fv = self@.files;
                            self.files.push(report);
                            assert(self@.files =~= fv.push(report@));
                            self.next(k + 1)
                        } else {
                            self.stage = RepairStage::Removing(k);
                            RepairAction::RemoveFile(live_path(c.as_str(), k))
                        }
                    },
                    LiveEntry::Regular => {
                        self.stage = RepairStage::CreatingBackupDir(k);
                        RepairAction::CreateDir(backup_dir(c.as_str()))
                    },
                    LiveEntry::Absent => self.link(k, LinkReason::Create),
                }
            },
            RepairEvent::Done(r) => {
                match &self.stage {
                    RepairStage::CreatingLiveDir => match r {
                        Err(err) => {
                            let mut m = copy_str("Failed to create live directory ");
                            let d = live_dir(c.as_str());
                            m.append(d.as_str());
                            m.append(": ");
                            m.append(err.as_str());
                            self.fail(m)
                        },
                        Ok(()) => self.next(0),
                    },
                    RepairStage::Removing(k) => {
                        let k = *k;
                        match r {
                            Err(err) => {
                                let mut m = copy_str("Failed to remove ");
                                let p = live_path(c.as_str(), k);
                                m.append(p.as_str());
                                m.append(": ");
                                m.append(err.as_str());
                                self.fail(m)
                            },
                            Ok(()) => self.link(k, LinkReason::Relink),
                        }
                    },
                    RepairStage::CreatingBackupDir(k) => {
                        let k = *k;
                        match r {
                            Err(err) => {
                                let mut m = copy_str("Failed to create backup directory ");
                                let d = backup_dir(c.as_str());
                                m.append(d.as_str());
                                m.append(": ");
                                m.append(err.as_str());
                                self.fail(m)
                            },
                            Ok(()) => {
                                self.stage = RepairStage::Probing(k, 0);
                                RepairAction::ProbeBackup(backup_candidate(c.as_str(), k, 0))
                            },
                        }
                    },
                    RepairStage::Moving(k, p) => {
                        let k = *k;
                        let p = p.clone();
                        match r {
                            Err(err) => {
                                let mut m = copy_str("Failed to move ");
                                let from = live_path(c.as_str(), k);
                                m.append(from.as_str());
                                m.append(" to ");
                                m.append(p.as_str());
                                m.append(": ");
                                m.append(err.as_str());
                                self.fail(m)
                            },
                            Ok(()) => self.link(k, LinkReason::BackedUp(p)),
                        }
                    },
                    RepairStage::Linking(k, reason) => {
                        let k = *k;
                        match r {
                            Err(err) => {
                                let mut m = copy_str("Failed to create symlink ");
                                let link = live_path(c.as_str(), k);
                                let target = link_target(c.as_str(), k, v);
                                m.append(link.as_str());
                                m.append(" -> ");
                                m.append(target.as_str());
                                m.append(": ");
                                m.append(err.as_str());
                                self.fail(m)
                            },
                            Ok(()) => {
                                let (action, backup_path) = match reason {
                                    LinkReason::Relink => (copy_str("relinked"), None),
                                    LinkReason::Create => (copy_str("created"), None),
                                    LinkReason::BackedUp(p) => (
                                        copy_str("backed_up_and_linked"),
                                        Some(p.clone()),
                                    ),
                                };
                                let report = FixedFile { file: file_name(k), action, backup_path };
                                let ghost fv = self@.files;
                                self.files.push(report);
                                assert(self@.files =~= fv.push(report@));
                                self.next(k + 1)
                            },
                        }
                    },
                    _ => {
                        assert(false);
                        self.fail(String::new())
                    },
                }
            },
        }
    }
}

} // verus!
