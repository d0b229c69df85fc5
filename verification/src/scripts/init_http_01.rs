//! Issuing a certificate through the HTTP-01 challenge (certbot's webroot
//! plugin). HTTP-01 validates each exact host name by fetching a token over
//! port 80, so it cannot cover a wildcard: every host name must be listed, and
//! the lineage is named after the first one, verbatim.
use vstd::prelude::*;

use crate::scripts::cert_name::{has_wildcard_prefix, starts_with_wildcard};
use crate::scripts::certbot_exec::{CertbotCommand, CommandView};
use crate::scripts::prepare_error::{CertbotPrepareError, PrepareErrorView};
use crate::scripts::read_renewal_params::lookup_view;
use crate::text::{chars_of, copy_str, strs, trim, trim_str};

verus! {

/// The directory certbot writes HTTP-01 challenge files into. Whatever owns
/// port 80 on this host must serve `<webroot>/.well-known/acme-challenge/`.
pub const DEFAULT_HTTP_01_WEBROOT: &'static str = "/var/www/acme";

/// The webroot as a string.
pub fn default_http_01_webroot() -> (r: String)
    ensures
        r@ == default_webroot(),
{
    copy_str(DEFAULT_HTTP_01_WEBROOT)
}

/// The default webroot, as characters.
pub open spec fn default_webroot() -> Seq<char> {
    "/var/www/acme"@
}

/// Everything a validated HTTP-01 issuance needs to run.
pub struct PreparedHttp01Issue {
    pub cert_name: String,
    pub domains: Vec<String>,
    pub email: String,
    pub webroot: String,
}

/// The model of a [`PreparedHttp01Issue`].
pub struct PreparedIssueView {
    pub cert_name: Seq<char>,
    pub domains: Seq<Seq<char>>,
    pub email: Seq<char>,
    pub webroot: Seq<char>,
}

impl View for PreparedHttp01Issue {
    type V = PreparedIssueView;

    open spec fn view(&self) -> PreparedIssueView {
        PreparedIssueView {
            cert_name: self.cert_name@,
            domains: strs(self.domains@),
            email: self.email@,
            webroot: self.webroot@,
        }
    }
}

/// The requested webroot, trimmed, or the default when none or a blank one
/// was given.
pub open spec fn webroot_or_default(webroot: Option<Seq<char>>) -> Seq<char> {
    match webroot {
        Some(w) => if trim(w).len() > 0 {
            trim(w)
        } else {
            default_webroot()
        },
        None => default_webroot(),
    }
}

/// The requested domains, each trimmed, blank ones left out.
pub open spec fn trimmed_domains(ds: Seq<Seq<char>>) -> Seq<Seq<char>>
    decreases ds.len(),
{
    if ds.len() == 0 {
        seq![]
    } else {
        let r = trimmed_domains(ds.drop_last());
        if trim(ds.last()).len() > 0 {
            r.push(trim(ds.last()))
        } else {
            r
        }
    }
}

/// The position of the first wildcard (`*.`) domain in `ds`.
pub open spec fn first_wildcard(ds: Seq<Seq<char>>) -> Option<int>
    decreases ds.len(),
{
    if ds.len() == 0 {
        None
    } else {
        match first_wildcard(ds.drop_last()) {
            Some(k) => Some(k),
            None => if has_wildcard_prefix(ds.last()) {
                Some(ds.len() - 1)
            } else {
                None
            },
        }
    }
}

/// The error for a missing e-mail address.
pub open spec fn email_required_message() -> Seq<char> {
    "Email is required for ACME registration"@
}

/// The error for a request without any domain.
pub open spec fn domain_required_message() -> Seq<char> {
    "At least one domain is required"@
}

/// The error for a wildcard domain in an HTTP-01 request.
pub open spec fn wildcard_rejected_message(wildcard: Seq<char>) -> Seq<char> {
    "HTTP-01 cannot validate the wildcard domain '"@ + wildcard
        + "'. Wildcards require DNS-01 — use add_domain."@
}

/// The error for a lineage name that belongs to a certificate issued some
/// other way.
pub open spec fn clobber_message(cert_name: Seq<char>, authenticator: Seq<char>) -> Seq<char> {
    "A certificate named '"@ + cert_name + "' already exists with authenticator '"@
        + authenticator
        + "'. Refusing to overwrite it via HTTP-01 (it would drop its current SANs). Use a different primary domain, or the matching renewal flow."@
}

/// What validating an HTTP-01 issuance request gives, before the renewal
/// config is consulted: the e-mail address is checked first, then that at
/// least one domain remains after trimming, then that none is a wildcard.
pub open spec fn init_http_01_request(
    domains: Seq<Seq<char>>,
    email: Seq<char>,
    webroot: Option<Seq<char>>,
) -> Result<PreparedIssueView, PrepareErrorView> {
    let e = trim(email);
    let ds = trimmed_domains(domains);
    if e.len() == 0 {
        Err(PrepareErrorView::Invalid(email_required_message()))
    } else if ds.len() == 0 {
        Err(PrepareErrorView::Invalid(domain_required_message()))
    } else {
        match first_wildcard(ds) {
            Some(k) => Err(PrepareErrorView::Invalid(wildcard_rejected_message(ds[k]))),
            None => Ok(
                PreparedIssueView {
                    cert_name: ds[0],
                    domains: ds,
                    email: e,
                    webroot: webroot_or_default(webroot),
                },
            ),
        }
    }
}

/// The no-clobber guard: reusing the name of a lineage issued another way
/// with `certonly --webroot` would flip its authenticator and drop its SANs,
/// so only a missing config or a `webroot` one lets the issuance go ahead.
pub open spec fn init_http_01_guard(
    prepared: PreparedIssueView,
    lookup: Result<Option<Seq<char>>, PrepareErrorView>,
) -> Result<PreparedIssueView, PrepareErrorView> {
    match lookup {
        Err(e) => Err(e),
        Ok(None) => Ok(prepared),
        Ok(Some(a)) => if a == "webroot"@ {
            Ok(prepared)
        } else {
            Err(PrepareErrorView::Invalid(clobber_message(prepared.cert_name, a)))
        },
    }
}

/// The model of a validation result.
pub open spec fn issue_result_view(r: Result<PreparedHttp01Issue, CertbotPrepareError>) -> Result<
    PreparedIssueView,
    PrepareErrorView,
> {
    match r {
        Ok(p) => Ok(p@),
        Err(e) => Err(e@),
    }
}

/// The requested webroot or the default.
pub fn choose_webroot(webroot: Option<String>) -> (r: String)
    ensures
        r@ == webroot_or_default(
            match webroot {
                Some(w) => Some(w@),
                None => None,
            },
        ),
{
    match webroot {
        Some(w) => {
            let t = trim_str(w.as_str());
            if t.unicode_len() > 0 {
                t
            } else {
                default_http_01_webroot()
            }
        },
        None => default_http_01_webroot(),
    }
}

/// Trim each domain and leave out the blank ones.
pub fn trim_domains(domains: &Vec<String>) -> (r: Vec<String>)
    ensures
        strs(r@) == trimmed_domains(strs(domains@)),
{
    let mut r: Vec<String> = Vec::new();
    let mut i: usize = 0;
    let ghost all = strs(domains@);
    assert(all.take(0) =~= Seq::<Seq<char>>::empty());
    while i < domains.len()
        invariant
            i <= domains.len(),
            all == strs(domains@),
            strs(r@) == trimmed_domains(all.take(i as int)),
        decreases domains.len() - i,
    {
        assert(all.take(i + 1).drop_last() =~= all.take(i as int));
        assert(all.take(i + 1).last() == domains@[i as int]@);
        let t = trim_str(domains[i].as_str());
        if t.unicode_len() > 0 {
            r.push(t);
            assert(strs(r@) =~= trimmed_domains(all.take(i as int)).push(t@));
        }
        i = i + 1;
    }
    assert(all.take(domains.len() as int) =~= all);
    r
}

/// The position of the first wildcard domain.
pub fn find_wildcard(ds: &Vec<String>) -> (r: Option<usize>)
    ensures
        match r {
            Some(k) => k < ds.len() && first_wildcard(strs(ds@)) == Some(k as int),
            None => first_wildcard(strs(ds@)) is None,
        },
{
    let ghost all = strs(ds@);
    let mut i: usize = 0;
    assert(all.take(0) =~= Seq::<Seq<char>>::empty());
    while i < ds.len()
        invariant
            i <= ds.len(),
            all == strs(ds@),
            first_wildcard(all.take(i as int)) is None,
        decreases ds.len() - i,
    {
        assert(all.take(i + 1).drop_last() =~= all.take(i as int));
        assert(all.take(i + 1).last() == ds@[i as int]@);
        let v = chars_of(ds[i].as_str());
        if starts_with_wildcard(&v) {
            proof {
                lemma_first_wildcard_prefix(all, i + 1);
            }
            return Some(i);
        }
        i = i + 1;
    }
    assert(all.take(ds.len() as int) =~= all);
    None
}

/// A wildcard found in a prefix is the first of the whole list.
pub proof fn lemma_first_wildcard_prefix(ds: Seq<Seq<char>>, n: int)
    requires
        0 <= n <= ds.len(),
        first_wildcard(ds.take(n)) is Some,
    ensures
        first_wildcard(ds) == first_wildcard(ds.take(n)),
    decreases ds.len() - n,
{
    if n < ds.len() {
        assert(ds.take(n + 1).drop_last() =~= ds.take(n));
        lemma_first_wildcard_prefix(ds, n + 1);
    } else {
        assert(ds.take(n) =~= ds);
    }
}

/// Validate an HTTP-01 issuance request: the fast checks that run before
/// the renewal config is read.
pub fn validate_init_http_01(domains: Vec<String>, email: String, webroot: Option<String>) -> (r:
    Result<PreparedHttp01Issue, CertbotPrepareError>)
    ensures
        issue_result_view(r) == init_http_01_request(
            strs(domains@),
            email@,
            match webroot {
                Some(w) => Some(w@),
                None => None,
            },
        ),
{
    let webroot = choose_webroot(webroot);
    let email = trim_str(email.as_str());
    if email.unicode_len() == 0 {
        return Err(CertbotPrepareError::Invalid(copy_str("Email is required for ACME registration")));
    }
    let ds = trim_domains(&domains);
    if ds.len() == 0 {
        return Err(CertbotPrepareError::Invalid(copy_str("At least one domain is required")));
    }
    match find_wildcard(&ds) {
        Some(k) => {
            let mut m = copy_str("HTTP-01 cannot validate the wildcard domain '");
            m.append(ds[k].as_str());
            m.append("'. Wildcards require DNS-01 — use add_domain.");
            Err(CertbotPrepareError::Invalid(m))
        },
        None => {
            let cert_name = ds[0].clone();
            assert(strs(ds@)[0] == ds@[0]@);
            Ok(PreparedHttp01Issue { cert_name, domains: ds, email, webroot })
        },
    }
}

/// Apply the no-clobber guard to a validated request, given what the
/// lineage's renewal config says about its authenticator.
pub fn guard_init_http_01(
    prepared: PreparedHttp01Issue,
    lookup: Result<Option<String>, CertbotPrepareError>,
) -> (r: Result<PreparedHttp01Issue, CertbotPrepareError>)
    ensures
        issue_result_view(r) == init_http_01_guard(prepared@, lookup_view(lookup)),
{
    match lookup {
        Err(e) => Err(e),
        Ok(None) => Ok(prepared),
        Ok(Some(a)) => {
            let webroot = copy_str("webroot");
            if a == webroot {
                Ok(prepared)
            } else {
                let mut m = copy_str("A certificate named '");
                m.append(prepared.cert_name.as_str());
                m.append("' already exists with authenticator '");
                m.append(a.as_str());
                m.append(
                    "'. Refusing to overwrite it via HTTP-01 (it would drop its current SANs). Use a different primary domain, or the matching renewal flow.",
                );
                Err(CertbotPrepareError::Invalid(m))
            }
        },
    }
}

/// The certbot arguments of an HTTP-01 issuance.
pub open spec fn init_http_01_args(p: PreparedIssueView) -> Seq<Seq<char>> {
    seq![
        "certonly"@,
        "--webroot"@,
        "-w"@,
        p.webroot,
        "--email"@,
        p.email,
        "--agree-tos"@,
        "--non-interactive"@,
        "--cert-name"@,
        p.cert_name,
        "--expand"@,
    ] + domain_flags(p.domains)
}

/// `-d <domain>` for each domain, in order.
pub open spec fn domain_flags(ds: Seq<Seq<char>>) -> Seq<Seq<char>>
    decreases ds.len(),
{
    if ds.len() == 0 {
        seq![]
    } else {
        domain_flags(ds.drop_last()) + seq!["-d"@, ds.last()]
    }
}

/// Append `-d <domain>` for each domain to `args`.
pub fn push_domain_flags(args: &mut Vec<String>, domains: &Vec<String>)
    ensures
        strs(final(args)@) == strs(old(args)@) + domain_flags(strs(domains@)),
{
    let ghost all = strs(domains@);
    let ghost start = strs(args@);
    let mut i: usize = 0;
    assert(all.take(0) =~= Seq::<Seq<char>>::empty());
    assert(start + domain_flags(all.take(0)) =~= start);
    while i < domains.len()
        invariant
            i <= domains.len(),
            all == strs(domains@),
            strs(args@) == start + domain_flags(all.take(i as int)),
        decreases domains.len() - i,
    {
        assert(all.take(i + 1).drop_last() =~= all.take(i as int));
        assert(all.take(i + 1).last() == domains@[i as int]@);
        let ghost before = strs(args@);
        args.push(copy_str("-d"));
        args.push(domains[i].clone());
        assert(domain_flags(all.take(i + 1)) == domain_flags(all.take(i as int)) + seq![
            "-d"@,
            domains@[i as int]@,
        ]);
        assert(strs(args@) =~= before + seq!["-d"@, domains@[i as int]@]);
        assert(strs(args@) =~= start + domain_flags(all.take(i + 1)));
        i = i + 1;
    }
    assert(all.take(domains.len() as int) =~= all);
}

/// The certbot command that issues the validated certificate.
pub fn init_http_01_command(prepared: &PreparedHttp01Issue) -> (r: CertbotCommand)
    ensures
        r@ == (CommandView {
            args: init_http_01_args(prepared@),
            fail_prefix: "Certbot HTTP-01 issuance failed"@,
        }),
{
    let mut args: Vec<String> = Vec::new();
    args.push(copy_str("certonly"));
    args.push(copy_str("--webroot"));
    args.push(copy_str("-w"));
    args.push(prepared.webroot.clone());
    args.push(copy_str("--email"));
    args.push(prepared.email.clone());
    args.push(copy_str("--agree-tos"));
    args.push(copy_str("--non-interactive"));
    args.push(copy_str("--cert-name"));
    args.push(prepared.cert_name.clone());
    args.push(copy_str("--expand"));
    let ghost head = strs(args@);
    push_domain_flags(&mut args, &prepared.domains);
    assert(head =~= seq![
        "certonly"@,
        "--webroot"@,
        "-w"@,
        prepared.webroot@,
        "--email"@,
        prepared.email@,
        "--agree-tos"@,
        "--non-interactive"@,
        "--cert-name"@,
        prepared.cert_name@,
        "--expand"@,
    ]);
    CertbotCommand { args, fail_prefix: copy_str("Certbot HTTP-01 issuance failed") }
}

/// The `-d` flags name every domain, once each and in order.
pub proof fn lemma_domain_flags(ds: Seq<Seq<char>>)
    ensures
        domain_flags(ds).len() == 2 * ds.len(),
        forall|i: int| 0 <= i < ds.len() ==> #[trigger] domain_flags(ds)[2 * i] == "-d"@,
        forall|i: int| 0 <= i < ds.len() ==> #[trigger] domain_flags(ds)[2 * i + 1] == ds[i],
    decreases ds.len(),
{
    if ds.len() > 0 {
        let init = ds.drop_last();
        lemma_domain_flags(init);
        let f0 = domain_flags(init);
        let f = domain_flags(ds);
        assert(f == f0 + seq!["-d"@, ds.last()]);
        assert forall|i: int| 0 <= i < ds.len() implies #[trigger] domain_flags(ds)[2 * i] == "-d"@
            && domain_flags(ds)[2 * i + 1] == ds[i] by {
            if i < ds.len() - 1 {
                assert(init[i] == ds[i]);
                assert(f0[2 * i] == "-d"@);
                assert(f0[2 * i + 1] == init[i]);
                assert(f[2 * i] == f0[2 * i]);
                assert(f[2 * i + 1] == f0[2 * i + 1]);
            } else {
                assert(2 * i == f0.len());
                assert(f[2 * i] == "-d"@);
                assert(f[2 * i + 1] == ds.last());
            }
        }
    }
}

/// The no-clobber guard only accepts or refuses: whenever it lets an
/// issuance through, the request (lineage name, every domain, e-mail,
/// webroot) is exactly the one it was given. It lets it through when there
/// is no renewal config or the config names `webroot`, refuses any other
/// authenticator, and passes a lookup failure on unchanged.
pub proof fn law_init_http_01_guard_only_accepts_or_refuses(
    p: PreparedIssueView,
    lookup: Result<Option<Seq<char>>, PrepareErrorView>,
)
    ensures
        init_http_01_guard(p, lookup) is Ok ==> init_http_01_guard(p, lookup) == Ok::<
            PreparedIssueView,
            PrepareErrorView,
        >(p),
        lookup == Ok::<Option<Seq<char>>, PrepareErrorView>(None) ==> init_http_01_guard(p, lookup)
            == Ok::<PreparedIssueView, PrepareErrorView>(p),
        lookup == Ok::<Option<Seq<char>>, PrepareErrorView>(Some("webroot"@)) ==> init_http_01_guard(
            p,
            lookup,
        ) == Ok::<PreparedIssueView, PrepareErrorView>(p),
        (lookup matches Ok(Some(a)) && a != "webroot"@) ==> init_http_01_guard(p, lookup) matches Err(
            PrepareErrorView::Invalid(_),
        ),
        lookup matches Err(e) ==> init_http_01_guard(p, lookup) == Err::<
            PreparedIssueView,
            PrepareErrorView,
        >(e),
{
}

/// An issuance asks certbot for every domain of the request: after the
/// eleven fixed arguments (with the webroot, the e-mail and the lineage name
/// in their places) come `-d <domain>` for each domain, in order, and
/// nothing else.
pub proof fn law_init_http_01_requests_every_domain(p: PreparedIssueView)
    ensures
        init_http_01_args(p).len() == 11 + 2 * p.domains.len(),
        init_http_01_args(p)[3] == p.webroot,
        init_http_01_args(p)[5] == p.email,
        init_http_01_args(p)[9] == p.cert_name,
        forall|i: int|
            0 <= i < p.domains.len() ==> init_http_01_args(p)[11 + 2 * i] == "-d"@
                && init_http_01_args(p)[12 + 2 * i] == #[trigger] p.domains[i],
{
    lemma_domain_flags(p.domains);
    let fixed = seq![
        "certonly"@,
        "--webroot"@,
        "-w"@,
        p.webroot,
        "--email"@,
        p.email,
        "--agree-tos"@,
        "--non-interactive"@,
        "--cert-name"@,
        p.cert_name,
        "--expand"@,
    ];
    assert(init_http_01_args(p) == fixed + domain_flags(p.domains));
    let df = domain_flags(p.domains);
    assert forall|i: int| 0 <= i < p.domains.len() implies init_http_01_args(p)[11 + 2 * i] == "-d"@
        && init_http_01_args(p)[12 + 2 * i] == #[trigger] p.domains[i] by {
        assert(df[2 * i] == "-d"@);
        assert(df[2 * i + 1] == p.domains[i]);
        assert(init_http_01_args(p)[11 + 2 * i] == domain_flags(p.domains)[2 * i]);
        assert(init_http_01_args(p)[12 + 2 * i] == domain_flags(p.domains)[2 * i + 1]);
    }
}

} // verus!
