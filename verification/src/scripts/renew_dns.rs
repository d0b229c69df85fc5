//! Renewing a DNS-01 certificate. Keyed by the normalized apex; every DNS
//! certificate covers both the apex and its wildcard. The guard refuses a
//! lineage issued through `webroot`: `certonly --dns-cloudflare --expand`
//! would reconfigure it in place and replace its SANs.
use vstd::prelude::*;

use crate::scripts::cert_name::{cert_name_of, normalize_cert_name, wildcard_domain, wildcard_of};
use crate::scripts::certbot_exec::{CertbotCommand, CommandView};
use crate::scripts::init_http_01::{domain_flags, push_domain_flags};
use crate::scripts::prepare_error::{CertbotPrepareError, PrepareErrorView};
use crate::scripts::read_renewal_params::lookup_view;
use crate::text::{copy_str, strs};

verus! {

/// Everything a validated DNS-01 renewal needs to run.
pub struct PreparedRenewDns {
    pub cert_name: String,
    pub domains: Vec<String>,
}

/// The model of a [`PreparedRenewDns`].
pub struct PreparedRenewView {
    pub cert_name: Seq<char>,
    pub domains: Seq<Seq<char>>,
}

impl View for PreparedRenewDns {
    type V = PreparedRenewView;

    open spec fn view(&self) -> PreparedRenewView {
        PreparedRenewView { cert_name: self.cert_name@, domains: strs(self.domains@) }
    }
}

/// The error for a blank domain.
pub open spec fn renew_domain_required_message() -> Seq<char> {
    "A domain is required"@
}

/// The error for a lineage issued through HTTP-01.
pub open spec fn renew_webroot_message(apex: Seq<char>) -> Seq<char> {
    "Certificate '"@ + apex
        + "' was issued via HTTP-01 (webroot). Use reissue_http_01 instead — a DNS-01 renewal would replace it with a DNS apex+wildcard cert."@
}

/// What validating a DNS-01 renewal request gives: the apex and the domain
/// set `[apex, *.apex]`, unless the apex is blank.
pub open spec fn renew_dns_request(domain: Seq<char>) -> Result<PreparedRenewView, PrepareErrorView> {
    let apex = cert_name_of(domain);
    if apex.len() == 0 {
        Err(PrepareErrorView::Invalid(renew_domain_required_message()))
    } else {
        Ok(PreparedRenewView { cert_name: apex, domains: seq![apex, wildcard_of(apex)] })
    }
}

/// The guard: a lineage issued through `webroot` is refused.
pub open spec fn renew_dns_guard(
    prepared: PreparedRenewView,
    lookup: Result<Option<Seq<char>>, PrepareErrorView>,
) -> Result<PreparedRenewView, PrepareErrorView> {
    match lookup {
        Err(e) => Err(e),
        Ok(Some(a)) => if a == "webroot"@ {
            Err(PrepareErrorView::Invalid(renew_webroot_message(prepared.cert_name)))
        } else {
            Ok(prepared)
        },
        Ok(None) => Ok(prepared),
    }
}

/// The model of a renewal validation result.
pub open spec fn renew_result_view(r: Result<PreparedRenewDns, CertbotPrepareError>) -> Result<
    PreparedRenewView,
    PrepareErrorView,
> {
    match r {
        Ok(p) => Ok(p@),
        Err(e) => Err(e@),
    }
}

/// Validate a DNS-01 renewal request: the fast checks before the renewal
/// config is read.
pub fn validate_renew_dns(domain: String) -> (r: Result<PreparedRenewDns, CertbotPrepareError>)
    ensures
        renew_result_view(r) == renew_dns_request(domain@),
{
    let apex = normalize_cert_name(domain.as_str());
    if apex.unicode_len() == 0 {
        return Err(CertbotPrepareError::Invalid(copy_str("A domain is required")));
    }
    let wildcard = wildcard_domain(apex.as_str());
    let mut domains: Vec<String> = Vec::new();
    domains.push(apex.clone());
    domains.push(wildcard);
    let r = PreparedRenewDns { cert_name: apex, domains };
    assert(r@.domains =~= seq![r@.cert_name, wildcard_of(r@.cert_name)]);
    Ok(r)
}

/// Apply the renewal guard, given what the lineage's renewal config says
/// about its authenticator.
pub fn guard_renew_dns(
    prepared: PreparedRenewDns,
    lookup: Result<Option<String>, CertbotPrepareError>,
) -> (r: Result<PreparedRenewDns, CertbotPrepareError>)
    ensures
        renew_result_view(r) == renew_dns_guard(prepared@, lookup_view(lookup)),
{
    match lookup {
        Err(e) => Err(e),
        Ok(None) => Ok(prepared),
        Ok(Some(a)) => {
            let webroot = copy_str("webroot");
            if a == webroot {
                let mut m = copy_str("Certificate '");
                m.append(prepared.cert_name.as_str());
                m.append(
                    "' was issued via HTTP-01 (webroot). Use reissue_http_01 instead — a DNS-01 renewal would replace it with a DNS apex+wildcard cert.",
                );
                Err(CertbotPrepareError::Invalid(m))
            } else {
                Ok(prepared)
            }
        },
    }
}

/// The flags that select Cloudflare DNS-01 validation.
pub open spec fn dns_cloudflare_flags() -> Seq<Seq<char>> {
    seq![
        "certonly"@,
        "--dns-cloudflare"@,
        "--dns-cloudflare-credentials"@,
        "/cloudflare.ini"@,
        "--dns-cloudflare-propagation-seconds"@,
        "30"@,
    ]
}

/// Push the Cloudflare DNS-01 flags.
pub fn push_dns_cloudflare_flags(args: &mut Vec<String>)
    ensures
        strs(final(args)@) == strs(old(args)@) + dns_cloudflare_flags(),
{
    args.push(copy_str("certonly"));
    args.push(copy_str("--dns-cloudflare"));
    args.push(copy_str("--dns-cloudflare-credentials"));
    args.push(copy_str("/cloudflare.ini"));
    args.push(copy_str("--dns-cloudflare-propagation-seconds"));
    args.push(copy_str("30"));
    assert(strs(args@) =~= strs(old(args)@) + dns_cloudflare_flags());
}

/// The certbot arguments of a DNS-01 renewal: `certonly --expand` with every
/// domain, so that the certificate is renewed when due or missing a SAN and
/// always comes out covering the whole set.
pub open spec fn renew_dns_args(p: PreparedRenewView) -> Seq<Seq<char>> {
    dns_cloudflare_flags() + seq!["--non-interactive"@, "--cert-name"@, p.cert_name, "--expand"@]
        + domain_flags(p.domains)
}

/// The certbot command that renews the DNS-01 certificate.
pub fn renew_dns_command(prepared: &PreparedRenewDns) -> (r: CertbotCommand)
    ensures
        r@ == (CommandView { args: renew_dns_args(prepared@), fail_prefix: "Certbot renewal failed"@ }),
{
    let mut args: Vec<String> = Vec::new();
    push_dns_cloudflare_flags(&mut args);
    args.push(copy_str("--non-interactive"));
    args.push(copy_str("--cert-name"));
    args.push(prepared.cert_name.clone());
    args.push(copy_str("--expand"));
    let ghost head = strs(args@);
    assert(head =~= dns_cloudflare_flags() + seq![
        "--non-interactive"@,
        "--cert-name"@,
        prepared.cert_name@,
        "--expand"@,
    ]);
    push_domain_flags(&mut args, &prepared.domains);
    CertbotCommand { args, fail_prefix: copy_str("Certbot renewal failed") }
}

/// The renewal guard only accepts or refuses: whenever it lets a renewal
/// through, the request is exactly the one it was given. Only a `webroot`
/// lineage is refused; no config, or any other authenticator, passes.
pub proof fn law_renew_dns_guard_only_accepts_or_refuses(
    p: PreparedRenewView,
    lookup: Result<Option<Seq<char>>, PrepareErrorView>,
)
    ensures
        renew_dns_guard(p, lookup) is Ok ==> renew_dns_guard(p, lookup) == Ok::<
            PreparedRenewView,
            PrepareErrorView,
        >(p),
        lookup == Ok::<Option<Seq<char>>, PrepareErrorView>(None) ==> renew_dns_guard(p, lookup)
            == Ok::<PreparedRenewView, PrepareErrorView>(p),
        (lookup matches Ok(Some(a)) && a != "webroot"@) ==> renew_dns_guard(p, lookup) == Ok::<
            PreparedRenewView,
            PrepareErrorView,
        >(p),
        lookup == Ok::<Option<Seq<char>>, PrepareErrorView>(Some("webroot"@)) ==> renew_dns_guard(
            p,
            lookup,
        ) is Err,
{
}

/// Every accepted DNS-01 renewal of `d` renews the lineage `normalize(d)`
/// for exactly the apex and its wildcard, and certbot is asked for both:
/// its arguments end with `-d <apex> -d *.<apex>`.
pub proof fn law_renew_dns_covers_apex_and_wildcard(
    d: Seq<char>,
    lookup: Result<Option<Seq<char>>, PrepareErrorView>,
)
    ensures
        ({
            let apex = cert_name_of(d);
            renew_dns_request(d) matches Ok(p) ==> (renew_dns_guard(p, lookup) matches Ok(q) ==> {
                let args = renew_dns_args(q);
                &&& q.cert_name == apex
                &&& q.domains == seq![apex, seq!['*', '.'] + apex]
                &&& args.len() >= 4
                &&& args[args.len() - 4] == "-d"@
                &&& args[args.len() - 3] == apex
                &&& args[args.len() - 2] == "-d"@
                &&& args[args.len() - 1] == seq!['*', '.'] + apex
            })
        }),
{
    let apex = cert_name_of(d);
    if let Ok(p) = renew_dns_request(d) {
        if let Ok(q) = renew_dns_guard(p, lookup) {
            crate::scripts::init_http_01::lemma_domain_flags(q.domains);
            assert(q == p);
            let head = dns_cloudflare_flags() + seq!["--non-interactive"@, "--cert-name"@, q.cert_name, "--expand"@];
            let args = renew_dns_args(q);
            assert(args == head + domain_flags(q.domains));
            assert(head.len() == 10);
            assert(args.len() == 14);
            assert(args[10] == domain_flags(q.domains)[0]);
            assert(args[11] == domain_flags(q.domains)[1]);
            assert(args[12] == domain_flags(q.domains)[2]);
            assert(args[13] == domain_flags(q.domains)[3]);
            assert(q.domains[0] == apex);
            assert(q.domains[1] == seq!['*', '.'] + apex);
            let df = domain_flags(q.domains);
            assert(df[2 * 0int] == "-d"@);
            assert(df[2 * 0int + 1] == q.domains[0]);
            assert(df[2 * 1int] == "-d"@);
            assert(df[2 * 1int + 1] == q.domains[1]);
        }
    }
}

} // verus!
