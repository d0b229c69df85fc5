//! Issuing a DNS-01 certificate that covers a domain's apex and its wildcard
//! together: `example.com` and `*.example.com` both ask for the SANs
//! `example.com, *.example.com`.
use vstd::prelude::*;

use crate::scripts::cert_name::{cert_name_of, normalize_cert_name, wildcard_domain, wildcard_of};
use crate::scripts::certbot_exec::{CertbotCommand, CommandView};
use crate::scripts::prepare_error::{CertbotPrepareError, PrepareErrorView};
use crate::scripts::read_renewal_params::lookup_view;
use crate::scripts::renew_dns::{dns_cloudflare_flags, push_dns_cloudflare_flags};
use crate::text::{copy_str, strs};

verus! {

/// The error for a name that belongs to an HTTP-01 lineage.
pub open spec fn add_domain_webroot_message(apex: Seq<char>) -> Seq<char> {
    "Certificate '"@ + apex
        + "' was issued via HTTP-01 (webroot). Use reissue_http_01 instead — add_domain would replace it with a DNS apex+wildcard cert."@
}

/// The certbot arguments that issue the apex + wildcard certificate.
pub open spec fn add_domain_args(apex: Seq<char>, email: Seq<char>) -> Seq<Seq<char>> {
    dns_cloudflare_flags() + seq![
        "--email"@,
        email,
        "--agree-tos"@,
        "--non-interactive"@,
        "--cert-name"@,
        apex,
        "--expand"@,
        "-d"@,
        apex,
        "-d"@,
        wildcard_of(apex),
    ]
}

/// What an add-domain request comes to, given what the apex lineage's
/// renewal config says: a read failure is reported by its message, a lineage
/// issued through `webroot` is refused, and otherwise the command is run.
pub open spec fn add_domain_plan(
    domain: Seq<char>,
    email: Seq<char>,
    lookup: Result<Option<Seq<char>>, PrepareErrorView>,
) -> Result<CommandView, Seq<char>> {
    let apex = cert_name_of(domain);
    match lookup {
        Err(e) => Err(e.message()),
        Ok(Some(a)) if a == "webroot"@ => Err(add_domain_webroot_message(apex)),
        _ => Ok(CommandView { args: add_domain_args(apex, email), fail_prefix: "Certbot failed"@ }),
    }
}

/// The model of a command-or-error result.
pub open spec fn command_result_view(r: Result<CertbotCommand, String>) -> Result<
    CommandView,
    Seq<char>,
> {
    match r {
        Ok(c) => Ok(c@),
        Err(e) => Err(e@),
    }
}

/// Decide what an add-domain request runs; `lookup` is what the renewal
/// config of `normalize_cert_name(domain)` says about its authenticator.
pub fn add_domain_command(
    domain: &str,
    email: &str,
    lookup: Result<Option<String>, CertbotPrepareError>,
) -> (r: Result<CertbotCommand, String>)
    ensures
        command_result_view(r) == add_domain_plan(domain@, email@, lookup_view(lookup)),
{
    let apex = normalize_cert_name(domain);
    match lookup {
        Err(e) => {
            return Err(e.to_string());
        },
        Ok(Some(a)) => {
            let webroot = copy_str("webroot");
            if a == webroot {
                let mut m = copy_str("Certificate '");
                m.append(apex.as_str());
                m.append(
                    "' was issued via HTTP-01 (webroot). Use reissue_http_01 instead — add_domain would replace it with a DNS apex+wildcard cert.",
                );
                return Err(m);
            }
        },
        Ok(None) => {},
    }
    let wildcard = wildcard_domain(apex.as_str());
    let mut args: Vec<String> = Vec::new();
    push_dns_cloudflare_flags(&mut args);
    args.push(copy_str("--email"));
    args.push(copy_str(email));
    args.push(copy_str("--agree-tos"));
    args.push(copy_str("--non-interactive"));
    args.push(copy_str("--cert-name"));
    args.push(apex.clone());
    args.push(copy_str("--expand"));
    args.push(copy_str("-d"));
    args.push(apex);
    args.push(copy_str("-d"));
    args.push(wildcard);
    let r = CertbotCommand { args, fail_prefix: copy_str("Certbot failed") };
    assert(r@.args =~= add_domain_args(cert_name_of(domain@), email@));
    Ok(r)
}

/// Adding a domain refuses only a lineage issued through `webroot` (and
/// reports a failed lookup); for any other authenticator, or none, it runs
/// the very same command, and that command always asks for the apex and its
/// wildcard: its arguments end with `-d <apex> -d *.<apex>`.
pub proof fn law_add_domain_always_covers_apex_and_wildcard(
    d: Seq<char>,
    e: Seq<char>,
    lookup: Result<Option<Seq<char>>, PrepareErrorView>,
)
    ensures
        (lookup matches Ok(Some(a)) && a != "webroot"@) ==> add_domain_plan(d, e, lookup)
            == add_domain_plan(d, e, Ok(None)),
        (lookup is Ok && lookup != Ok::<Option<Seq<char>>, PrepareErrorView>(Some("webroot"@)))
            ==> add_domain_plan(d, e, lookup) is Ok,
        ({
            let apex = cert_name_of(d);
            add_domain_plan(d, e, lookup) matches Ok(cmd) ==> {
                let n = cmd.args.len();
                &&& n >= 4
                &&& cmd.args[n - 4] == "-d"@
                &&& cmd.args[n - 3] == apex
                &&& cmd.args[n - 2] == "-d"@
                &&& cmd.args[n - 1] == seq!['*', '.'] + apex
            }
        }),
{
    let apex = cert_name_of(d);
    let args = add_domain_args(apex, e);
    assert(dns_cloudflare_flags().len() == 6);
    assert(args.len() == 17);
    assert(args[13] == "-d"@ && args[14] == apex && args[15] == "-d"@ && args[16] == wildcard_of(apex));
}

} // verus!
