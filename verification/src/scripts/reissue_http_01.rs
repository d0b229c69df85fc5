//! Force-reissuing an existing HTTP-01 certificate. Only a lineage that was
//! actually issued through `webroot` may be driven down this path: certbot
//! would otherwise quietly use the lineage's stored method, so the guard is
//! about the honesty of this entry point.
use vstd::prelude::*;

use crate::scripts::cert_name::{has_wildcard_prefix, starts_with_wildcard};
use crate::scripts::certbot_exec::{CertbotCommand, CommandView};
use crate::scripts::prepare_error::{CertbotPrepareError, PrepareErrorView};
use crate::scripts::read_renewal_params::lookup_view;
use crate::text::{chars_of, copy_str, trim, trim_str};

verus! {

/// Everything a validated HTTP-01 reissue needs to run.
pub struct PreparedHttp01Reissue {
    pub cert_name: String,
}

/// The error for a blank certificate name.
pub open spec fn reissue_name_required_message() -> Seq<char> {
    "A domain (certificate name) is required"@
}

/// The error for a wildcard certificate name.
pub open spec fn reissue_wildcard_message() -> Seq<char> {
    "HTTP-01 certificates are per-FQDN; pass the exact primary domain, not a wildcard."@
}

/// The error for a lineage without a renewal config.
pub open spec fn reissue_not_found_message(cert_name: Seq<char>) -> Seq<char> {
    "Renewal config for '"@ + cert_name + "' not found. Issue it first with init_http_01."@
}

/// The error for a lineage issued with another authenticator.
pub open spec fn reissue_wrong_authenticator_message(
    cert_name: Seq<char>,
    authenticator: Seq<char>,
) -> Seq<char> {
    "Certificate '"@ + cert_name + "' was issued with authenticator '"@ + authenticator
        + "', not 'webroot'. Use renew_certificate for the DNS-01 flow instead."@
}

/// What validating a reissue request gives: the trimmed name, unless it is
/// blank or a wildcard.
pub open spec fn reissue_request(domain: Seq<char>) -> Result<Seq<char>, PrepareErrorView> {
    let name = trim(domain);
    if name.len() == 0 {
        Err(PrepareErrorView::Invalid(reissue_name_required_message()))
    } else if has_wildcard_prefix(name) {
        Err(PrepareErrorView::Invalid(reissue_wildcard_message()))
    } else {
        Ok(name)
    }
}

/// The guard: the lineage must exist and must have been issued by `webroot`.
pub open spec fn reissue_guard(
    cert_name: Seq<char>,
    lookup: Result<Option<Seq<char>>, PrepareErrorView>,
) -> Result<Seq<char>, PrepareErrorView> {
    match lookup {
        Err(e) => Err(e),
        Ok(None) => Err(PrepareErrorView::NotFound(reissue_not_found_message(cert_name))),
        Ok(Some(a)) => if a == "webroot"@ {
            Ok(cert_name)
        } else {
            Err(PrepareErrorView::Invalid(reissue_wrong_authenticator_message(cert_name, a)))
        },
    }
}

/// The model of a reissue validation result: the lineage name.
pub open spec fn reissue_result_view(r: Result<PreparedHttp01Reissue, CertbotPrepareError>) -> Result<
    Seq<char>,
    PrepareErrorView,
> {
    match r {
        Ok(p) => Ok(p.cert_name@),
        Err(e) => Err(e@),
    }
}

/// Validate a reissue request: the fast checks before the renewal config is
/// read.
pub fn validate_reissue_http_01(domain: String) -> (r: Result<
    PreparedHttp01Reissue,
    CertbotPrepareError,
>)
    ensures
        reissue_result_view(r) == reissue_request(domain@),
{
    let cert_name = trim_str(domain.as_str());
    let v = chars_of(cert_name.as_str());
    if v.len() == 0 {
        return Err(
            CertbotPrepareError::Invalid(copy_str("A domain (certificate name) is required")),
        );
    }
    if starts_with_wildcard(&v) {
        return Err(
            CertbotPrepareError::Invalid(
                copy_str(
                    "HTTP-01 certificates are per-FQDN; pass the exact primary domain, not a wildcard.",
                ),
            ),
        );
    }
    Ok(PreparedHttp01Reissue { cert_name })
}

/// Apply the reissue guard, given what the lineage's renewal config says
/// about its authenticator.
pub fn guard_reissue_http_01(
    prepared: PreparedHttp01Reissue,
    lookup: Result<Option<String>, CertbotPrepareError>,
) -> (r: Result<PreparedHttp01Reissue, CertbotPrepareError>)
    ensures
        reissue_result_view(r) == reissue_guard(prepared.cert_name@, lookup_view(lookup)),
{
    match lookup {
        Err(e) => Err(e),
        Ok(None) => {
            let mut m = copy_str("Renewal config for '");
            m.append(prepared.cert_name.as_str());
            m.append("' not found. Issue it first with init_http_01.");
            Err(CertbotPrepareError::NotFound(m))
        },
        Ok(Some(a)) => {
            let webroot = copy_str("webroot");
            if a == webroot {
                Ok(prepared)
            } else {
                let mut m = copy_str("Certificate '");
                m.append(prepared.cert_name.as_str());
                m.append("' was issued with authenticator '");
                m.append(a.as_str());
                m.append("', not 'webroot'. Use renew_certificate for the DNS-01 flow instead.");
                Err(CertbotPrepareError::Invalid(m))
            }
        },
    }
}

/// The certbot arguments of a forced reissue: `certbot renew` restores the
/// stored domains and webroot from the renewal config, so only the lineage
/// name is passed.
pub open spec fn reissue_http_01_args(cert_name: Seq<char>) -> Seq<Seq<char>> {
    seq!["renew"@, "--cert-name"@, cert_name, "--force-renewal"@, "--non-interactive"@]
}

/// The certbot command that force-reissues the lineage now.
pub fn reissue_http_01_command(prepared: &PreparedHttp01Reissue) -> (r: CertbotCommand)
    ensures
        r@ == (CommandView {
            args: reissue_http_01_args(prepared.cert_name@),
            fail_prefix: "Certbot HTTP-01 reissue failed"@,
        }),
{
    let mut args: Vec<String> = Vec::new();
    args.push(copy_str("renew"));
    args.push(copy_str("--cert-name"));
    args.push(prepared.cert_name.clone());
    args.push(copy_str("--force-renewal"));
    args.push(copy_str("--non-interactive"));
    let r = CertbotCommand { args, fail_prefix: copy_str("Certbot HTTP-01 reissue failed") };
    assert(r@.args =~= reissue_http_01_args(prepared.cert_name@));
    r
}

} // verus!
