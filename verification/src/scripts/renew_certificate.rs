//! The synchronous DNS-01 renewal: the same command as the background
//! renewal, run directly for an apex + wildcard certificate.
use vstd::prelude::*;

use crate::scripts::cert_name::{cert_name_of, normalize_cert_name, wildcard_domain, wildcard_of};
use crate::scripts::certbot_exec::{CertbotCommand, CommandView};
use crate::scripts::renew_dns::{dns_cloudflare_flags, push_dns_cloudflare_flags};
use crate::text::{copy_str, strs};

verus! {

/// The certbot arguments that renew the apex + wildcard certificate of a
/// domain.
pub open spec fn renew_certificate_args(apex: Seq<char>) -> Seq<Seq<char>> {
    dns_cloudflare_flags() + seq![
        "--non-interactive"@,
        "--cert-name"@,
        apex,
        "--expand"@,
        "-d"@,
        apex,
        "-d"@,
        wildcard_of(apex),
    ]
}

/// The certbot command that renews `domain`'s certificate.
pub fn renew_certificate_command(domain: &str) -> (r: CertbotCommand)
    ensures
        r@ == (CommandView {
            args: renew_certificate_args(cert_name_of(domain@)),
            fail_prefix: "Certbot renewal failed"@,
        }),
{
    let apex = normalize_cert_name(domain);
    let wildcard = wildcard_domain(apex.as_str());
    let mut args: Vec<String> = Vec::new();
    push_dns_cloudflare_flags(&mut args);
    args.push(copy_str("--non-interactive"));
    args.push(copy_str("--cert-name"));
    args.push(apex.clone());
    args.push(copy_str("--expand"));
    args.push(copy_str("-d"));
    args.push(apex);
    args.push(copy_str("-d"));
    args.push(wildcard);
    let r = CertbotCommand { args, fail_prefix: copy_str("Certbot renewal failed") };
    assert(r@.args =~= renew_certificate_args(cert_name_of(domain@)));
    r
}

} // verus!
