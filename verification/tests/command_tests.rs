use certbot_api::scripts::add_domain::add_domain_command;
use certbot_api::scripts::certbot_exec::{certbot_outcome, CertbotCommand, CertbotRun};
use certbot_api::scripts::init_http_01::{
    default_http_01_webroot, guard_init_http_01, init_http_01_command, validate_init_http_01,
    PreparedHttp01Issue, DEFAULT_HTTP_01_WEBROOT,
};
use certbot_api::scripts::prepare_error::CertbotPrepareError;
use certbot_api::scripts::reissue_http_01::{
    guard_reissue_http_01, reissue_http_01_command, validate_reissue_http_01,
};
use certbot_api::scripts::renew_certificate::renew_certificate_command;
use certbot_api::scripts::renew_dns::{guard_renew_dns, renew_dns_command, validate_renew_dns};

fn s(v: &[&str]) -> Vec<String> {
    v.iter().map(|x| x.to_string()).collect()
}

fn invalid_message(e: CertbotPrepareError) -> String {
    match e {
        CertbotPrepareError::Invalid(m) => m,
        other => panic!("expected Invalid, got {:?}", other),
    }
}

fn issue(domains: &[&str], email: &str, webroot: Option<&str>) -> PreparedHttp01Issue {
    match validate_init_http_01(s(domains), email.to_string(), webroot.map(|w| w.to_string())) {
        Ok(p) => p,
        Err(e) => panic!("unexpected error {:?}", e),
    }
}

const DNS_FLAGS: [&str; 6] = [
    "certonly",
    "--dns-cloudflare",
    "--dns-cloudflare-credentials",
    "/cloudflare.ini",
    "--dns-cloudflare-propagation-seconds",
    "30",
];

fn with_dns_flags(rest: &[&str]) -> Vec<String> {
    let mut v = s(&DNS_FLAGS);
    v.extend(s(rest));
    v
}

#[test]
fn init_http_01_trims_and_drops_blank_domains() {
    let p = issue(&[" a.example.com ", "", "  ", "b.example.com"], "  me@example.com ", None);
    assert_eq!(p.cert_name, "a.example.com");
    assert_eq!(p.domains, s(&["a.example.com", "b.example.com"]));
    assert_eq!(p.email, "me@example.com");
    assert_eq!(p.webroot, DEFAULT_HTTP_01_WEBROOT);
}

#[test]
fn init_http_01_webroot_choice() {
    assert_eq!(issue(&["a.com"], "e@x", Some("  /srv/www ")).webroot, "/srv/www");
    assert_eq!(issue(&["a.com"], "e@x", Some("   ")).webroot, "/var/www/acme");
    assert_eq!(default_http_01_webroot(), "/var/www/acme");
}

#[test]
fn init_http_01_requires_email() {
    let e = validate_init_http_01(s(&["a.com"]), "  ".to_string(), None);
    assert_eq!(
        invalid_message(e.err().unwrap()),
        "Email is required for ACME registration"
    );
}

#[test]
fn init_http_01_email_checked_before_domains() {
    let e = validate_init_http_01(s(&[]), String::new(), None);
    assert_eq!(
        invalid_message(e.err().unwrap()),
        "Email is required for ACME registration"
    );
}

#[test]
fn init_http_01_requires_a_domain() {
    let e = validate_init_http_01(s(&["", "   "]), "e@x".to_string(), None);
    assert_eq!(invalid_message(e.err().unwrap()), "At least one domain is required");
}

#[test]
fn init_http_01_rejects_first_wildcard() {
    let e = validate_init_http_01(s(&["a.com", " *.b.com", "*.c.com"]), "e@x".to_string(), None);
    assert_eq!(
        invalid_message(e.err().unwrap()),
        "HTTP-01 cannot validate the wildcard domain '*.b.com'. Wildcards require DNS-01 — use add_domain."
    );
}

#[test]
fn init_http_01_guard_outcomes() {
    let p = guard_init_http_01(issue(&["a.com"], "e@x", None), Ok(None)).ok().unwrap();
    assert_eq!(p.cert_name, "a.com");
    let p = guard_init_http_01(issue(&["a.com"], "e@x", None), Ok(Some("webroot".to_string())))
        .ok()
        .unwrap();
    assert_eq!(p.domains, s(&["a.com"]));
    let e = guard_init_http_01(
        issue(&["a.com"], "e@x", None),
        Ok(Some("dns-cloudflare".to_string())),
    );
    assert_eq!(
        invalid_message(e.err().unwrap()),
        "A certificate named 'a.com' already exists with authenticator 'dns-cloudflare'. Refusing to overwrite it via HTTP-01 (it would drop its current SANs). Use a different primary domain, or the matching renewal flow."
    );
    let e = guard_init_http_01(
        issue(&["a.com"], "e@x", None),
        Err(CertbotPrepareError::Io("disk".to_string())),
    );
    assert!(matches!(e, Err(CertbotPrepareError::Io(m)) if m == "disk"));
}

#[test]
fn init_http_01_command_args() {
    let p = issue(&["a.com", "www.a.com"], "e@x", Some("/w"));
    let c: CertbotCommand = init_http_01_command(&p);
    assert_eq!(
        c.args,
        s(&[
            "certonly",
            "--webroot",
            "-w",
            "/w",
            "--email",
            "e@x",
            "--agree-tos",
            "--non-interactive",
            "--cert-name",
            "a.com",
            "--expand",
            "-d",
            "a.com",
            "-d",
            "www.a.com",
        ])
    );
    assert_eq!(c.fail_prefix, "Certbot HTTP-01 issuance failed");
}

#[test]
fn reissue_validation() {
    let p = validate_reissue_http_01("  a.com ".to_string()).ok().unwrap();
    assert_eq!(p.cert_name, "a.com");
    let e = validate_reissue_http_01("   ".to_string());
    assert_eq!(
        invalid_message(e.err().unwrap()),
        "A domain (certificate name) is required"
    );
    let e = validate_reissue_http_01(" *.a.com".to_string());
    assert_eq!(
        invalid_message(e.err().unwrap()),
        "HTTP-01 certificates are per-FQDN; pass the exact primary domain, not a wildcard."
    );
}

#[test]
fn reissue_guard_outcomes() {
    let p = validate_reissue_http_01("a.com".to_string()).ok().unwrap();
    let e = guard_reissue_http_01(p, Ok(None));
    assert!(matches!(e, Err(CertbotPrepareError::NotFound(m))
        if m == "Renewal config for 'a.com' not found. Issue it first with init_http_01."));
    let p = validate_reissue_http_01("a.com".to_string()).ok().unwrap();
    let e = guard_reissue_http_01(p, Ok(Some("dns-cloudflare".to_string())));
    assert_eq!(
        invalid_message(e.err().unwrap()),
        "Certificate 'a.com' was issued with authenticator 'dns-cloudflare', not 'webroot'. Use renew_certificate for the DNS-01 flow instead."
    );
    let p = validate_reissue_http_01("a.com".to_string()).ok().unwrap();
    let p = guard_reissue_http_01(p, Ok(Some("webroot".to_string()))).ok().unwrap();
    let c = reissue_http_01_command(&p);
    assert_eq!(
        c.args,
        s(&["renew", "--cert-name", "a.com", "--force-renewal", "--non-interactive"])
    );
    assert_eq!(c.fail_prefix, "Certbot HTTP-01 reissue failed");
}

#[test]
fn renew_dns_always_covers_apex_and_wildcard() {
    for d in ["example.com", "*.example.com", "  *.example.com  "] {
        let p = validate_renew_dns(d.to_string()).ok().unwrap();
        assert_eq!(p.cert_name, "example.com");
        assert_eq!(p.domains, s(&["example.com", "*.example.com"]));
    }
}

#[test]
fn renew_dns_requires_domain() {
    let e = validate_renew_dns(" *. ".to_string());
    assert_eq!(invalid_message(e.err().unwrap()), "A domain is required");
}

#[test]
fn renew_dns_guard_refuses_webroot() {
    let p = validate_renew_dns("a.com".to_string()).ok().unwrap();
    let e = guard_renew_dns(p, Ok(Some("webroot".to_string())));
    assert_eq!(
        invalid_message(e.err().unwrap()),
        "Certificate 'a.com' was issued via HTTP-01 (webroot). Use reissue_http_01 instead — a DNS-01 renewal would replace it with a DNS apex+wildcard cert."
    );
    let p = validate_renew_dns("a.com".to_string()).ok().unwrap();
    assert!(guard_renew_dns(p, Ok(Some("dns-cloudflare".to_string()))).is_ok());
    let p = validate_renew_dns("a.com".to_string()).ok().unwrap();
    assert!(guard_renew_dns(p, Ok(None)).is_ok());
}

#[test]
fn renew_dns_command_args() {
    let p = validate_renew_dns("*.a.com".to_string()).ok().unwrap();
    let c = renew_dns_command(&p);
    assert_eq!(
        c.args,
        with_dns_flags(&["--non-interactive", "--cert-name", "a.com", "--expand", "-d", "a.com", "-d", "*.a.com"])
    );
    assert_eq!(c.fail_prefix, "Certbot renewal failed");
}

#[test]
fn renew_certificate_command_args() {
    let c = renew_certificate_command(" *.a.com");
    assert_eq!(
        c.args,
        with_dns_flags(&["--non-interactive", "--cert-name", "a.com", "--expand", "-d", "a.com", "-d", "*.a.com"])
    );
    assert_eq!(c.fail_prefix, "Certbot renewal failed");
}

#[test]
fn add_domain_command_args() {
    let c = add_domain_command("*.a.com", "me@a.com", Ok(None)).ok().unwrap();
    assert_eq!(
        c.args,
        with_dns_flags(&[
            "--email",
            "me@a.com",
            "--agree-tos",
            "--non-interactive",
            "--cert-name",
            "a.com",
            "--expand",
            "-d",
            "a.com",
            "-d",
            "*.a.com",
        ])
    );
    assert_eq!(c.fail_prefix, "Certbot failed");
    assert!(add_domain_command("a.com", "m", Ok(Some("dns-cloudflare".to_string()))).is_ok());
}

#[test]
fn add_domain_refuses_webroot_lineage() {
    let e = add_domain_command("a.com", "m", Ok(Some("webroot".to_string())));
    assert_eq!(
        e.err().unwrap(),
        "Certificate 'a.com' was issued via HTTP-01 (webroot). Use reissue_http_01 instead — add_domain would replace it with a DNS apex+wildcard cert."
    );
}

#[test]
fn add_domain_reports_lookup_failure_by_message() {
    let e = add_domain_command("a.com", "m", Err(CertbotPrepareError::Io("Failed to read x: y".to_string())));
    assert_eq!(e.err().unwrap(), "Failed to read x: y");
}

#[test]
fn certbot_outcome_variants() {
    assert_eq!(
        certbot_outcome("P", CertbotRun::SpawnFailed("no such file".to_string())),
        Err("Failed to execute certbot: no such file".to_string())
    );
    assert_eq!(
        certbot_outcome("Certbot renewal failed", CertbotRun::TimedOut),
        Err("Certbot renewal failed timed out after 30 minutes".to_string())
    );
    assert_eq!(
        certbot_outcome(
            "P",
            CertbotRun::Exited { success: true, stdout: "ok\n".to_string(), stderr: "warn".to_string() }
        ),
        Ok("ok\n".to_string())
    );
    assert_eq!(
        certbot_outcome(
            "P",
            CertbotRun::Exited { success: false, stdout: "out".to_string(), stderr: "boom".to_string() }
        ),
        Err("P: boom".to_string())
    );
}

#[test]
fn prepare_error_status_and_message() {
    let nf = CertbotPrepareError::NotFound("a".to_string());
    let inv = CertbotPrepareError::Invalid("b".to_string());
    let io = CertbotPrepareError::Io("c".to_string());
    assert_eq!((nf.http_status(), nf.message()), (404, "a"));
    assert_eq!((inv.http_status(), inv.message()), (400, "b"));
    assert_eq!((io.http_status(), io.message()), (500, "c"));
    assert_eq!(io.to_string(), "c");
    assert!(matches!(inv.duplicate(), CertbotPrepareError::Invalid(m) if m == "b"));
}
