use certbot_api::scripts::acme_challenges::{
    challenge_contents, challenge_dir, challenge_file, challenges_from_listing, is_acme_token,
    AcmeChallenge, ChallengeEntry, ChallengeListing,
};
use certbot_api::scripts::cert_files::{fullchain, fullchain_path, private_key, private_key_path};
use certbot_api::scripts::file_read::FileRead;
use certbot_api::scripts::get_domains_list::{domains_from_listing, LiveDirEntry, LiveListing};
use certbot_api::scripts::get_domains_with_expiration::domain_expiration;
use certbot_api::scripts::get_letsencrypt_log::{letsencrypt_log, tail_of_log, LOG_FILE};
use certbot_api::scripts::prepare_error::CertbotPrepareError;
use certbot_api::scripts::read_renewal_params::{
    parse_authenticator_line, parse_renewal_authenticator, renewal_authenticator,
    renewal_config_path,
};
use certbot_api::scripts::update_cloudflare_config::{cloudflare_config_content, CLOUDFLARE_CONFIG_PATH};

#[test]
fn renewal_config_path_of_lineage() {
    assert_eq!(renewal_config_path("a.com"), "/etc/letsencrypt/renewal/a.com.conf");
}

#[test]
fn authenticator_line_parsing() {
    assert_eq!(parse_authenticator_line("authenticator = webroot"), Some("webroot".to_string()));
    assert_eq!(parse_authenticator_line("  authenticator=dns-cloudflare  "), Some("dns-cloudflare".to_string()));
    assert_eq!(parse_authenticator_line("# authenticator = webroot"), None);
    assert_eq!(parse_authenticator_line("authenticator"), None);
    assert_eq!(parse_authenticator_line("installer = none"), None);
    assert_eq!(parse_authenticator_line("authenticator = a = b"), Some("a = b".to_string()));
}

#[test]
fn renewal_config_first_authenticator_wins() {
    let conf = "# renew_before_expiry = 30 days\nversion = 2.11.0\n[renewalparams]\n#authenticator = standalone\nauthenticator = webroot\nauthenticator = dns-cloudflare\n";
    assert_eq!(parse_renewal_authenticator(conf), Some("webroot".to_string()));
    assert_eq!(parse_renewal_authenticator("a = b\r\n authenticator = x \r\n"), Some("x".to_string()));
    assert_eq!(parse_renewal_authenticator("version = 1\n"), None);
    assert_eq!(parse_renewal_authenticator(""), None);
}

#[test]
fn renewal_lookup_outcomes() {
    let p = "/etc/letsencrypt/renewal/a.com.conf";
    assert!(matches!(renewal_authenticator(p, FileRead::NotFound), Ok(None)));
    assert!(matches!(
        renewal_authenticator(p, FileRead::Content("authenticator = webroot\n".to_string())),
        Ok(Some(a)) if a == "webroot"
    ));
    assert!(matches!(
        renewal_authenticator(p, FileRead::Content("version = 2\n".to_string())),
        Err(CertbotPrepareError::Io(m))
            if m == "Renewal config /etc/letsencrypt/renewal/a.com.conf has no 'authenticator' entry"
    ));
    assert!(matches!(
        renewal_authenticator(p, FileRead::Failed("permission denied".to_string())),
        Err(CertbotPrepareError::Io(m))
            if m == "Failed to read /etc/letsencrypt/renewal/a.com.conf: permission denied"
    ));
}

#[test]
fn fullchain_read_outcomes() {
    assert_eq!(fullchain_path(" *.a.com"), "/etc/letsencrypt/live/a.com/fullchain.pem");
    assert_eq!(fullchain("*.a.com", FileRead::Content("PEM".to_string())), Ok("PEM".to_string()));
    assert_eq!(
        fullchain("*.a.com", FileRead::NotFound),
        Err("Fullchain file not found for domain: *.a.com".to_string())
    );
    assert_eq!(
        fullchain("a.com", FileRead::Failed("denied".to_string())),
        Err("Failed to read fullchain file: denied".to_string())
    );
}

#[test]
fn private_key_read_outcomes() {
    assert_eq!(private_key_path("a.com"), "/etc/letsencrypt/live/a.com/privkey.pem");
    assert_eq!(private_key_path(" *.a.com "), "/etc/letsencrypt/live/a.com/privkey.pem");
    assert_eq!(private_key("a.com", FileRead::Content("KEY".to_string())), Ok("KEY".to_string()));
    assert_eq!(
        private_key("a.com", FileRead::NotFound),
        Err("Private key file not found for domain: a.com".to_string())
    );
    assert_eq!(
        private_key("a.com", FileRead::Failed("denied".to_string())),
        Err("Failed to read private key file: denied".to_string())
    );
}

#[test]
fn log_tail_lines() {
    let log = "one\ntwo\r\nthree\n".to_string();
    assert_eq!(tail_of_log(log.clone(), Some(2)), "two\nthree");
    assert_eq!(tail_of_log(log.clone(), Some(10)), "one\ntwo\nthree");
    assert_eq!(tail_of_log(log.clone(), Some(0)), log);
    assert_eq!(tail_of_log(log.clone(), None), log);
    assert_eq!(tail_of_log(String::new(), Some(3)), "");
}

#[test]
fn log_read_outcomes() {
    assert_eq!(LOG_FILE, "/var/log/letsencrypt/letsencrypt.log");
    assert_eq!(
        letsencrypt_log(FileRead::NotFound, Some(5)),
        Err("Log file not found: /var/log/letsencrypt/letsencrypt.log".to_string())
    );
    assert_eq!(
        letsencrypt_log(FileRead::Failed("denied".to_string()), None),
        Err("Failed to read /var/log/letsencrypt/letsencrypt.log: denied".to_string())
    );
    assert_eq!(
        letsencrypt_log(FileRead::Content("a\nb\nc".to_string()), Some(1)),
        Ok("c".to_string())
    );
}

#[test]
fn cloudflare_config_text() {
    assert_eq!(CLOUDFLARE_CONFIG_PATH, "/cloudflare.ini");
    assert_eq!(
        cloudflare_config_content("SECRET-REDACTED"),
        "# Cloudflare API token used by Certbot\ndns_cloudflare_api_token = SECRET-REDACTED"
    );
}

fn entry(name: &str, is_dir: bool) -> LiveDirEntry {
    LiveDirEntry { name: name.to_string(), is_dir }
}

#[test]
fn domains_list_sorted_dirs_without_readme() {
    let listing = LiveListing::Entries(vec![
        entry("b.com", true),
        entry("README", true),
        entry("README", false),
        entry("a.com", true),
        entry("notes.txt", false),
    ]);
    assert_eq!(domains_from_listing(listing), Ok(vec!["a.com".to_string(), "b.com".to_string()]));
}

#[test]
fn domains_list_missing_dir_is_empty() {
    assert_eq!(domains_from_listing(LiveListing::NotFound), Ok(Vec::new()));
}

#[test]
fn domains_list_errors() {
    assert_eq!(
        domains_from_listing(LiveListing::Failed("denied".to_string())),
        Err("Failed to read directory /etc/letsencrypt/live: denied".to_string())
    );
    assert_eq!(
        domains_from_listing(LiveListing::EntryFailed("io".to_string())),
        Err("Failed to read directory entry: io".to_string())
    );
}

#[test]
fn domain_expiration_entries() {
    let ok = domain_expiration("a.com".to_string(), Ok("2030-01-01T00:00:00+00:00".to_string()));
    assert_eq!(ok.domain, "a.com");
    assert_eq!(ok.expiration, Some("2030-01-01T00:00:00+00:00".to_string()));
    assert_eq!(ok.error, None);
    let bad = domain_expiration("b.com".to_string(), Err("no cert".to_string()));
    assert_eq!(bad.expiration, None);
    assert_eq!(bad.error, Some("no cert".to_string()));
}

#[test]
fn acme_token_validation() {
    assert!(is_acme_token("abcXYZ09-_"));
    assert!(!is_acme_token(""));
    assert!(!is_acme_token("../etc/passwd"));
    assert!(!is_acme_token("a.b"));
    assert!(!is_acme_token("tök"));
}

#[test]
fn acme_challenge_paths() {
    assert_eq!(challenge_dir(), "/var/www/acme/.well-known/acme-challenge");
    assert_eq!(
        challenge_file("tok_1"),
        Some("/var/www/acme/.well-known/acme-challenge/tok_1".to_string())
    );
    assert_eq!(challenge_file("a/b"), None);
}

#[test]
fn acme_challenge_read_outcomes() {
    let p = "/var/www/acme/.well-known/acme-challenge/t";
    assert_eq!(challenge_contents(p, FileRead::Content("k.a\n".to_string())), Ok(Some("k.a\n".to_string())));
    assert_eq!(challenge_contents(p, FileRead::NotFound), Ok(None));
    assert_eq!(
        challenge_contents(p, FileRead::Failed("denied".to_string())),
        Err("Failed to read /var/www/acme/.well-known/acme-challenge/t: denied".to_string())
    );
}

fn centry(name: &str, is_file: bool, content: Option<&str>) -> ChallengeEntry {
    ChallengeEntry { name: name.to_string(), is_file, content: content.map(|c| c.to_string()) }
}

fn tokens(v: &[AcmeChallenge]) -> Vec<(String, String)> {
    v.iter().map(|c| (c.token.clone(), c.content.clone())).collect()
}

#[test]
fn acme_challenges_listing() {
    let dir = "/var/www/acme/.well-known/acme-challenge";
    let listing = ChallengeListing::Entries(vec![
        centry("zeta", true, Some("z.key \n")),
        centry("sub", false, None),
        centry("alpha", true, Some("a.key")),
        centry("Mid", true, None),
    ]);
    let r = challenges_from_listing(dir, listing).ok().unwrap();
    assert_eq!(
        tokens(&r),
        vec![
            ("Mid".to_string(), String::new()),
            ("alpha".to_string(), "a.key".to_string()),
            ("zeta".to_string(), "z.key".to_string()),
        ]
    );
    assert_eq!(challenges_from_listing(dir, ChallengeListing::NotFound).ok().unwrap().len(), 0);
    assert_eq!(
        challenges_from_listing(dir, ChallengeListing::Failed("denied".to_string())).err(),
        Some("Failed to read /var/www/acme/.well-known/acme-challenge: denied".to_string())
    );
    assert_eq!(
        challenges_from_listing(dir, ChallengeListing::EntryFailed("io".to_string())).err(),
        Some("Failed to read directory entry: io".to_string())
    );
}
