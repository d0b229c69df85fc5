use certbot_api::scripts::cert_name::{normalize_cert_name, wildcard_domain};

#[test]
fn normalize_strips_wildcard_prefix() {
    assert_eq!(normalize_cert_name("*.example.com"), "example.com");
}

#[test]
fn normalize_keeps_apex() {
    assert_eq!(normalize_cert_name("example.com"), "example.com");
}

#[test]
fn normalize_trims_whitespace_first() {
    assert_eq!(normalize_cert_name("  *.example.com \n"), "example.com");
    assert_eq!(normalize_cert_name("\texample.com  "), "example.com");
}

#[test]
fn normalize_strips_one_prefix_only() {
    assert_eq!(normalize_cert_name("*.*.example.com"), "*.example.com");
}

#[test]
fn normalize_blank_is_empty() {
    assert_eq!(normalize_cert_name("   "), "");
    assert_eq!(normalize_cert_name("*."), "");
}

#[test]
fn normalize_leaves_inner_star() {
    assert_eq!(normalize_cert_name("a*.example.com"), "a*.example.com");
    assert_eq!(normalize_cert_name("*example.com"), "*example.com");
}

#[test]
fn wildcard_of_apex() {
    assert_eq!(wildcard_domain("example.com"), "*.example.com");
}

#[test]
fn wildcard_of_cert_name_normalizes_back() {
    for d in ["example.com", " *.example.com", "*.a.b.c", "  x  ", ""] {
        let apex = normalize_cert_name(d);
        assert_eq!(normalize_cert_name(&wildcard_domain(&apex)), apex);
    }
}

#[test]
fn wildcard_and_apex_name_the_same_lineage() {
    for d in ["example.com", "a.b.example.org", "x"] {
        assert_eq!(normalize_cert_name(&format!("*.{}", d)), normalize_cert_name(d));
    }
}
