use kiro_sso::allowlist::{
    allowed_issuer_suffixes, authority_is_allowed, extract_authority, extract_host, ipv4_literal,
    validate_external_idp_endpoint, validate_external_idp_issuer, validate_url_against_allowlist,
};
use kiro_sso::error::SsoError;

fn host(url: &str) -> Option<String> {
    extract_host(url)
}

#[test]
fn hosts_of_urls() {
    assert_eq!(host("https://login.microsoftonline.com/x"), Some("login.microsoftonline.com".to_string()));
    assert_eq!(host("https://login.microsoftonline.com:443/x"), Some("login.microsoftonline.com".to_string()));
    assert_eq!(host("a://b"), Some("b".to_string()));
    assert_eq!(host("a://b://c"), Some("b".to_string()));
    assert_eq!(host("login.microsoftonline.com"), None);
    assert_eq!(host("https://"), None);
    assert_eq!(host("https:///path"), None);
    assert_eq!(host("https://:80/path"), None);
    assert_eq!(host("https://[::1]/path"), Some("[".to_string()));
    assert_eq!(host("例://え/x"), Some("え".to_string()));
}

#[test]
fn dotted_decimal() {
    for good in ["0.0.0.0", "127.0.0.1", "255.255.255.255", "1.20.255.9"] {
        assert!(ipv4_literal(good), "{}", good);
    }
    for bad in [
        "", "1.2.3", "1.2.3.4.5", "256.1.1.1", "01.1.1.1", "1.1.1.", ".1.1.1", "1..1.1", "a.1.1.1",
        "1.1.1.1 ", "+1.1.1.1", "1000.1.1.1", "00.0.0.0", "1,1,1,1", "::1",
    ] {
        assert!(!ipv4_literal(bad), "{}", bad);
    }
}

#[test]
fn trusted_issuers() {
    for url in [
        "https://login.microsoftonline.com/tenant/v2.0",
        "https://login.microsoftonline.us/",
        "https://login.partner.microsoftonline.cn",
        "HTTPS://LOGIN.MicrosoftOnline.COM/T",
    ] {
        assert!(validate_external_idp_issuer(url).is_ok(), "{}", url);
        assert!(validate_external_idp_endpoint(url).is_ok(), "{}", url);
    }
}

#[test]
fn foreign_domains_are_refused() {
    for url in [
        "https://microsoftonline.com/x",
        "https://login.microsoftonline.com.evil.example/x",
        "https://evil.example/login.microsoftonline.com",
        "https://login.microsoftonline.com:443/x",
        "login.microsoftonline.com",
        "",
    ] {
        assert_eq!(
            validate_external_idp_issuer(url),
            Err(SsoError::NotAllowlisted { field: "issuer_url".to_string() }),
            "{}",
            url
        );
        assert_eq!(
            validate_external_idp_endpoint(url),
            Err(SsoError::NotAllowlisted { field: "token_endpoint".to_string() })
        );
    }
}

#[test]
fn addresses_are_refused() {
    for url in ["http://127.0.0.1/x", "http://10.0.0.1:80/x", "http://[192.168.0.1]/x"] {
        assert_eq!(
            validate_external_idp_issuer(url),
            Err(SsoError::IpAddress { field: "issuer_url".to_string() })
        );
        assert_eq!(
            validate_url_against_allowlist(url, "other"),
            Err(SsoError::IpAddress { field: "other".to_string() })
        );
    }
    // A version 6 address ends at its first colon and is foreign rather than an address.
    assert_eq!(
        validate_external_idp_issuer("http://[::1]/x"),
        Err(SsoError::NotAllowlisted { field: "issuer_url".to_string() })
    );
}

#[test]
fn capital_letters_outside_ascii() {
    assert!(validate_external_idp_issuer("https://ÄÖ.MICROSOFTONLINE.com/Ü").is_ok());
    assert!(validate_external_idp_issuer("https://ΑΣ.microsoftonline.US").is_ok());
    assert!(validate_external_idp_issuer("https://login.mİcrosoftonline.com").is_err());
    assert!(authority_is_allowed("https://A.MICROSOFTONLINE.US/b"));
}

#[test]
fn small_forms_of_characters_outside_ascii() {
    for c in '\u{80}'..=char::MAX {
        let small: String = c.to_lowercase().collect();
        match c {
            '\u{212a}' => assert_eq!(small, "k"),
            '\u{130}' => assert_eq!(small, "i\u{307}"),
            _ => assert!(!small.chars().any(|s| s.is_ascii()), "{:?}", c),
        }
    }
}

#[test]
fn messages_of_refusals() {
    assert_eq!(
        validate_external_idp_issuer("http://127.0.0.1").unwrap_err().message(),
        "External IdP issuer_url 不允许使用 IP 地址"
    );
    assert_eq!(
        validate_external_idp_endpoint("x").unwrap_err().message(),
        "External IdP token_endpoint 域名不在白名单（允许: .microsoftonline.com, .microsoftonline.us, .microsoftonline.cn）"
    );
    assert_eq!(
        allowed_issuer_suffixes(),
        vec![".microsoftonline.com", ".microsoftonline.us", ".microsoftonline.cn"]
    );
}

#[test]
fn authorities_of_urls() {
    assert_eq!(extract_authority("https://a.b/c"), Some("a.b"));
    assert_eq!(extract_authority("https://a.b?c"), Some("a.b"));
    assert_eq!(extract_authority("https://a.b#c"), Some("a.b"));
    assert_eq!(extract_authority("https://a.b\\c/d"), Some("a.b\\c"));
    assert_eq!(extract_authority("https://a.b#c?d/e\\f"), Some("a.b"));
    assert_eq!(extract_authority("https://u@a.b:443"), Some("u@a.b:443"));
    assert_eq!(extract_authority("https:///a.b"), Some(""));
    assert_eq!(extract_authority("https://"), Some(""));
    assert_eq!(extract_authority("a.b/c"), None);
    assert_eq!(extract_authority("http:a.b?c://d"), None);
    assert_eq!(extract_authority("a.b?c://d"), None);
}

#[test]
fn allowed_domains_behind_the_authority_are_refused() {
    for url in [
        "https://evil.com?x=.microsoftonline.com",
        "https://evil.com#.microsoftonline.com",
        "https://evil.com\\.microsoftonline.com",
        "https://evil.com?x#y\\.microsoftonline.us",
        "https://127.0.0.1?x=.microsoftonline.com",
        "https://127.0.0.1#.microsoftonline.com",
        "https://127.0.0.1\\.microsoftonline.com",
        "https://[127.0.0.1]?.microsoftonline.cn",
        "https://login.microsoftonline.com\\@evil.com/x",
        "https://login.microsoftonline.com\\",
        "https://evil.com\\@login.microsoftonline.com/x",
        "http:evil.com?x://login.microsoftonline.com",
        "evil.com/x://login.microsoftonline.com",
    ] {
        assert_eq!(
            validate_external_idp_issuer(url),
            Err(SsoError::NotAllowlisted { field: "issuer_url".to_string() }),
            "{}",
            url
        );
        assert_eq!(
            validate_external_idp_endpoint(url),
            Err(SsoError::NotAllowlisted { field: "token_endpoint".to_string() }),
            "{}",
            url
        );
    }
}

#[test]
fn queries_and_fragments_of_trusted_urls() {
    for tail in [
        "", "/", "?x=y", "#z", "/\\", "?\\@evil.com", "\\b.microsoftonline.us", "/a?b#c", "?x=evil.com",
        "/://evil.com",
    ] {
        let url = format!("https://login.microsoftonline.com{}", tail);
        assert!(validate_external_idp_issuer(&url).is_ok(), "{}", url);
    }
}

#[test]
fn letter_case_does_not_matter() {
    for url in [
        "https://login.microsoftonline.com/Tenant",
        "https://login.MICROSOFTONLINE.us?x",
        "https://evil.com/x",
        "http://127.0.0.1/x",
        "http://[10.0.0.1]:80/X",
        "https://é.MicrosoftOnline.CN/Σ",
        "https://ÄΣ.example/é",
        "nothing",
    ] {
        let verdict = validate_url_against_allowlist(url, "f");
        assert_eq!(validate_url_against_allowlist(&url.to_ascii_uppercase(), "f"), verdict);
        assert_eq!(validate_url_against_allowlist(&url.to_ascii_lowercase(), "f"), verdict);
    }
}

#[test]
fn paths_do_not_matter() {
    for host in [
        "login.microsoftonline.com", "evil.com", "127.0.0.1", "a.microsoftonline.us:1",
        "e?.microsoftonline.cn", "ÄΣ.microsoftonline.com", "login.microsoftonline.com\\", "ÄΣ", "",
    ] {
        let short = format!("https://{}", host);
        let verdict = validate_url_against_allowlist(&short, "f");
        for path in ["", "x", "é", ".microsoftonline.com", "://127.0.0.1", "?a#b\\c"] {
            let long = format!("{}/{}", short, path);
            assert_eq!(validate_url_against_allowlist(&long, "f"), verdict, "{}", long);
        }
    }
}
