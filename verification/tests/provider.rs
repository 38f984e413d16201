use kiro_sso::allowlist::{extract_host, validate_external_idp_issuer};
use kiro_sso::error::SsoError;
use kiro_sso::idp::{
    accept_code_reply, accept_discovery, accept_refresh_reply, external_idp_authorize_url,
    external_idp_code_request, external_idp_refresh_request, oidc_discovery_request,
    DiscoveryReply, HttpMethod, TokenReply,
};
use kiro_sso::query::{parse_query_string, split_path_query};
use kiro_sso::types::{ExternalIdpTokenResponse, OidcDiscovery};

fn document(issuer: &str, token_endpoint: &str) -> DiscoveryReply {
    DiscoveryReply::Document(OidcDiscovery {
        authorization_endpoint: "https://login.microsoftonline.com/authorize".to_string(),
        token_endpoint: token_endpoint.to_string(),
        issuer: issuer.to_string(),
    })
}

fn token() -> ExternalIdpTokenResponse {
    ExternalIdpTokenResponse {
        access_token: "at".to_string(),
        refresh_token: Some("rt".to_string()),
        expires_in: Some(3600),
        token_type: None,
        scope: None,
    }
}

fn pair(name: &str, value: &str) -> (String, String) {
    (name.to_string(), value.to_string())
}

const ISSUER: &str = "https://login.microsoftonline.com/t/v2.0";
const ENDPOINT: &str = "https://login.microsoftonline.com/t/token";

#[test]
fn discovery_requests() {
    for issuer in [ISSUER.to_string(), format!("{}/", ISSUER), format!("{}///", ISSUER)] {
        let request = oidc_discovery_request(&issuer).unwrap();
        assert_eq!(request.method, HttpMethod::Get);
        assert_eq!(request.url, format!("{}/.well-known/openid-configuration", ISSUER));
        assert_eq!(request.headers, vec![pair("Accept", "application/json")]);
        assert!(request.form.is_empty());
        assert_eq!(request.timeout_secs, 15);
        assert!(!request.follow_redirects);
        assert!(validate_external_idp_issuer(&request.url).is_ok());
        assert_eq!(extract_host(&request.url), extract_host(&issuer));
    }
    assert_eq!(
        oidc_discovery_request("https://evil.example").unwrap_err(),
        SsoError::NotAllowlisted { field: "issuer_url".to_string() }
    );
    assert_eq!(
        oidc_discovery_request("https://evil.example?x=.microsoftonline.com").unwrap_err(),
        SsoError::NotAllowlisted { field: "issuer_url".to_string() }
    );
    assert_eq!(
        oidc_discovery_request("https://1.2.3.4/").unwrap_err(),
        SsoError::IpAddress { field: "issuer_url".to_string() }
    );
}

#[test]
fn discovery_documents() {
    let doc = accept_discovery(ISSUER, document(&format!("{}/", ISSUER), ENDPOINT)).unwrap();
    assert_eq!(doc.token_endpoint, ENDPOINT);
    assert_eq!(doc.issuer, format!("{}/", ISSUER));
    assert_eq!(doc.authorization_endpoint, "https://login.microsoftonline.com/authorize");

    let e = accept_discovery(ISSUER, document("https://other/", ENDPOINT)).unwrap_err();
    assert_eq!(
        e,
        SsoError::IssuerMismatch { expected: ISSUER.to_string(), actual: "https://other".to_string() }
    );
    assert_eq!(
        e.message(),
        "OIDC issuer 不匹配：期望 https://login.microsoftonline.com/t/v2.0, 实际 https://other"
    );

    assert_eq!(
        accept_discovery(ISSUER, document(ISSUER, "https://evil.example/token")).unwrap_err(),
        SsoError::NotAllowlisted { field: "token_endpoint".to_string() }
    );

    assert_eq!(
        accept_discovery(ISSUER, document(ISSUER, "https://evil.example#.microsoftonline.com"))
            .unwrap_err(),
        SsoError::NotAllowlisted { field: "token_endpoint".to_string() }
    );

    let e = accept_discovery(
        ISSUER,
        DiscoveryReply::Refused { status: "404 Not Found".to_string(), body: "gone".to_string() },
    )
    .unwrap_err();
    assert_eq!(e.message(), "OIDC discovery 失败 404 Not Found: gone");

    let e = accept_discovery(ISSUER, DiscoveryReply::Failed("timed out".to_string())).unwrap_err();
    assert_eq!(e, SsoError::RequestFailed { detail: "timed out".to_string() });
    assert_eq!(e.message(), "timed out");
}

#[test]
fn authorize_url_text() {
    assert_eq!(
        external_idp_authorize_url("https://a/b", "id", "http://127.0.0.1:1", "s-leg2", "ch", "openid email"),
        "https://a/b?client_id=id&response_type=code&redirect_uri=http%3A%2F%2F127.0.0.1%3A1&scope=openid%20email&state=s-leg2&code_challenge=ch&code_challenge_method=S256"
    );
}

#[test]
fn authorize_url_reads_back() {
    let (id, uri, state, challenge, scopes) =
        ("a&b=c", "http://127.0.0.1:3128/?x", "st ate+é", "_-~.%41", "openid 例え/");
    let url = external_idp_authorize_url("https://a/b", id, uri, state, challenge, scopes);
    let (path, query) = split_path_query(&url);
    assert_eq!(path, "https://a/b");
    let q = parse_query_string(query);
    assert_eq!(q.len(), 7);
    for (name, value) in [
        ("client_id", id),
        ("response_type", "code"),
        ("redirect_uri", uri),
        ("scope", scopes),
        ("state", state),
        ("code_challenge", challenge),
        ("code_challenge_method", "S256"),
    ] {
        assert_eq!(q.get(name).map(|v| v.as_str()), Some(value));
    }
}

#[test]
fn code_exchange_requests() {
    let request =
        external_idp_code_request(ENDPOINT, "id", "c", "v", "http://127.0.0.1:1", "sc", "0.9").unwrap();
    assert_eq!(request.method, HttpMethod::Post);
    assert_eq!(request.url, ENDPOINT);
    assert_eq!(
        request.headers,
        vec![pair("User-Agent", "KiroIDE-0.9"), pair("Accept", "application/json")]
    );
    assert_eq!(
        request.form,
        vec![
            pair("grant_type", "authorization_code"),
            pair("client_id", "id"),
            pair("code", "c"),
            pair("code_verifier", "v"),
            pair("redirect_uri", "http://127.0.0.1:1"),
            pair("scope", "sc"),
        ]
    );
    assert_eq!(request.timeout_secs, 30);
    assert!(!request.follow_redirects);
    assert_eq!(
        external_idp_code_request("https://evil?.microsoftonline.us", "id", "c", "v", "r", "s", "1")
            .unwrap_err(),
        SsoError::NotAllowlisted { field: "token_endpoint".to_string() }
    );
    assert_eq!(
        external_idp_code_request("https://evil", "id", "c", "v", "r", "s", "1").unwrap_err(),
        SsoError::NotAllowlisted { field: "token_endpoint".to_string() }
    );
}

#[test]
fn refresh_requests() {
    let request = external_idp_refresh_request(ENDPOINT, "id", "rt", "sc", "0.9").unwrap();
    assert_eq!(request.method, HttpMethod::Post);
    assert_eq!(request.url, ENDPOINT);
    assert_eq!(
        request.form,
        vec![
            pair("grant_type", "refresh_token"),
            pair("client_id", "id"),
            pair("refresh_token", "rt"),
            pair("scope", "sc"),
        ]
    );
    assert_eq!(request.timeout_secs, 60);
    assert!(!request.follow_redirects);
    assert_eq!(
        external_idp_refresh_request("https://evil\\.microsoftonline.cn", "id", "rt", "sc", "1")
            .unwrap_err(),
        SsoError::NotAllowlisted { field: "token_endpoint".to_string() }
    );
    assert_eq!(
        external_idp_refresh_request("http://9.9.9.9/", "id", "rt", "sc", "1").unwrap_err(),
        SsoError::IpAddress { field: "token_endpoint".to_string() }
    );
}

#[test]
fn token_replies() {
    let refused = || TokenReply::Refused { status: "400 Bad Request".to_string(), body: "no".to_string() };
    assert_eq!(accept_code_reply(TokenReply::Token(token())).unwrap().access_token, "at");
    assert_eq!(accept_refresh_reply(TokenReply::Token(token())).unwrap().expires_in, Some(3600));
    assert_eq!(
        accept_code_reply(refused()).unwrap_err().message(),
        "External IdP code 换 token 失败 400 Bad Request: no"
    );
    assert_eq!(
        accept_refresh_reply(refused()).unwrap_err().message(),
        "External IdP refresh 失败 400 Bad Request: no"
    );
    assert_eq!(
        accept_code_reply(TokenReply::Unreadable("eof".to_string())).unwrap_err().message(),
        "解析 external IdP token 响应失败: eof"
    );
    assert_eq!(
        accept_refresh_reply(TokenReply::Unreadable("eof".to_string())).unwrap_err().message(),
        "解析 external IdP refresh 响应失败: eof"
    );
    assert_eq!(
        accept_code_reply(TokenReply::Failed("x".to_string())).unwrap_err(),
        SsoError::RequestFailed { detail: "x".to_string() }
    );
    assert_eq!(
        accept_refresh_reply(TokenReply::Failed("x".to_string())).unwrap_err(),
        SsoError::RequestFailed { detail: "x".to_string() }
    );
}
