use kiro_sso::idp::DiscoveryReply;
use kiro_sso::pages::{error_page, success_page, BAD_REQUEST, NOT_FOUND};
use kiro_sso::server::{callback_redirect_uri, SsoAction, SsoEvent, SsoServer};
use kiro_sso::types::{ExternalIdpTokenResponse, KiroSsoResult, OidcDiscovery, SocialToken};

fn server() -> SsoServer {
    SsoServer::new("https://portal".to_string(), "st".to_string(), "verifier".to_string(), 3128)
}

fn request(target: &str) -> SsoEvent {
    SsoEvent::Request(format!("GET {} HTTP/1.1\r\nHost: x\r\n\r\n", target).into_bytes())
}

fn step(server: SsoServer, event: SsoEvent) -> (SsoServer, SsoAction) {
    assert!(server.awaits(&event));
    server.step(event)
}

fn stopped(s: &SsoServer) -> bool {
    !s.awaits(&SsoEvent::Closed) && !s.awaits(&request("/signin/callback?code=c"))
}

/// The reply and the failure of a stop.
fn failure(action: SsoAction) -> (String, String) {
    match action {
        SsoAction::Stop { reply: Some(reply), outcome: Some(Err(message)) } => (reply, message),
        other => panic!("{:?}", other),
    }
}

fn waits(action: SsoAction, expected: Option<&str>) {
    match action {
        SsoAction::Wait { reply } => assert_eq!(reply.as_deref(), expected),
        other => panic!("{:?}", other),
    }
}

fn success(action: SsoAction) -> KiroSsoResult {
    match action {
        SsoAction::Stop { reply: None, outcome: Some(Ok(result)) } => result,
        other => panic!("{:?}", other),
    }
}

const DESCRIPTOR: &str = "/signin/callback?state=st&login_option=external_idp&issuer_url=https%3A%2F%2Flogin.microsoftonline.com%2Ft%2Fv2.0&client_id=cid";

fn document() -> OidcDiscovery {
    OidcDiscovery {
        authorization_endpoint: "https://login.microsoftonline.com/t/authorize".to_string(),
        token_endpoint: "https://login.microsoftonline.com/t/token".to_string(),
        issuer: "https://login.microsoftonline.com/t/v2.0/".to_string(),
    }
}

fn at_second_leg() -> SsoServer {
    let (s, action) = step(server(), request(DESCRIPTOR));
    assert!(matches!(action, SsoAction::Discover { .. }));
    let (s, action) = step(s, SsoEvent::Discovery(DiscoveryReply::Document(document())));
    assert!(matches!(action, SsoAction::GeneratePkce));
    let (s, action) =
        step(s, SsoEvent::Pkce { verifier: "v2".to_string(), challenge: "c2".to_string() });
    waits(
        action,
        Some(
            "HTTP/1.1 302 Found\r\nLocation: https://login.microsoftonline.com/t/authorize?client_id=cid&response_type=code&redirect_uri=http%3A%2F%2F127.0.0.1%3A3128&scope=openid%20profile%20email%20offline_access&state=st-leg2&code_challenge=c2&code_challenge_method=S256\r\nContent-Length: 0\r\nConnection: close\r\n\r\n",
        ),
    );
    s
}

#[test]
fn redirect_addresses() {
    assert_eq!(callback_redirect_uri(3128), "http://127.0.0.1:3128");
    assert_eq!(callback_redirect_uri(0), "http://127.0.0.1:0");
    assert_eq!(callback_redirect_uri(65535), "http://127.0.0.1:65535");
    assert_eq!(server().redirect_uri(), "http://127.0.0.1:3128");
}

#[test]
fn social_sign_in() {
    let (s, action) = step(server(), request("/signin/callback?code=abc&state=st&login_option=google%2Bx"));
    match action {
        SsoAction::ExchangeSocial { reply, exchange } => {
            assert_eq!(reply, success_page());
            assert_eq!(exchange.auth_endpoint, "https://portal");
            assert_eq!(exchange.code, "abc");
            assert_eq!(exchange.code_verifier, "verifier");
            assert_eq!(
                exchange.redirect_uri,
                "http://127.0.0.1:3128/signin/callback?login_option=google%2Bx"
            );
        }
        other => panic!("{:?}", other),
    }
    assert!(!s.awaits(&SsoEvent::Closed));
    let token = SocialToken {
        access_token: "at".to_string(),
        refresh_token: Some("rt".to_string()),
        expires_in: Some(7),
    };
    let (s, action) = step(s, SsoEvent::Social(Ok(token)));
    let result = success(action);
    assert_eq!(result.auth_method, "social");
    assert_eq!(result.access_token, "at");
    assert_eq!(result.refresh_token, Some("rt".to_string()));
    assert_eq!(result.expires_in, Some(7));
    assert_eq!(result.email, None);
    assert_eq!(result.token_endpoint, None);
    assert_eq!(result.issuer_url, None);
    assert_eq!(result.scopes, None);
    assert_eq!(result.client_id, None);
    assert!(stopped(&s));
}

#[test]
fn social_sign_in_without_option_or_state() {
    let (s, action) = step(server(), request("/signin/callback?code=abc"));
    match action {
        SsoAction::ExchangeSocial { exchange, .. } => {
            assert_eq!(exchange.redirect_uri, "http://127.0.0.1:3128/signin/callback")
        }
        other => panic!("{:?}", other),
    }
    let (s, action) = step(s, SsoEvent::Social(Err("denied".to_string())));
    match action {
        SsoAction::Stop { reply: None, outcome: Some(Err(message)) } => {
            assert_eq!(message, "Kiro 社交 token 换取失败: denied")
        }
        other => panic!("{:?}", other),
    }
    assert!(stopped(&s));
}

#[test]
fn enterprise_sign_in() {
    let (s, action) = step(at_second_leg(), request("/oauth/callback?code=xyz&state=ignored"));
    match action {
        SsoAction::ExchangeIdp { reply, exchange } => {
            assert_eq!(reply, success_page());
            assert_eq!(exchange.token_endpoint, "https://login.microsoftonline.com/t/token");
            assert_eq!(exchange.client_id, "cid");
            assert_eq!(exchange.code, "xyz");
            assert_eq!(exchange.code_verifier, "v2");
            assert_eq!(exchange.redirect_uri, "http://127.0.0.1:3128");
            assert_eq!(exchange.scopes, "openid profile email offline_access");
        }
        other => panic!("{:?}", other),
    }
    let token = ExternalIdpTokenResponse {
        access_token: "eyJhbGciOiJub25lIn0.eyJlbWFpbCI6ImFAYi5jIn0.c2ln".to_string(),
        refresh_token: None,
        expires_in: Some(3600),
        token_type: Some("Bearer".to_string()),
        scope: None,
    };
    let (s, action) = step(s, SsoEvent::Idp(Ok(token)));
    let result = success(action);
    assert_eq!(result.auth_method, "external_idp");
    assert_eq!(result.access_token, "eyJhbGciOiJub25lIn0.eyJlbWFpbCI6ImFAYi5jIn0.c2ln");
    assert_eq!(result.refresh_token, None);
    assert_eq!(result.expires_in, Some(3600));
    assert_eq!(result.email, Some("a@b.c".to_string()));
    assert_eq!(
        result.token_endpoint,
        Some("https://login.microsoftonline.com/t/token".to_string())
    );
    assert_eq!(result.issuer_url, Some("https://login.microsoftonline.com/t/v2.0".to_string()));
    assert_eq!(result.scopes, Some("openid profile email offline_access".to_string()));
    assert_eq!(result.client_id, Some("cid".to_string()));
    assert!(stopped(&s));
}

#[test]
fn enterprise_exchange_fails() {
    let (s, _) = step(at_second_leg(), request("/oauth/callback?code=xyz"));
    let (_, action) = step(s, SsoEvent::Idp(Err("denied".to_string())));
    match action {
        SsoAction::Stop { reply: None, outcome: Some(Err(message)) } => {
            assert_eq!(message, "External IdP token 换取失败: denied")
        }
        other => panic!("{:?}", other),
    }
}

#[test]
fn second_leg_survives_other_requests() {
    let (s, action) = step(at_second_leg(), request("/favicon.ico"));
    waits(action, Some(NOT_FOUND));
    let (s, action) = step(s, request("/oauth/callback?code="));
    waits(action, Some(BAD_REQUEST));
    let (s, action) = step(s, request("/oauth/callback"));
    waits(action, Some(BAD_REQUEST));
    let (_, action) = step(s, request("/oauth/callback?code=1"));
    assert!(matches!(action, SsoAction::ExchangeIdp { .. }));
}

#[test]
fn second_leg_without_the_first() {
    let (s, action) = step(server(), request("/oauth/callback?code=1"));
    match action {
        SsoAction::Stop { reply, outcome: None } => assert_eq!(reply, Some(success_page())),
        other => panic!("{:?}", other),
    }
    assert!(stopped(&s));
}

#[test]
fn reported_errors() {
    let (s, action) = step(server(), request("/signin/callback?error=denied&error_description=not%20you"));
    assert_eq!(failure(action), (error_page("not you"), "Kiro 门户登录失败: not you".to_string()));
    assert!(stopped(&s));
    let (_, action) = step(server(), request("/signin/callback?error=denied&code=1"));
    assert_eq!(failure(action), (error_page("denied"), "Kiro 门户登录失败: denied".to_string()));
    let (_, action) = step(at_second_leg(), request("/oauth/callback?error=%3Cb%3E"));
    assert_eq!(failure(action), (error_page("<b>"), "IdP 登录失败: <b>".to_string()));
}

#[test]
fn wrong_state() {
    for target in [
        "/signin/callback?code=1&state=other".to_string(),
        DESCRIPTOR.replace("state=st", "state=other"),
    ] {
        let (s, action) = step(server(), request(&target));
        assert_eq!(
            failure(action),
            (error_page("OAuth state 不匹配"), "OAuth state 不匹配".to_string())
        );
        assert!(stopped(&s));
    }
}

#[test]
fn incomplete_descriptors() {
    for target in [
        "/signin/callback",
        "/signin/callback?login_option=external_idp&code=1",
        "/signin/callback?issuer_url=https%3A%2F%2Fx.microsoftonline.com",
        "/signin/callback?client_id=x",
    ] {
        let (s, action) = step(server(), request(target));
        waits(action, Some(BAD_REQUEST));
        assert!(s.awaits(&SsoEvent::Closed));
    }
}

#[test]
fn untrusted_issuer() {
    let (s, action) =
        step(server(), request("/signin/callback?issuer_url=http%3A%2F%2F10.0.0.1&client_id=x"));
    let message = "OIDC discovery 失败: External IdP issuer_url 不允许使用 IP 地址";
    assert_eq!(failure(action), (error_page(message), message.to_string()));
    assert!(stopped(&s));
}

#[test]
fn failed_discovery() {
    let (s, action) = step(server(), request(DESCRIPTOR));
    match action {
        SsoAction::Discover { request } => assert_eq!(
            request.url,
            "https://login.microsoftonline.com/t/v2.0/.well-known/openid-configuration"
        ),
        other => panic!("{:?}", other),
    }
    let refused =
        DiscoveryReply::Refused { status: "500 Oops".to_string(), body: "<x>".to_string() };
    let (s, action) = step(s, SsoEvent::Discovery(refused));
    let message = "OIDC discovery 失败: OIDC discovery 失败 500 Oops: <x>";
    assert_eq!(failure(action), (error_page(message), message.to_string()));
    assert!(stopped(&s));
}

#[test]
fn untrusted_token_endpoint() {
    let (s, _) = step(server(), request(DESCRIPTOR));
    let mut doc = document();
    doc.token_endpoint = "https://evil.example/token".to_string();
    let (s, action) = step(s, SsoEvent::Discovery(DiscoveryReply::Document(doc)));
    let message = "OIDC discovery 失败: External IdP token_endpoint 域名不在白名单（允许: .microsoftonline.com, .microsoftonline.us, .microsoftonline.cn）";
    assert_eq!(failure(action), (error_page(message), message.to_string()));
    assert!(stopped(&s));
}

#[test]
fn another_first_leg_replaces_the_second() {
    let (s, _) = step(at_second_leg(), request(DESCRIPTOR));
    let (s, _) = step(s, SsoEvent::Discovery(DiscoveryReply::Document(document())));
    let (s, _) = step(s, SsoEvent::Pkce { verifier: "v3".to_string(), challenge: "c3".to_string() });
    let (_, action) = step(s, request("/oauth/callback?code=1"));
    match action {
        SsoAction::ExchangeIdp { exchange, .. } => assert_eq!(exchange.code_verifier, "v3"),
        other => panic!("{:?}", other),
    }
}

#[test]
fn scopes_of_the_portal() {
    let (s, _) = step(server(), request(&format!("{}&scopes=", DESCRIPTOR)));
    let (s, _) = step(s, SsoEvent::Discovery(DiscoveryReply::Document(document())));
    let (s, _) = step(s, SsoEvent::Pkce { verifier: "v".to_string(), challenge: "c".to_string() });
    let (_, action) = step(s, request("/oauth/callback?code=1"));
    match action {
        SsoAction::ExchangeIdp { exchange, .. } => assert_eq!(exchange.scopes, ""),
        other => panic!("{:?}", other),
    }
}

#[test]
fn other_requests() {
    for text in ["POST /signin/callback HTTP/1.1\r\n\r\n", "nonsense", "GET /signin/callback/ HTTP/1.1\r\n"] {
        let (s, action) = step(server(), SsoEvent::Request(text.as_bytes().to_vec()));
        waits(action, Some(NOT_FOUND));
        assert!(s.awaits(&SsoEvent::Closed));
    }
    let (_, action) = step(server(), SsoEvent::Request(vec![]));
    waits(action, None);
}

#[test]
fn bytes_that_are_not_utf8() {
    let mut bytes = b"GET /signin/callback?error=".to_vec();
    bytes.push(0xff);
    bytes.extend_from_slice(b" HTTP/1.1\r\n\r\n");
    let (_, action) = step(server(), SsoEvent::Request(bytes));
    assert_eq!(
        failure(action),
        (error_page("\u{fffd}"), "Kiro 门户登录失败: \u{fffd}".to_string())
    );
}

#[test]
fn text_requests() {
    let (_, action) = server().handle_text("GET /signin/callback?error=例 HTTP/1.0\n");
    assert_eq!(failure(action).1, "Kiro 门户登录失败: 例");
}

#[test]
fn closing() {
    let (s, action) = step(server(), SsoEvent::Closed);
    assert!(matches!(action, SsoAction::Stop { reply: None, outcome: None }));
    assert!(stopped(&s));
    let (s, action) = step(server(), SsoEvent::ListenerFailed("no port".to_string()));
    match action {
        SsoAction::Stop { reply: None, outcome: Some(Err(message)) } => {
            assert_eq!(message, "Kiro SSO 服务器初始化失败: no port")
        }
        other => panic!("{:?}", other),
    }
    assert!(stopped(&s));
}
