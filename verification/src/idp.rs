//! The conversation with an external identity provider: discovery,
//! authorization, and the exchange and refresh of tokens.

use crate::allowlist::{
    allowed_suffixes, authority_of, authority_part, host_of, lemma_authority_part,
    url_trusted, url_verdict, validate_external_idp_endpoint, validate_external_idp_issuer,
};
use crate::error::{SsoError, SsoErrorView};
use crate::letter_case::ascii_lowercase;
use crate::outside::url_encode;
use crate::percent::{law_url_encoded_plain, url_encoded};
use crate::query::{
    law_query_round_trip, pair_text, params_map, plain_name, query_map, query_text, target_path,
    target_query,
};
use crate::text::{
    cut_end, first_index, first_match, join2, law_trim_end, lemma_first_index,
    lemma_first_index_unique, lemma_first_match, lemma_first_match_unique, lemma_trim_end,
    result_view, run_of, same_text, trim_end, up_to,
};
use crate::types::{
    ExternalIdpTokenResponse, ExternalIdpTokenResponseView, OidcDiscovery, OidcDiscoveryView,
};
use vstd::prelude::*;

verus! {

/// The method of a request.
#[derive(Debug, Clone, Copy, PartialEq, Eq)]
pub enum HttpMethod {
    Get,
    Post,
}

/// A request to send.
#[derive(Debug)]
pub struct HttpRequest {
    pub method: HttpMethod,
    pub url: String,
    pub headers: Vec<(String, String)>,
    /// The fields of the form that is the body; empty for a `Get`.
    pub form: Vec<(String, String)>,
    pub timeout_secs: u64,
    /// Whether an answer that redirects is followed to another URL.
    pub follow_redirects: bool,
}

/// A request, with its texts as sequences of characters.
pub struct HttpRequestView {
    pub method: HttpMethod,
    pub url: Seq<char>,
    pub headers: Seq<(Seq<char>, Seq<char>)>,
    pub form: Seq<(Seq<char>, Seq<char>)>,
    pub timeout_secs: u64,
    pub follow_redirects: bool,
}

/// The texts of pairs of strings.
pub open spec fn pair_texts(v: Seq<(String, String)>) -> Seq<(Seq<char>, Seq<char>)> {
    v.map_values(|p: (String, String)| (p.0@, p.1@))
}

impl View for HttpRequest {
    type V = HttpRequestView;

    open spec fn view(&self) -> HttpRequestView {
        HttpRequestView {
            method: self.method,
            url: self.url@,
            headers: pair_texts(self.headers@),
            form: pair_texts(self.form@),
            timeout_secs: self.timeout_secs,
            follow_redirects: self.follow_redirects,
        }
    }
}

/// What came of the request for a discovery document.
#[derive(Debug)]
pub enum DiscoveryReply {
    /// No answer, or one that is no discovery document, for the given reason.
    Failed(String),
    /// An answer whose status is no success.
    Refused { status: String, body: String },
    /// The document.
    Document(OidcDiscovery),
}

/// What came of the request for a discovery document, as sequences of characters.
pub enum DiscoveryReplyView {
    Failed(Seq<char>),
    Refused { status: Seq<char>, body: Seq<char> },
    Document(OidcDiscoveryView),
}

impl View for DiscoveryReply {
    type V = DiscoveryReplyView;

    open spec fn view(&self) -> DiscoveryReplyView {
        match *self {
            DiscoveryReply::Failed(detail) => DiscoveryReplyView::Failed(detail@),
            DiscoveryReply::Refused { status, body } => DiscoveryReplyView::Refused {
                status: status@,
                body: body@,
            },
            DiscoveryReply::Document(doc) => DiscoveryReplyView::Document(doc@),
        }
    }
}

/// What came of a request for a token.
#[derive(Debug)]
pub enum TokenReply {
    /// No answer, for the given reason.
    Failed(String),
    /// An answer whose status is no success.
    Refused { status: String, body: String },
    /// An answer that is no token, for the given reason.
    Unreadable(String),
    /// The token.
    Token(ExternalIdpTokenResponse),
}

/// What came of a request for a token, as sequences of characters.
pub enum TokenReplyView {
    Failed(Seq<char>),
    Refused { status: Seq<char>, body: Seq<char> },
    Unreadable(Seq<char>),
    Token(ExternalIdpTokenResponseView),
}

impl View for TokenReply {
    type V = TokenReplyView;

    open spec fn view(&self) -> TokenReplyView {
        match *self {
            TokenReply::Failed(detail) => TokenReplyView::Failed(detail@),
            TokenReply::Refused { status, body } => TokenReplyView::Refused {
                status: status@,
                body: body@,
            },
            TokenReply::Unreadable(detail) => TokenReplyView::Unreadable(detail@),
            TokenReply::Token(token) => TokenReplyView::Token(token@),
        }
    }
}

/// Where an issuer publishes its discovery document.
pub open spec fn discovery_url(issuer_url: Seq<char>) -> Seq<char> {
    trim_end(issuer_url, '/') + "/.well-known/openid-configuration"@
}

/// The request for the discovery document of an issuer, whose URL is trusted or
/// faulty.
pub open spec fn discovery_request(issuer_url: Seq<char>) -> Result<HttpRequestView, SsoErrorView> {
    match url_verdict(issuer_url, "issuer_url"@) {
        Ok(()) => Ok(
            HttpRequestView {
                method: HttpMethod::Get,
                url: discovery_url(issuer_url),
                headers: seq![("Accept"@, "application/json"@)],
                form: Seq::empty(),
                timeout_secs: 15,
                follow_redirects: false,
            },
        ),
        Err(e) => Err(e),
    }
}

/// What a reply to the request for the discovery document of an issuer comes to.
pub open spec fn discovery_outcome(issuer_url: Seq<char>, reply: DiscoveryReplyView) -> Result<
    OidcDiscoveryView,
    SsoErrorView,
> {
    match reply {
        DiscoveryReplyView::Failed(detail) => Err(SsoErrorView::RequestFailed { detail }),
        DiscoveryReplyView::Refused { status, body } => Err(
            SsoErrorView::DiscoveryRefused { status, body },
        ),
        DiscoveryReplyView::Document(doc) => {
            let expected = trim_end(issuer_url, '/');
            let actual = trim_end(doc.issuer, '/');
            if actual != expected {
                Err(SsoErrorView::IssuerMismatch { expected, actual })
            } else {
                match url_verdict(doc.token_endpoint, "token_endpoint"@) {
                    Ok(()) => Ok(doc),
                    Err(e) => Err(e),
                }
            }
        },
    }
}

/// Adds a pair of texts to a list.
fn add_pair(v: &mut Vec<(String, String)>, name: &str, value: &str)
    ensures
        pair_texts(final(v)@) == pair_texts(old(v)@).push((name@, value@)),
{
    v.push((name.to_owned(), value.to_owned()));
    assert(pair_texts(v@) =~= pair_texts(old(v)@).push((name@, value@)));
}

/// The request for the discovery document of an issuer, if its URL is trusted. No
/// redirect is followed, so that the document comes from that URL.
pub fn oidc_discovery_request(issuer_url: &str) -> (r: Result<HttpRequest, SsoError>)
    ensures
        result_view(r) == discovery_request(issuer_url@),
        r is Ok <==> url_trusted(issuer_url@),
        r matches Ok(q) ==> {
            &&& q.method == HttpMethod::Get
            &&& q.url@ == trim_end(issuer_url@, '/') + "/.well-known/openid-configuration"@
            &&& q.headers@.len() == 1
            &&& q.headers@[0].0@ == "Accept"@
            &&& q.headers@[0].1@ == "application/json"@
            &&& q.form@.len() == 0
            &&& q.timeout_secs == 15
            &&& !q.follow_redirects
        },
{
    match validate_external_idp_issuer(issuer_url) {
        Ok(()) => {
            let mut headers: Vec<(String, String)> = Vec::new();
            assert(pair_texts(headers@) =~= Seq::empty());
            add_pair(&mut headers, "Accept", "application/json");
            let form: Vec<(String, String)> = Vec::new();
            let request = HttpRequest {
                method: HttpMethod::Get,
                url: join2(cut_end(issuer_url, '/'), "/.well-known/openid-configuration"),
                headers,
                form,
                timeout_secs: 15,
                follow_redirects: false,
            };
            assert(request@.headers =~= seq![("Accept"@, "application/json"@)]);
            assert(request@.headers[0] == (request.headers@[0].0@, request.headers@[0].1@));
            assert(request@.form =~= Seq::empty());
            Ok(request)
        },
        Err(e) => Err(e),
    }
}

/// Judges the reply to the request for the discovery document of an issuer.
pub fn accept_discovery(issuer_url: &str, reply: DiscoveryReply) -> (r: Result<
    OidcDiscovery,
    SsoError,
>)
    ensures
        result_view(r) == discovery_outcome(issuer_url@, reply@),
        r matches Ok(doc) ==> url_trusted(doc.token_endpoint@) && trim_end(doc.issuer@, '/')
            == trim_end(issuer_url@, '/'),
        r matches Ok(doc) ==> reply == DiscoveryReply::Document(doc),
{
    match reply {
        DiscoveryReply::Failed(detail) => Err(SsoError::RequestFailed { detail }),
        DiscoveryReply::Refused { status, body } => Err(SsoError::DiscoveryRefused { status, body }),
        DiscoveryReply::Document(doc) => {
            let actual = cut_end(doc.issuer.as_str(), '/');
            let expected = cut_end(issuer_url, '/');
            if !same_text(actual, expected) {
                return Err(
                    SsoError::IssuerMismatch {
                        expected: expected.to_owned(),
                        actual: actual.to_owned(),
                    },
                );
            }
            match validate_external_idp_endpoint(doc.token_endpoint.as_str()) {
                Ok(()) => Ok(doc),
                Err(e) => Err(e),
            }
        },
    }
}

/// The address at which the browser asks the identity provider for a code.
pub open spec fn authorize_url(
    authorization_endpoint: Seq<char>,
    client_id: Seq<char>,
    redirect_uri: Seq<char>,
    state: Seq<char>,
    code_challenge: Seq<char>,
    scopes: Seq<char>,
) -> Seq<char> {
    authorization_endpoint + "?client_id="@ + url_encoded(client_id)
        + "&response_type=code&redirect_uri="@ + url_encoded(redirect_uri) + "&scope="@
        + url_encoded(scopes) + "&state="@ + url_encoded(state) + "&code_challenge="@ + url_encoded(
        code_challenge,
    ) + "&code_challenge_method=S256"@
}

/// The address at which the browser asks the identity provider for a code, with
/// the challenge of the proof key.
pub fn external_idp_authorize_url(
    authorization_endpoint: &str,
    client_id: &str,
    redirect_uri: &str,
    state: &str,
    code_challenge: &str,
    scopes: &str,
) -> (r: String)
    ensures
        r@ == authorize_url(
            authorization_endpoint@,
            client_id@,
            redirect_uri@,
            state@,
            code_challenge@,
            scopes@,
        ),
{
    let mut r = authorization_endpoint.to_owned();
    r.append("?client_id=");
    r.append(url_encode(client_id).as_str());
    r.append("&response_type=code&redirect_uri=");
    r.append(url_encode(redirect_uri).as_str());
    r.append("&scope=");
    r.append(url_encode(scopes).as_str());
    r.append("&state=");
    r.append(url_encode(state).as_str());
    r.append("&code_challenge=");
    r.append(url_encode(code_challenge).as_str());
    r.append("&code_challenge_method=S256");
    r
}

/// The headers of a request for a token.
pub open spec fn token_headers(kiro_version: Seq<char>) -> Seq<(Seq<char>, Seq<char>)> {
    seq![("User-Agent"@, "KiroIDE-"@ + kiro_version), ("Accept"@, "application/json"@)]
}

/// The form that exchanges an authorization code.
pub open spec fn code_form(
    client_id: Seq<char>,
    code: Seq<char>,
    code_verifier: Seq<char>,
    redirect_uri: Seq<char>,
    scopes: Seq<char>,
) -> Seq<(Seq<char>, Seq<char>)> {
    seq![
        ("grant_type"@, "authorization_code"@),
        ("client_id"@, client_id),
        ("code"@, code),
        ("code_verifier"@, code_verifier),
        ("redirect_uri"@, redirect_uri),
        ("scope"@, scopes),
    ]
}

/// The form that refreshes a token.
pub open spec fn refresh_form(
    client_id: Seq<char>,
    refresh_token: Seq<char>,
    scopes: Seq<char>,
) -> Seq<(Seq<char>, Seq<char>)> {
    seq![
        ("grant_type"@, "refresh_token"@),
        ("client_id"@, client_id),
        ("refresh_token"@, refresh_token),
        ("scope"@, scopes),
    ]
}

/// A request to a token endpoint, whose URL is trusted or faulty.
pub open spec fn token_request(
    token_endpoint: Seq<char>,
    kiro_version: Seq<char>,
    form: Seq<(Seq<char>, Seq<char>)>,
    timeout_secs: u64,
) -> Result<HttpRequestView, SsoErrorView> {
    match url_verdict(token_endpoint, "token_endpoint"@) {
        Ok(()) => Ok(
            HttpRequestView {
                method: HttpMethod::Post,
                url: token_endpoint,
                headers: token_headers(kiro_version),
                form,
                timeout_secs,
                follow_redirects: false,
            },
        ),
        Err(e) => Err(e),
    }
}

/// A request to a token endpoint, if its URL is trusted.
fn post_form(
    token_endpoint: &str,
    kiro_version: &str,
    form: Vec<(String, String)>,
    timeout_secs: u64,
) -> (r: Result<HttpRequest, SsoError>)
    ensures
        result_view(r) == token_request(
            token_endpoint@,
            kiro_version@,
            pair_texts(form@),
            timeout_secs,
        ),
        r is Ok <==> url_trusted(token_endpoint@),
        r matches Ok(q) ==> {
            &&& q.method == HttpMethod::Post
            &&& q.url@ == token_endpoint@
            &&& q.headers@.len() == 2
            &&& q.headers@[0].0@ == "User-Agent"@
            &&& q.headers@[0].1@ == "KiroIDE-"@ + kiro_version@
            &&& q.headers@[1].0@ == "Accept"@
            &&& q.headers@[1].1@ == "application/json"@
            &&& q.form == form
            &&& q.timeout_secs == timeout_secs
            &&& !q.follow_redirects
        },
{
    match validate_external_idp_endpoint(token_endpoint) {
        Ok(()) => {
            let mut headers: Vec<(String, String)> = Vec::new();
            assert(pair_texts(headers@) =~= Seq::empty());
            add_pair(&mut headers, "User-Agent", join2("KiroIDE-", kiro_version).as_str());
            add_pair(&mut headers, "Accept", "application/json");
            assert(pair_texts(headers@) =~= token_headers(kiro_version@));
            assert(pair_texts(headers@)[0] == (headers@[0].0@, headers@[0].1@));
            assert(pair_texts(headers@)[1] == (headers@[1].0@, headers@[1].1@));
            Ok(
                HttpRequest {
                    method: HttpMethod::Post,
                    url: token_endpoint.to_owned(),
                    headers,
                    form,
                    timeout_secs,
                    follow_redirects: false,
                },
            )
        },
        Err(e) => Err(e),
    }
}

/// The request that exchanges an authorization code for a token, as a public
/// client without a secret, if the URL of the token endpoint is trusted.
pub fn external_idp_code_request(
    token_endpoint: &str,
    client_id: &str,
    code: &str,
    code_verifier: &str,
    redirect_uri: &str,
    scopes: &str,
    kiro_version: &str,
) -> (r: Result<HttpRequest, SsoError>)
    ensures
        result_view(r) == token_request(
            token_endpoint@,
            kiro_version@,
            code_form(client_id@, code@, code_verifier@, redirect_uri@, scopes@),
            30,
        ),
        r is Ok <==> url_trusted(token_endpoint@),
        r matches Ok(q) ==> {
            &&& q.method == HttpMethod::Post
            &&& q.url@ == token_endpoint@
            &&& q.headers@.len() == 2
            &&& q.headers@[0].0@ == "User-Agent"@
            &&& q.headers@[0].1@ == "KiroIDE-"@ + kiro_version@
            &&& q.headers@[1].0@ == "Accept"@
            &&& q.headers@[1].1@ == "application/json"@
            &&& q.form@.len() == 6
            &&& q.form@[0].0@ == "grant_type"@
            &&& q.form@[0].1@ == "authorization_code"@
            &&& q.form@[1].0@ == "client_id"@
            &&& q.form@[1].1@ == client_id@
            &&& q.form@[2].0@ == "code"@
            &&& q.form@[2].1@ == code@
            &&& q.form@[3].0@ == "code_verifier"@
            &&& q.form@[3].1@ == code_verifier@
            &&& q.form@[4].0@ == "redirect_uri"@
            &&& q.form@[4].1@ == redirect_uri@
            &&& q.form@[5].0@ == "scope"@
            &&& q.form@[5].1@ == scopes@
            &&& q.timeout_secs == 30
            &&& !q.follow_redirects
        },
{
    let mut form: Vec<(String, String)> = Vec::new();
    assert(pair_texts(form@) =~= Seq::empty());
    add_pair(&mut form, "grant_type", "authorization_code");
    add_pair(&mut form, "client_id", client_id);
    add_pair(&mut form, "code", code);
    add_pair(&mut form, "code_verifier", code_verifier);
    add_pair(&mut form, "redirect_uri", redirect_uri);
    add_pair(&mut form, "scope", scopes);
    assert(pair_texts(form@) =~= code_form(
        client_id@,
        code@,
        code_verifier@,
        redirect_uri@,
        scopes@,
    ));
    assert forall|i: int| 0 <= i < form.len() implies pair_texts(form@)[i] == (
        #[trigger] form@[i].0@,
        form@[i].1@,
    ) by {}
    post_form(token_endpoint, kiro_version, form, 30)
}

/// The request that refreshes a token, if the URL of the token endpoint is trusted.
pub fn external_idp_refresh_request(
    token_endpoint: &str,
    client_id: &str,
    refresh_token: &str,
    scopes: &str,
    kiro_version: &str,
) -> (r: Result<HttpRequest, SsoError>)
    ensures
        result_view(r) == token_request(
            token_endpoint@,
            kiro_version@,
            refresh_form(client_id@, refresh_token@, scopes@),
            60,
        ),
        r is Ok <==> url_trusted(token_endpoint@),
        r matches Ok(q) ==> {
            &&& q.method == HttpMethod::Post
            &&& q.url@ == token_endpoint@
            &&& q.headers@.len() == 2
            &&& q.headers@[0].0@ == "User-Agent"@
            &&& q.headers@[0].1@ == "KiroIDE-"@ + kiro_version@
            &&& q.headers@[1].0@ == "Accept"@
            &&& q.headers@[1].1@ == "application/json"@
            &&& q.form@.len() == 4
            &&& q.form@[0].0@ == "grant_type"@
            &&& q.form@[0].1@ == "refresh_token"@
            &&& q.form@[1].0@ == "client_id"@
            &&& q.form@[1].1@ == client_id@
            &&& q.form@[2].0@ == "refresh_token"@
            &&& q.form@[2].1@ == refresh_token@
            &&& q.form@[3].0@ == "scope"@
            &&& q.form@[3].1@ == scopes@
            &&& q.timeout_secs == 60
            &&& !q.follow_redirects
        },
{
    let mut form: Vec<(String, String)> = Vec::new();
    assert(pair_texts(form@) =~= Seq::empty());
    add_pair(&mut form, "grant_type", "refresh_token");
    add_pair(&mut form, "client_id", client_id);
    add_pair(&mut form, "refresh_token", refresh_token);
    add_pair(&mut form, "scope", scopes);
    assert(pair_texts(form@) =~= refresh_form(client_id@, refresh_token@, scopes@));
    assert forall|i: int| 0 <= i < form.len() implies pair_texts(form@)[i] == (
        #[trigger] form@[i].0@,
        form@[i].1@,
    ) by {}
    post_form(token_endpoint, kiro_version, form, 60)
}

/// What a reply to the exchange of a code comes to.
pub open spec fn code_outcome(reply: TokenReplyView) -> Result<
    ExternalIdpTokenResponseView,
    SsoErrorView,
> {
    match reply {
        TokenReplyView::Failed(detail) => Err(SsoErrorView::RequestFailed { detail }),
        TokenReplyView::Refused { status, body } => Err(SsoErrorView::CodeRefused { status, body }),
        TokenReplyView::Unreadable(detail) => Err(SsoErrorView::CodeReplyUnreadable { detail }),
        TokenReplyView::Token(token) => Ok(token),
    }
}

/// What a reply to a refresh comes to.
pub open spec fn refresh_outcome(reply: TokenReplyView) -> Result<
    ExternalIdpTokenResponseView,
    SsoErrorView,
> {
    match reply {
        TokenReplyView::Failed(detail) => Err(SsoErrorView::RequestFailed { detail }),
        TokenReplyView::Refused { status, body } => Err(
            SsoErrorView::RefreshRefused { status, body },
        ),
        TokenReplyView::Unreadable(detail) => Err(SsoErrorView::RefreshReplyUnreadable { detail }),
        TokenReplyView::Token(token) => Ok(token),
    }
}

/// Judges the reply to the exchange of a code.
pub fn accept_code_reply(reply: TokenReply) -> (r: Result<ExternalIdpTokenResponse, SsoError>)
    ensures
        result_view(r) == code_outcome(reply@),
        r matches Ok(token) ==> reply == TokenReply::Token(token),
        reply is Token ==> r is Ok,
{
    match reply {
        TokenReply::Failed(detail) => Err(SsoError::RequestFailed { detail }),
        TokenReply::Refused { status, body } => Err(SsoError::CodeRefused { status, body }),
        TokenReply::Unreadable(detail) => Err(SsoError::CodeReplyUnreadable { detail }),
        TokenReply::Token(token) => Ok(token),
    }
}

/// Judges the reply to a refresh.
pub fn accept_refresh_reply(reply: TokenReply) -> (r: Result<ExternalIdpTokenResponse, SsoError>)
    ensures
        result_view(r) == refresh_outcome(reply@),
        r matches Ok(token) ==> reply == TokenReply::Token(token),
        reply is Token ==> r is Ok,
{
    match reply {
        TokenReply::Failed(detail) => Err(SsoError::RequestFailed { detail }),
        TokenReply::Refused { status, body } => Err(SsoError::RefreshRefused { status, body }),
        TokenReply::Unreadable(detail) => Err(SsoError::RefreshReplyUnreadable { detail }),
        TokenReply::Token(token) => Ok(token),
    }
}

/// The parameters that the browser brings to the identity provider.
pub open spec fn authorize_params(
    client_id: Seq<char>,
    redirect_uri: Seq<char>,
    state: Seq<char>,
    code_challenge: Seq<char>,
    scopes: Seq<char>,
) -> Seq<(Seq<char>, Seq<char>)> {
    seq![
        ("client_id"@, client_id),
        ("response_type"@, "code"@),
        ("redirect_uri"@, redirect_uri),
        ("scope"@, scopes),
        ("state"@, state),
        ("code_challenge"@, code_challenge),
        ("code_challenge_method"@, "S256"@),
    ]
}

/// One more parameter at the end of a URL is one more parameter of its query.
proof fn lemma_one_more(
    url: Seq<char>,
    base: Seq<char>,
    ps: Seq<(Seq<char>, Seq<char>)>,
    literal: Seq<char>,
    name: Seq<char>,
    value: Seq<char>,
)
    requires
        ps.len() > 0,
        url == base + query_text(ps),
        literal == seq!['&'] + name + seq!['='],
    ensures
        url + literal + url_encoded(value) == base + query_text(ps.push((name, value))),
{
    let more = ps.push((name, value));
    assert(more.drop_last() =~= ps);
    assert(url + literal + url_encoded(value) =~= base + (query_text(ps).push('&') + pair_text(
        name,
        value,
    )));
}

/// The literals of the URL, taken apart at the names.
proof fn lemma_authorize_names()
    ensures
        "?client_id="@ == seq!['?'] + "client_id"@ + seq!['='],
        "&response_type="@ == seq!['&'] + "response_type"@ + seq!['='],
        "&redirect_uri="@ == seq!['&'] + "redirect_uri"@ + seq!['='],
        "&scope="@ == seq!['&'] + "scope"@ + seq!['='],
        "&state="@ == seq!['&'] + "state"@ + seq!['='],
        "&code_challenge="@ == seq!['&'] + "code_challenge"@ + seq!['='],
        "&code_challenge_method="@ == seq!['&'] + "code_challenge_method"@ + seq!['='],
{
    assert("?client_id="@ =~= seq!['?'] + "client_id"@ + seq!['=']) by {
        reveal_strlit("?client_id=");
        reveal_strlit("client_id");
    }
    assert("&response_type="@ =~= seq!['&'] + "response_type"@ + seq!['=']) by {
        reveal_strlit("&response_type=");
        reveal_strlit("response_type");
    }
    assert("&redirect_uri="@ =~= seq!['&'] + "redirect_uri"@ + seq!['=']) by {
        reveal_strlit("&redirect_uri=");
        reveal_strlit("redirect_uri");
    }
    assert("&scope="@ =~= seq!['&'] + "scope"@ + seq!['=']) by {
        reveal_strlit("&scope=");
        reveal_strlit("scope");
    }
    assert("&state="@ =~= seq!['&'] + "state"@ + seq!['=']) by {
        reveal_strlit("&state=");
        reveal_strlit("state");
    }
    assert("&code_challenge="@ =~= seq!['&'] + "code_challenge"@ + seq!['=']) by {
        reveal_strlit("&code_challenge=");
        reveal_strlit("code_challenge");
    }
    assert("&code_challenge_method="@ =~= seq!['&'] + "code_challenge_method"@ + seq!['=']) by {
        reveal_strlit("&code_challenge_method=");
        reveal_strlit("code_challenge_method");
    }
}

/// The two parameters with a fixed value, taken apart.
proof fn lemma_authorize_values()
    ensures
        "&response_type=code&redirect_uri="@ == "&response_type="@ + url_encoded("code"@)
            + "&redirect_uri="@,
        "&code_challenge_method=S256"@ == "&code_challenge_method="@ + url_encoded("S256"@),
{
    assert(url_encoded("code"@) == "code"@) by {
        reveal_strlit("code");
        law_url_encoded_plain("code"@);
    }
    assert(url_encoded("S256"@) == "S256"@) by {
        reveal_strlit("S256");
        law_url_encoded_plain("S256"@);
    }
    assert("&response_type=code&redirect_uri="@ =~= "&response_type="@ + "code"@
        + "&redirect_uri="@) by {
        reveal_strlit("&response_type=code&redirect_uri=");
        reveal_strlit("&response_type=");
        reveal_strlit("&redirect_uri=");
        reveal_strlit("code");
    }
    assert("&code_challenge_method=S256"@ =~= "&code_challenge_method="@ + "S256"@) by {
        reveal_strlit("S256");
        reveal_strlit("&code_challenge_method=");
        reveal_strlit("&code_challenge_method=S256");
    }
}

proof fn lemma_regroup(u: Seq<char>, a: Seq<char>, b: Seq<char>, c: Seq<char>)
    ensures
        u + (a + b + c) == u + a + b + c,
        u + (a + b) == u + a + b,
{
    assert(u + (a + b + c) =~= u + a + b + c);
    assert(u + (a + b) =~= u + a + b);
}

/// The URL is the endpoint, a `?` and the query with the parameters.
#[verifier::spinoff_prover]
proof fn lemma_authorize_url_parts(
    authorization_endpoint: Seq<char>,
    client_id: Seq<char>,
    redirect_uri: Seq<char>,
    state: Seq<char>,
    code_challenge: Seq<char>,
    scopes: Seq<char>,
)
    ensures
        authorize_url(
            authorization_endpoint,
            client_id,
            redirect_uri,
            state,
            code_challenge,
            scopes,
        ) == authorization_endpoint.push('?') + query_text(
            authorize_params(client_id, redirect_uri, state, code_challenge, scopes),
        ),
{
    lemma_authorize_names();
    lemma_authorize_values();
    let base = authorization_endpoint.push('?');
    let p1 = seq![("client_id"@, client_id)];
    let u1 = authorization_endpoint + "?client_id="@ + url_encoded(client_id);
    assert(u1 =~= base + pair_text("client_id"@, client_id));
    let p2 = p1.push(("response_type"@, "code"@));
    let u2 = u1 + "&response_type="@ + url_encoded("code"@);
    lemma_one_more(u1, base, p1, "&response_type="@, "response_type"@, "code"@);
    let p3 = p2.push(("redirect_uri"@, redirect_uri));
    let u3 = u2 + "&redirect_uri="@ + url_encoded(redirect_uri);
    lemma_one_more(u2, base, p2, "&redirect_uri="@, "redirect_uri"@, redirect_uri);
    lemma_regroup(u1, "&response_type="@, url_encoded("code"@), "&redirect_uri="@);
    let p4 = p3.push(("scope"@, scopes));
    let u4 = u3 + "&scope="@ + url_encoded(scopes);
    lemma_one_more(u3, base, p3, "&scope="@, "scope"@, scopes);
    let p5 = p4.push(("state"@, state));
    let u5 = u4 + "&state="@ + url_encoded(state);
    lemma_one_more(u4, base, p4, "&state="@, "state"@, state);
    let p6 = p5.push(("code_challenge"@, code_challenge));
    let u6 = u5 + "&code_challenge="@ + url_encoded(code_challenge);
    lemma_one_more(u5, base, p5, "&code_challenge="@, "code_challenge"@, code_challenge);
    let p7 = p6.push(("code_challenge_method"@, "S256"@));
    lemma_one_more(u6, base, p6, "&code_challenge_method="@, "code_challenge_method"@, "S256"@);
    lemma_regroup(u6, "&code_challenge_method="@, url_encoded("S256"@), Seq::empty());
    assert(p7 =~= authorize_params(client_id, redirect_uri, state, code_challenge, scopes));
}

/// What is put into the URL for the browser is what can be read from it: the
/// endpoint is its path, and its query holds each parameter as it was, escapes and
/// all.
pub proof fn law_authorize_url_reads_back(
    authorization_endpoint: Seq<char>,
    client_id: Seq<char>,
    redirect_uri: Seq<char>,
    state: Seq<char>,
    code_challenge: Seq<char>,
    scopes: Seq<char>,
)
    requires
        !authorization_endpoint.contains('?'),
    ensures
        ({
            let url = authorize_url(
                authorization_endpoint,
                client_id,
                redirect_uri,
                state,
                code_challenge,
                scopes,
            );
            &&& target_path(url) == authorization_endpoint
            &&& query_map(target_query(url)) == params_map(
                authorize_params(client_id, redirect_uri, state, code_challenge, scopes),
            )
        }),
{
    let ps = authorize_params(client_id, redirect_uri, state, code_challenge, scopes);
    let url = authorize_url(
        authorization_endpoint,
        client_id,
        redirect_uri,
        state,
        code_challenge,
        scopes,
    );
    let n = authorization_endpoint.len() as int;
    lemma_authorize_url_parts(
        authorization_endpoint,
        client_id,
        redirect_uri,
        state,
        code_challenge,
        scopes,
    );
    assert forall|j: int| 0 <= j < n implies url[j] != '?' by {
        assert(authorization_endpoint.contains(authorization_endpoint[j]));
    }
    lemma_first_index_unique(url, '?', n);
    assert(url.take(n) =~= authorization_endpoint);
    assert(url.skip(n + 1) =~= query_text(ps));
    assert forall|i: int| 0 <= i < ps.len() implies plain_name(#[trigger] ps[i].0) by {
        reveal_strlit("client_id");
        reveal_strlit("response_type");
        reveal_strlit("redirect_uri");
        reveal_strlit("scope");
        reveal_strlit("state");
        reveal_strlit("code_challenge");
        reveal_strlit("code_challenge_method");
    }
    law_query_round_trip(ps);
}

/// The discovery document of an issuer is fetched from the very place that the
/// issuer names.
pub proof fn law_discovery_stays_at_authority(issuer_url: Seq<char>)
    requires
        authority_of(issuer_url) matches Some(authority) && authority.len() > 0,
    ensures
        authority_of(discovery_url(issuer_url)) == authority_of(issuer_url),
        host_of(discovery_url(issuer_url)) == host_of(issuer_url),
{
    reveal_strlit("://");
    reveal_strlit("/.well-known/openid-configuration");
    let mark = "://"@;
    let path = "/.well-known/openid-configuration"@;
    let url = issuer_url;
    lemma_first_match(url, mark);
    let i = first_match(url, mark)->0;
    let rest = url.skip(i + 3);
    lemma_first_index(rest, '/');
    let k = first_index(rest, '/');
    lemma_authority_part(rest);
    lemma_trim_end(url, '/');
    let m = trim_end(url, '/').len() as int;
    assert(k > 0);
    assert(rest[k - 1] == url[i + 3 + k - 1]);
    assert(i + 3 + k <= m);
    let t = discovery_url(url);
    assert(t == url.take(m) + path);
    assert(t.skip(i).subrange(0, 3) =~= url.skip(i).subrange(0, 3));
    assert forall|j: int| 0 <= j < i implies !mark.is_prefix_of(#[trigger] t.skip(j)) by {
        assert(t.skip(j).subrange(0, 3) =~= url.skip(j).subrange(0, 3));
        assert(!mark.is_prefix_of(url.skip(j)));
    }
    lemma_first_match_unique(t, mark, i);
    let rest2 = t.skip(i + 3);
    assert forall|j: int| 0 <= j < k implies rest2[j] != '/' by {
        assert(rest2[j] == rest[j]);
    }
    if i + 3 + k < m {
        assert(rest2[k] == rest[k]);
    } else {
        assert(rest2[k] == path[0]);
    }
    lemma_first_index_unique(rest2, '/', k);
    assert(up_to(rest2, '/') =~= up_to(rest, '/'));
    assert(authority_part(rest2) == authority_part(rest));
    assert(t.take(i) =~= url.take(i));
}

/// Where the URL of an issuer is trusted, the URL of its discovery document is
/// trusted too.
pub proof fn law_discovery_url_is_trusted(issuer_url: Seq<char>)
    requires
        url_trusted(issuer_url),
    ensures
        url_trusted(discovery_url(issuer_url)),
{
    reveal_strlit(".microsoftonline.com");
    reveal_strlit(".microsoftonline.us");
    reveal_strlit(".microsoftonline.cn");
    let authority = authority_of(issuer_url)->0;
    let i = choose|i: int|
        0 <= i < allowed_suffixes().len() && (#[trigger] allowed_suffixes()[i]).is_suffix_of(
            ascii_lowercase(authority),
        );
    assert(allowed_suffixes()[i].len() > 0);
    law_discovery_stays_at_authority(issuer_url);
}

/// The request for a discovery document is a `GET` of the URL of the issuer, without the
/// slashes at its end and with nothing but `/.well-known/openid-configuration` behind it.
/// It asks for JSON, has no body, waits for 15 seconds and follows no redirect.
pub proof fn law_discovery_request(base: Seq<char>, slashes: nat)
    requires
        base.len() > 0 ==> base.last() != '/',
        url_trusted(base + run_of('/', slashes)),
    ensures
        discovery_request(base + run_of('/', slashes)) == Ok::<HttpRequestView, SsoErrorView>(
            HttpRequestView {
                method: HttpMethod::Get,
                url: base + "/.well-known/openid-configuration"@,
                headers: seq![("Accept"@, "application/json"@)],
                form: Seq::empty(),
                timeout_secs: 15,
                follow_redirects: false,
            },
        ),
{
    law_trim_end(base, '/', slashes);
}

/// For an issuer that is not trusted nothing is requested, and the verdict is the reason.
pub proof fn law_no_request_to_others(
    url: Seq<char>,
    kiro_version: Seq<char>,
    form: Seq<(Seq<char>, Seq<char>)>,
    timeout_secs: u64,
)
    ensures
        url_verdict(url, "issuer_url"@) matches Err(e) ==> discovery_request(url) == Err::<
            HttpRequestView,
            SsoErrorView,
        >(e),
        url_verdict(url, "token_endpoint"@) matches Err(e) ==> token_request(
            url,
            kiro_version,
            form,
            timeout_secs,
        ) == Err::<HttpRequestView, SsoErrorView>(e),
{
}

/// A discovery document is accepted as it is where it names the issuer that was asked
/// for, slashes at the end aside, and its token endpoint is trusted. Where it names
/// another, both names are reported; where its token endpoint is not trusted, the verdict
/// on that is.
pub proof fn law_discovery_documents(
    asked: Seq<char>,
    slashes: nat,
    named: Seq<char>,
    more_slashes: nat,
    doc: OidcDiscoveryView,
)
    requires
        asked.len() > 0 ==> asked.last() != '/',
        named.len() > 0 ==> named.last() != '/',
        doc.issuer == named + run_of('/', more_slashes),
    ensures
        ({
            let outcome = discovery_outcome(
                asked + run_of('/', slashes),
                DiscoveryReplyView::Document(doc),
            );
            &&& asked == named && url_trusted(doc.token_endpoint) ==> outcome == Ok::<
                OidcDiscoveryView,
                SsoErrorView,
            >(doc)
            &&& asked != named ==> outcome == Err::<OidcDiscoveryView, SsoErrorView>(
                SsoErrorView::IssuerMismatch { expected: asked, actual: named },
            )
            &&& asked == named ==> (url_verdict(doc.token_endpoint, "token_endpoint"@) matches Err(
                e,
            ) ==> outcome == Err::<OidcDiscoveryView, SsoErrorView>(e))
        }),
{
    law_trim_end(asked, '/', slashes);
    law_trim_end(named, '/', more_slashes);
}

/// A discovery that brings no document fails with what came instead.
pub proof fn law_discovery_failures(
    issuer_url: Seq<char>,
    detail: Seq<char>,
    status: Seq<char>,
    body: Seq<char>,
)
    ensures
        discovery_outcome(issuer_url, DiscoveryReplyView::Failed(detail)) == Err::<
            OidcDiscoveryView,
            SsoErrorView,
        >(SsoErrorView::RequestFailed { detail }),
        discovery_outcome(issuer_url, DiscoveryReplyView::Refused { status, body }) == Err::<
            OidcDiscoveryView,
            SsoErrorView,
        >(SsoErrorView::DiscoveryRefused { status, body }),
{
}

/// The browser brings seven parameters to the endpoint that the identity provider names:
/// each argument under its own name, as it is, and the two that never change.
pub proof fn law_authorize_parameters(
    authorization_endpoint: Seq<char>,
    client_id: Seq<char>,
    redirect_uri: Seq<char>,
    state: Seq<char>,
    code_challenge: Seq<char>,
    scopes: Seq<char>,
)
    requires
        !authorization_endpoint.contains('?'),
    ensures
        ({
            let url = authorize_url(
                authorization_endpoint,
                client_id,
                redirect_uri,
                state,
                code_challenge,
                scopes,
            );
            &&& target_path(url) == authorization_endpoint
            &&& query_map(target_query(url)) == map![
                "client_id"@ => client_id,
                "response_type"@ => "code"@,
                "redirect_uri"@ => redirect_uri,
                "scope"@ => scopes,
                "state"@ => state,
                "code_challenge"@ => code_challenge,
                "code_challenge_method"@ => "S256"@,
            ]
        }),
{
    law_authorize_url_reads_back(
        authorization_endpoint,
        client_id,
        redirect_uri,
        state,
        code_challenge,
        scopes,
    );
    let p0 = Seq::<(Seq<char>, Seq<char>)>::empty();
    let p1 = p0.push(("client_id"@, client_id));
    let p2 = p1.push(("response_type"@, "code"@));
    let p3 = p2.push(("redirect_uri"@, redirect_uri));
    let p4 = p3.push(("scope"@, scopes));
    let p5 = p4.push(("state"@, state));
    let p6 = p5.push(("code_challenge"@, code_challenge));
    let p7 = p6.push(("code_challenge_method"@, "S256"@));
    assert(p7.drop_last() =~= p6);
    assert(p6.drop_last() =~= p5);
    assert(p5.drop_last() =~= p4);
    assert(p4.drop_last() =~= p3);
    assert(p3.drop_last() =~= p2);
    assert(p2.drop_last() =~= p1);
    assert(p1.drop_last() =~= p0);
    assert(params_map(p1) == params_map(p0).insert("client_id"@, client_id));
    assert(params_map(p2) == params_map(p1).insert("response_type"@, "code"@));
    assert(params_map(p3) == params_map(p2).insert("redirect_uri"@, redirect_uri));
    assert(params_map(p4) == params_map(p3).insert("scope"@, scopes));
    assert(params_map(p5) == params_map(p4).insert("state"@, state));
    assert(params_map(p6) == params_map(p5).insert("code_challenge"@, code_challenge));
    assert(params_map(p7) == params_map(p6).insert("code_challenge_method"@, "S256"@));
    assert(p7 =~= authorize_params(client_id, redirect_uri, state, code_challenge, scopes));
}

/// The URL for the browser is the endpoint, whatever it holds, a question mark, and the
/// parameters in their order, each value percent-encoded.
pub proof fn law_authorize_url(
    authorization_endpoint: Seq<char>,
    client_id: Seq<char>,
    redirect_uri: Seq<char>,
    state: Seq<char>,
    code_challenge: Seq<char>,
    scopes: Seq<char>,
)
    ensures
        authorize_url(
            authorization_endpoint,
            client_id,
            redirect_uri,
            state,
            code_challenge,
            scopes,
        ) == authorization_endpoint + "?client_id="@ + url_encoded(client_id)
            + "&response_type=code&redirect_uri="@ + url_encoded(redirect_uri) + "&scope="@
            + url_encoded(scopes) + "&state="@ + url_encoded(state) + "&code_challenge="@
            + url_encoded(code_challenge) + "&code_challenge_method=S256"@,
{
}

/// A code is exchanged by a `POST` to the token endpoint, whose form has six fields: the
/// kind of grant, and each argument under its own name, as it is.
pub proof fn law_code_request(
    token_endpoint: Seq<char>,
    client_id: Seq<char>,
    code: Seq<char>,
    code_verifier: Seq<char>,
    redirect_uri: Seq<char>,
    scopes: Seq<char>,
    kiro_version: Seq<char>,
)
    requires
        url_trusted(token_endpoint),
    ensures
        token_request(
            token_endpoint,
            kiro_version,
            code_form(client_id, code, code_verifier, redirect_uri, scopes),
            30,
        ) == Ok::<HttpRequestView, SsoErrorView>(
            HttpRequestView {
                method: HttpMethod::Post,
                url: token_endpoint,
                headers: seq![
                    ("User-Agent"@, "KiroIDE-"@ + kiro_version),
                    ("Accept"@, "application/json"@),
                ],
                form: seq![
                    ("grant_type"@, "authorization_code"@),
                    ("client_id"@, client_id),
                    ("code"@, code),
                    ("code_verifier"@, code_verifier),
                    ("redirect_uri"@, redirect_uri),
                    ("scope"@, scopes),
                ],
                timeout_secs: 30,
                follow_redirects: false,
            },
        ),
{
}

/// A token is refreshed by a `POST` to the token endpoint, whose form has four fields:
/// the kind of grant, and each argument under its own name, as it is.
pub proof fn law_refresh_request(
    token_endpoint: Seq<char>,
    client_id: Seq<char>,
    refresh_token: Seq<char>,
    scopes: Seq<char>,
    kiro_version: Seq<char>,
)
    requires
        url_trusted(token_endpoint),
    ensures
        token_request(
            token_endpoint,
            kiro_version,
            refresh_form(client_id, refresh_token, scopes),
            60,
        ) == Ok::<HttpRequestView, SsoErrorView>(
            HttpRequestView {
                method: HttpMethod::Post,
                url: token_endpoint,
                headers: seq![
                    ("User-Agent"@, "KiroIDE-"@ + kiro_version),
                    ("Accept"@, "application/json"@),
                ],
                form: seq![
                    ("grant_type"@, "refresh_token"@),
                    ("client_id"@, client_id),
                    ("refresh_token"@, refresh_token),
                    ("scope"@, scopes),
                ],
                timeout_secs: 60,
                follow_redirects: false,
            },
        ),
{
}

/// A token that the identity provider hands out is handed on as it is, in every field,
/// by an exchange and by a refresh.
pub proof fn law_tokens_are_handed_on(token: ExternalIdpTokenResponseView)
    ensures
        code_outcome(TokenReplyView::Token(token)) == Ok::<
            ExternalIdpTokenResponseView,
            SsoErrorView,
        >(token),
        refresh_outcome(TokenReplyView::Token(token)) == Ok::<
            ExternalIdpTokenResponseView,
            SsoErrorView,
        >(token),
{
}

/// A reply without a token is a failure that says what came instead, and whether to an
/// exchange or to a refresh.
pub proof fn law_replies_without_a_token(detail: Seq<char>, status: Seq<char>, body: Seq<char>)
    ensures
        code_outcome(TokenReplyView::Failed(detail)) == Err::<
            ExternalIdpTokenResponseView,
            SsoErrorView,
        >(SsoErrorView::RequestFailed { detail }),
        code_outcome(TokenReplyView::Refused { status, body }) == Err::<
            ExternalIdpTokenResponseView,
            SsoErrorView,
        >(SsoErrorView::CodeRefused { status, body }),
        code_outcome(TokenReplyView::Unreadable(detail)) == Err::<
            ExternalIdpTokenResponseView,
            SsoErrorView,
        >(SsoErrorView::CodeReplyUnreadable { detail }),
        refresh_outcome(TokenReplyView::Failed(detail)) == Err::<
            ExternalIdpTokenResponseView,
            SsoErrorView,
        >(SsoErrorView::RequestFailed { detail }),
        refresh_outcome(TokenReplyView::Refused { status, body }) == Err::<
            ExternalIdpTokenResponseView,
            SsoErrorView,
        >(SsoErrorView::RefreshRefused { status, body }),
        refresh_outcome(TokenReplyView::Unreadable(detail)) == Err::<
            ExternalIdpTokenResponseView,
            SsoErrorView,
        >(SsoErrorView::RefreshReplyUnreadable { detail }),
{
}

/// What is said of a request is said of all of it: nothing is left out of its view.
pub proof fn law_request_view(request: HttpRequest, i: int)
    ensures
        request@.method == request.method,
        request@.url == request.url@,
        request@.timeout_secs == request.timeout_secs,
        request@.follow_redirects == request.follow_redirects,
        request@.headers.len() == request.headers@.len(),
        request@.form.len() == request.form@.len(),
        0 <= i < request.headers@.len() ==> request@.headers[i] == (
            request.headers@[i].0@,
            request.headers@[i].1@,
        ),
        0 <= i < request.form@.len() ==> request@.form[i] == (
            request.form@[i].0@,
            request.form@[i].1@,
        ),
{
}

/// What is said of a reply is said of all of it: nothing is left out of its view.
pub proof fn law_reply_views(discovery: DiscoveryReply, token: TokenReply)
    ensures
        discovery matches DiscoveryReply::Failed(detail) ==> discovery@
            == DiscoveryReplyView::Failed(detail@),
        discovery matches DiscoveryReply::Refused { status, body } ==> discovery@ == (
        DiscoveryReplyView::Refused { status: status@, body: body@ }),
        discovery matches DiscoveryReply::Document(doc) ==> discovery@
            == DiscoveryReplyView::Document(doc@),
        token matches TokenReply::Failed(detail) ==> token@ == TokenReplyView::Failed(detail@),
        token matches TokenReply::Refused { status, body } ==> token@ == (
        TokenReplyView::Refused { status: status@, body: body@ }),
        token matches TokenReply::Unreadable(detail) ==> token@ == TokenReplyView::Unreadable(
            detail@,
        ),
        token matches TokenReply::Token(t) ==> token@ == TokenReplyView::Token(t@),
{
}

} // verus!
