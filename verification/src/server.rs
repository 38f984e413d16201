//! The callback server: what it answers, what it asks for, and when it is done.
//!
//! A sign-in has one or two legs. The portal sends the browser to
//! `/signin/callback`. For a social account that brings a code, which is exchanged
//! for a token, and the sign-in is over. For an enterprise account it brings the
//! description of an identity provider, to which the browser is sent on; the
//! provider sends it to `/oauth/callback`, and the code that this brings is
//! exchanged for a token.

use crate::error::{SsoError, SsoErrorView};
use crate::idp::{
    accept_discovery, authorize_url, discovery_outcome, discovery_request,
    external_idp_authorize_url, oidc_discovery_request, DiscoveryReply, DiscoveryReplyView,
    HttpRequest, HttpRequestView,
};
use crate::jwt::{extract_email_from_jwt, jwt_email};
use crate::outside::{lossy_text, url_encode, utf8_lossy};
use crate::pages::{
    error_body, error_page, page_response, redirect_page, redirect_response, success_page,
    BAD_REQUEST, NOT_FOUND, SUCCESS_BODY,
};
use crate::percent::url_encoded;
use crate::query::{
    parse_query_string, query_map, split_path_query, target_path, target_query, texts,
};
use crate::request::{get_target, request_target};
use crate::text::{decimal, decimal_text, join2, opt_view, result_view, same_text};
use crate::types::{
    ExternalIdpTokenResponse, ExternalIdpTokenResponseView, KiroSsoResult, KiroSsoResultView,
    SocialToken, SocialTokenView,
};
use vstd::hash_map::StringHashMap;
use vstd::prelude::*;

verus! {

/// What a sign-in starts from.
#[derive(Debug)]
pub struct SsoServerParams {
    /// Where the portal exchanges codes.
    pub auth_endpoint: String,
    /// The state that the portal has to hand back.
    pub state: String,
    /// The secret of the proof key of the first leg.
    pub code_verifier: String,
    /// The address of the callback server.
    pub redirect_uri: String,
}

/// What a sign-in starts from, as sequences of characters.
pub struct ParamsView {
    pub auth_endpoint: Seq<char>,
    pub state: Seq<char>,
    pub code_verifier: Seq<char>,
    pub redirect_uri: Seq<char>,
}

impl View for SsoServerParams {
    type V = ParamsView;

    open spec fn view(&self) -> ParamsView {
        ParamsView {
            auth_endpoint: self.auth_endpoint@,
            state: self.state@,
            code_verifier: self.code_verifier@,
            redirect_uri: self.redirect_uri@,
        }
    }
}

/// What is kept for the second leg.
#[derive(Debug)]
pub struct Leg2State {
    pub token_endpoint: String,
    pub issuer_url: String,
    pub scopes: String,
    pub client_id: String,
    pub code_verifier: String,
    pub state: String,
}

/// What is kept for the second leg, as sequences of characters.
pub struct Leg2View {
    pub token_endpoint: Seq<char>,
    pub issuer_url: Seq<char>,
    pub scopes: Seq<char>,
    pub client_id: Seq<char>,
    pub code_verifier: Seq<char>,
    pub state: Seq<char>,
}

impl View for Leg2State {
    type V = Leg2View;

    open spec fn view(&self) -> Leg2View {
        Leg2View {
            token_endpoint: self.token_endpoint@,
            issuer_url: self.issuer_url@,
            scopes: self.scopes@,
            client_id: self.client_id@,
            code_verifier: self.code_verifier@,
            state: self.state@,
        }
    }
}

/// The identity provider that the portal describes.
#[derive(Debug)]
pub struct IdpDescriptor {
    pub issuer_url: String,
    pub client_id: String,
    pub scopes: String,
}

/// The identity provider that the portal describes, as sequences of characters.
pub struct DescriptorView {
    pub issuer_url: Seq<char>,
    pub client_id: Seq<char>,
    pub scopes: Seq<char>,
}

impl View for IdpDescriptor {
    type V = DescriptorView;

    open spec fn view(&self) -> DescriptorView {
        DescriptorView {
            issuer_url: self.issuer_url@,
            client_id: self.client_id@,
            scopes: self.scopes@,
        }
    }
}

/// What the server is waiting for.
#[derive(Debug)]
pub enum Phase {
    /// A connection of the browser.
    Listening,
    /// The discovery document of an identity provider.
    Discovering(IdpDescriptor),
    /// A proof key for the second leg.
    Challenging {
        idp: IdpDescriptor,
        authorization_endpoint: String,
        token_endpoint: String,
    },
    /// The token of the portal.
    ExchangingSocial,
    /// The token of an identity provider.
    ExchangingIdp(Leg2State),
    /// Nothing more.
    Stopped,
}

/// What the server is waiting for, as sequences of characters.
pub enum PhaseView {
    Listening,
    Discovering(DescriptorView),
    Challenging {
        idp: DescriptorView,
        authorization_endpoint: Seq<char>,
        token_endpoint: Seq<char>,
    },
    ExchangingSocial,
    ExchangingIdp(Leg2View),
    Stopped,
}

impl View for Phase {
    type V = PhaseView;

    open spec fn view(&self) -> PhaseView {
        match *self {
            Phase::Listening => PhaseView::Listening,
            Phase::Discovering(idp) => PhaseView::Discovering(idp@),
            Phase::Challenging { idp, authorization_endpoint, token_endpoint } =>
                PhaseView::Challenging {
                idp: idp@,
                authorization_endpoint: authorization_endpoint@,
                token_endpoint: token_endpoint@,
            },
            Phase::ExchangingSocial => PhaseView::ExchangingSocial,
            Phase::ExchangingIdp(leg2) => PhaseView::ExchangingIdp(leg2@),
            Phase::Stopped => PhaseView::Stopped,
        }
    }
}

/// The callback server between two events.
pub struct SsoServer {
    params: SsoServerParams,
    leg2: Option<Leg2State>,
    phase: Phase,
}

/// The callback server between two events, as sequences of characters.
pub struct ServerView {
    pub params: ParamsView,
    pub leg2: Option<Leg2View>,
    pub phase: PhaseView,
}

impl View for SsoServer {
    type V = ServerView;

    closed spec fn view(&self) -> ServerView {
        ServerView { params: self.params@, leg2: opt_view(self.leg2), phase: self.phase@ }
    }
}

/// What happens to the server.
#[derive(Debug)]
pub enum SsoEvent {
    /// The port cannot be listened on, for the given reason.
    ListenerFailed(String),
    /// No more connections will come: accepting failed, or the owner is gone.
    Closed,
    /// The browser sent these bytes; none where they could not be read.
    Request(Vec<u8>),
    /// What came of the request for a discovery document.
    Discovery(DiscoveryReply),
    /// A new proof key.
    Pkce { verifier: String, challenge: String },
    /// What came of the exchange of a code at the portal.
    Social(Result<SocialToken, String>),
    /// What came of the exchange of a code at the identity provider.
    Idp(Result<ExternalIdpTokenResponse, String>),
}

/// What happens to the server, as sequences of characters.
pub enum EventView {
    ListenerFailed(Seq<char>),
    Closed,
    Request(Seq<u8>),
    Discovery(DiscoveryReplyView),
    Pkce { verifier: Seq<char>, challenge: Seq<char> },
    Social(Result<SocialTokenView, Seq<char>>),
    Idp(Result<ExternalIdpTokenResponseView, Seq<char>>),
}

impl View for SsoEvent {
    type V = EventView;

    open spec fn view(&self) -> EventView {
        match *self {
            SsoEvent::ListenerFailed(detail) => EventView::ListenerFailed(detail@),
            SsoEvent::Closed => EventView::Closed,
            SsoEvent::Request(bytes) => EventView::Request(bytes@),
            SsoEvent::Discovery(reply) => EventView::Discovery(reply@),
            SsoEvent::Pkce { verifier, challenge } => EventView::Pkce {
                verifier: verifier@,
                challenge: challenge@,
            },
            SsoEvent::Social(r) => EventView::Social(result_view(r)),
            SsoEvent::Idp(r) => EventView::Idp(result_view(r)),
        }
    }
}

/// The exchange of a code at the portal.
#[derive(Debug)]
pub struct SocialExchange {
    pub auth_endpoint: String,
    pub code: String,
    pub code_verifier: String,
    pub redirect_uri: String,
}

/// The exchange of a code at the portal, as sequences of characters.
pub struct SocialExchangeView {
    pub auth_endpoint: Seq<char>,
    pub code: Seq<char>,
    pub code_verifier: Seq<char>,
    pub redirect_uri: Seq<char>,
}

impl View for SocialExchange {
    type V = SocialExchangeView;

    open spec fn view(&self) -> SocialExchangeView {
        SocialExchangeView {
            auth_endpoint: self.auth_endpoint@,
            code: self.code@,
            code_verifier: self.code_verifier@,
            redirect_uri: self.redirect_uri@,
        }
    }
}

/// The exchange of a code at an identity provider.
#[derive(Debug)]
pub struct IdpExchange {
    pub token_endpoint: String,
    pub client_id: String,
    pub code: String,
    pub code_verifier: String,
    pub redirect_uri: String,
    pub scopes: String,
}

/// The exchange of a code at an identity provider, as sequences of characters.
pub struct IdpExchangeView {
    pub token_endpoint: Seq<char>,
    pub client_id: Seq<char>,
    pub code: Seq<char>,
    pub code_verifier: Seq<char>,
    pub redirect_uri: Seq<char>,
    pub scopes: Seq<char>,
}

impl View for IdpExchange {
    type V = IdpExchangeView;

    open spec fn view(&self) -> IdpExchangeView {
        IdpExchangeView {
            token_endpoint: self.token_endpoint@,
            client_id: self.client_id@,
            code: self.code@,
            code_verifier: self.code_verifier@,
            redirect_uri: self.redirect_uri@,
            scopes: self.scopes@,
        }
    }
}

/// How a sign-in ended: with a result, or with a message.
pub type Outcome = Result<KiroSsoResult, String>;

/// What is to be done next. A reply is written to the browser first.
#[derive(Debug)]
pub enum SsoAction {
    /// Wait for the next connection.
    Wait { reply: Option<String> },
    /// Send a request for a discovery document.
    Discover { request: HttpRequest },
    /// Make a proof key for the second leg.
    GeneratePkce,
    /// Exchange a code at the portal.
    ExchangeSocial { reply: String, exchange: SocialExchange },
    /// Exchange a code at an identity provider.
    ExchangeIdp { reply: String, exchange: IdpExchange },
    /// Stop, and report the outcome if there is one.
    Stop { reply: Option<String>, outcome: Option<Outcome> },
}

/// What is to be done next, as sequences of characters.
pub enum ActionView {
    Wait { reply: Option<Seq<char>> },
    Discover { request: HttpRequestView },
    GeneratePkce,
    ExchangeSocial { reply: Seq<char>, exchange: SocialExchangeView },
    ExchangeIdp { reply: Seq<char>, exchange: IdpExchangeView },
    Stop { reply: Option<Seq<char>>, outcome: Option<Result<KiroSsoResultView, Seq<char>>> },
}

/// An outcome, with its texts as sequences of characters.
pub open spec fn outcome_view(o: Option<Outcome>) -> Option<Result<KiroSsoResultView, Seq<char>>> {
    match o {
        Some(r) => Some(result_view(r)),
        None => None,
    }
}

impl View for SsoAction {
    type V = ActionView;

    open spec fn view(&self) -> ActionView {
        match *self {
            SsoAction::Wait { reply } => ActionView::Wait { reply: opt_view(reply) },
            SsoAction::Discover { request } => ActionView::Discover { request: request@ },
            SsoAction::GeneratePkce => ActionView::GeneratePkce,
            SsoAction::ExchangeSocial { reply, exchange } => ActionView::ExchangeSocial {
                reply: reply@,
                exchange: exchange@,
            },
            SsoAction::ExchangeIdp { reply, exchange } => ActionView::ExchangeIdp {
                reply: reply@,
                exchange: exchange@,
            },
            SsoAction::Stop { reply, outcome } => ActionView::Stop {
                reply: opt_view(reply),
                outcome: outcome_view(outcome),
            },
        }
    }
}

/// The address of a callback server on a port of this machine.
pub open spec fn local_address(port: nat) -> Seq<char> {
    "http://127.0.0.1:"@ + decimal(port)
}

/// The value of a parameter; nothing where it is missing.
pub open spec fn param(q: Map<Seq<char>, Seq<char>>, name: Seq<char>) -> Seq<char> {
    if q.contains_key(name) {
        q[name]
    } else {
        Seq::empty()
    }
}

/// The message of a callback that reports an error: its description, or else the
/// error itself.
pub open spec fn error_message(q: Map<Seq<char>, Seq<char>>) -> Seq<char> {
    if q.contains_key("error_description"@) {
        q["error_description"@]
    } else {
        q["error"@]
    }
}

impl ServerView {
    /// The server, waiting for something else.
    pub open spec fn in_phase(self, phase: PhaseView) -> ServerView {
        ServerView { phase, ..self }
    }

    /// The server answers, and goes on listening.
    pub open spec fn waits(self, reply: Option<Seq<char>>) -> (ServerView, ActionView) {
        (self.in_phase(PhaseView::Listening), ActionView::Wait { reply })
    }

    /// The server answers, and is done.
    pub open spec fn stops(
        self,
        reply: Option<Seq<char>>,
        outcome: Option<Result<KiroSsoResultView, Seq<char>>>,
    ) -> (ServerView, ActionView) {
        (self.in_phase(PhaseView::Stopped), ActionView::Stop { reply, outcome })
    }

    /// The server shows one message, reports another, and is done.
    pub open spec fn fails(self, shown: Seq<char>, reported: Seq<char>) -> (
        ServerView,
        ActionView,
    ) {
        self.stops(Some(page_response(error_body(shown))), Some(Err(reported)))
    }

    /// The discovery failed.
    pub open spec fn discovery_fails(self, e: SsoErrorView) -> (ServerView, ActionView) {
        let message = "OIDC discovery 失败: "@ + e.message();
        self.fails(message, message)
    }

    /// Whether an event can happen in the phase in which the server is.
    pub open spec fn awaits(self, event: EventView) -> bool {
        match event {
            EventView::ListenerFailed(_) => self.phase is Listening,
            EventView::Closed => self.phase is Listening,
            EventView::Request(_) => self.phase is Listening,
            EventView::Discovery(_) => self.phase is Discovering,
            EventView::Pkce { .. } => self.phase is Challenging,
            EventView::Social(_) => self.phase is ExchangingSocial,
            EventView::Idp(_) => self.phase is ExchangingIdp,
        }
    }

    /// The address that the portal was given for a social account: the callback,
    /// with the login option that it reports.
    pub open spec fn social_redirect_uri(self, login_option: Seq<char>) -> Seq<char> {
        if login_option.len() == 0 {
            self.params.redirect_uri + "/signin/callback"@
        } else {
            self.params.redirect_uri + "/signin/callback"@ + "?login_option="@ + url_encoded(
                login_option,
            )
        }
    }

    /// A request for `/signin/callback`.
    pub open spec fn on_signin(self, q: Map<Seq<char>, Seq<char>>) -> (ServerView, ActionView) {
        let code = param(q, "code"@);
        let login_option = param(q, "login_option"@);
        let state = param(q, "state"@);
        let idp = DescriptorView {
            issuer_url: param(q, "issuer_url"@),
            client_id: param(q, "client_id"@),
            scopes: if q.contains_key("scopes"@) {
                q["scopes"@]
            } else {
                "openid profile email offline_access"@
            },
        };
        if q.contains_key("error"@) {
            self.fails(error_message(q), "Kiro 门户登录失败: "@ + error_message(q))
        } else if state.len() > 0 && state != self.params.state {
            self.fails("OAuth state 不匹配"@, "OAuth state 不匹配"@)
        } else if code.len() > 0 && login_option != "external_idp"@ {
            (
                self.in_phase(PhaseView::ExchangingSocial),
                ActionView::ExchangeSocial {
                    reply: page_response(SUCCESS_BODY@),
                    exchange: SocialExchangeView {
                        auth_endpoint: self.params.auth_endpoint,
                        code,
                        code_verifier: self.params.code_verifier,
                        redirect_uri: self.social_redirect_uri(login_option),
                    },
                },
            )
        } else if idp.issuer_url.len() == 0 || idp.client_id.len() == 0 {
            self.waits(Some(BAD_REQUEST@))
        } else {
            match discovery_request(idp.issuer_url) {
                Ok(request) => (
                    self.in_phase(PhaseView::Discovering(idp)),
                    ActionView::Discover { request },
                ),
                Err(e) => self.discovery_fails(e),
            }
        }
    }

    /// A request for `/oauth/callback`.
    pub open spec fn on_oauth(self, q: Map<Seq<char>, Seq<char>>) -> (ServerView, ActionView) {
        let code = param(q, "code"@);
        if q.contains_key("error"@) {
            self.fails(error_message(q), "IdP 登录失败: "@ + error_message(q))
        } else if code.len() == 0 {
            self.waits(Some(BAD_REQUEST@))
        } else {
            match self.leg2 {
                Some(leg2) => (
                    ServerView {
                        leg2: None,
                        phase: PhaseView::ExchangingIdp(leg2),
                        ..self
                    },
                    ActionView::ExchangeIdp {
                        reply: page_response(SUCCESS_BODY@),
                        exchange: IdpExchangeView {
                            token_endpoint: leg2.token_endpoint,
                            client_id: leg2.client_id,
                            code,
                            code_verifier: leg2.code_verifier,
                            redirect_uri: self.params.redirect_uri,
                            scopes: leg2.scopes,
                        },
                    },
                ),
                None => self.stops(Some(page_response(SUCCESS_BODY@)), None),
            }
        }
    }

    /// A request, read as text.
    pub open spec fn on_text(self, text: Seq<char>) -> (ServerView, ActionView) {
        match get_target(text) {
            Some(target) => {
                let q = query_map(target_query(target));
                if target_path(target) == "/signin/callback"@ {
                    self.on_signin(q)
                } else if target_path(target) == "/oauth/callback"@ {
                    self.on_oauth(q)
                } else {
                    self.waits(Some(NOT_FOUND@))
                }
            },
            None => self.waits(Some(NOT_FOUND@)),
        }
    }

    /// The reply to the request for a discovery document.
    pub open spec fn on_discovery(self, idp: DescriptorView, reply: DiscoveryReplyView) -> (
        ServerView,
        ActionView,
    ) {
        match discovery_outcome(idp.issuer_url, reply) {
            Ok(doc) => (
                self.in_phase(
                    PhaseView::Challenging {
                        idp,
                        authorization_endpoint: doc.authorization_endpoint,
                        token_endpoint: doc.token_endpoint,
                    },
                ),
                ActionView::GeneratePkce,
            ),
            Err(e) => self.discovery_fails(e),
        }
    }

    /// The state that the identity provider is given.
    pub open spec fn leg2_param(self) -> Seq<char> {
        self.params.state + "-leg2"@
    }

    /// A proof key for the second leg: the browser is sent to the identity provider.
    pub open spec fn on_pkce(
        self,
        idp: DescriptorView,
        authorization_endpoint: Seq<char>,
        token_endpoint: Seq<char>,
        verifier: Seq<char>,
        challenge: Seq<char>,
    ) -> (ServerView, ActionView) {
        let leg2 = Leg2View {
            token_endpoint,
            issuer_url: idp.issuer_url,
            scopes: idp.scopes,
            client_id: idp.client_id,
            code_verifier: verifier,
            state: self.leg2_param(),
        };
        let url = authorize_url(
            authorization_endpoint,
            idp.client_id,
            self.params.redirect_uri,
            self.leg2_param(),
            challenge,
            idp.scopes,
        );
        (ServerView { leg2: Some(leg2), ..self }).waits(Some(redirect_response(url)))
    }
}

/// The result of a sign-in with a social account.
pub open spec fn social_result_view(token: SocialTokenView) -> KiroSsoResultView {
    KiroSsoResultView {
        auth_method: "social"@,
        access_token: token.access_token,
        refresh_token: token.refresh_token,
        expires_in: token.expires_in,
        email: None,
        token_endpoint: None,
        issuer_url: None,
        scopes: None,
        client_id: None,
    }
}

/// The result of a sign-in at an identity provider.
pub open spec fn idp_result_view(
    leg2: Leg2View,
    token: ExternalIdpTokenResponseView,
    email: Option<Seq<char>>,
) -> KiroSsoResultView {
    KiroSsoResultView {
        auth_method: "external_idp"@,
        access_token: token.access_token,
        refresh_token: token.refresh_token,
        expires_in: token.expires_in,
        email,
        token_endpoint: Some(leg2.token_endpoint),
        issuer_url: Some(leg2.issuer_url),
        scopes: Some(leg2.scopes),
        client_id: Some(leg2.client_id),
    }
}

/// What the server becomes, and what it does, when something happens to it.
pub open spec fn sso_step(server: ServerView, event: EventView) -> (ServerView, ActionView) {
    match (server.phase, event) {
        (PhaseView::Listening, EventView::ListenerFailed(detail)) => server.stops(
            None,
            Some(Err("Kiro SSO 服务器初始化失败: "@ + detail)),
        ),
        (PhaseView::Listening, EventView::Closed) => server.stops(None, None),
        (PhaseView::Listening, EventView::Request(bytes)) => if bytes.len() == 0 {
            server.waits(None)
        } else {
            server.on_text(lossy_text(bytes))
        },
        (PhaseView::Discovering(idp), EventView::Discovery(reply)) => server.on_discovery(
            idp,
            reply,
        ),
        (
            PhaseView::Challenging { idp, authorization_endpoint, token_endpoint },
            EventView::Pkce { verifier, challenge },
        ) => server.on_pkce(idp, authorization_endpoint, token_endpoint, verifier, challenge),
        (PhaseView::ExchangingSocial, EventView::Social(r)) => server.stops(
            None,
            Some(
                match r {
                    Ok(token) => Ok(social_result_view(token)),
                    Err(detail) => Err("Kiro 社交 token 换取失败: "@ + detail),
                },
            ),
        ),
        (PhaseView::ExchangingIdp(leg2), EventView::Idp(r)) => server.stops(
            None,
            Some(
                match r {
                    Ok(token) => Ok(
                        idp_result_view(leg2, token, jwt_email(token.access_token)),
                    ),
                    Err(detail) => Err("External IdP token 换取失败: "@ + detail),
                },
            ),
        ),
        _ => (server, ActionView::Wait { reply: None }),
    }
}

/// The result of a sign-in with a social account.
pub fn social_result(token: SocialToken) -> (r: KiroSsoResult)
    ensures
        r@ == social_result_view(token@),
        r.auth_method@ == "social"@,
        r.access_token == token.access_token,
        r.refresh_token == token.refresh_token,
        r.expires_in == token.expires_in,
        r.email is None,
        r.token_endpoint is None,
        r.issuer_url is None,
        r.scopes is None,
        r.client_id is None,
{
    KiroSsoResult {
        auth_method: "social".to_owned(),
        access_token: token.access_token,
        refresh_token: token.refresh_token,
        expires_in: token.expires_in,
        email: None,
        token_endpoint: None,
        issuer_url: None,
        scopes: None,
        client_id: None,
    }
}

/// The result of a sign-in at an identity provider, given the e-mail address that
/// was found in the token.
pub fn idp_result(leg2: Leg2State, token: ExternalIdpTokenResponse, email: Option<String>) -> (r:
    KiroSsoResult)
    ensures
        r@ == idp_result_view(leg2@, token@, opt_view(email)),
        r.auth_method@ == "external_idp"@,
        r.access_token == token.access_token,
        r.refresh_token == token.refresh_token,
        r.expires_in == token.expires_in,
        r.email == email,
        r.token_endpoint == Some(leg2.token_endpoint),
        r.issuer_url == Some(leg2.issuer_url),
        r.scopes == Some(leg2.scopes),
        r.client_id == Some(leg2.client_id),
{
    KiroSsoResult {
        auth_method: "external_idp".to_owned(),
        access_token: token.access_token,
        refresh_token: token.refresh_token,
        expires_in: token.expires_in,
        email,
        token_endpoint: Some(leg2.token_endpoint),
        issuer_url: Some(leg2.issuer_url),
        scopes: Some(leg2.scopes),
        client_id: Some(leg2.client_id),
    }
}

/// The value of a parameter; nothing where it is missing.
fn param_text(q: &StringHashMap<String>, name: &str) -> (r: String)
    ensures
        r@ == param(texts(q@), name@),
{
    match q.get(name) {
        Some(v) => v.clone(),
        None => String::new(),
    }
}

/// The message of a callback, if it reports an error.
fn reported_error(q: &StringHashMap<String>) -> (r: Option<String>)
    ensures
        r is Some <==> texts(q@).contains_key("error"@),
        r matches Some(message) ==> message@ == error_message(texts(q@)),
{
    match q.get("error") {
        Some(error) => match q.get("error_description") {
            Some(description) => Some(description.clone()),
            None => Some(error.clone()),
        },
        None => None,
    }
}

/// The address of a callback server on a port of this machine.
pub fn callback_redirect_uri(port: u16) -> (r: String)
    ensures
        r@ == local_address(port as nat),
        r@ == "http://127.0.0.1:"@ + decimal(port as nat),
{
    join2("http://127.0.0.1:", decimal_text(port as usize).as_str())
}

impl SsoServer {
    /// A server that is about to listen on `port`.
    pub fn new(auth_endpoint: String, state: String, code_verifier: String, port: u16) -> (s: Self)
        ensures
            s@ == (ServerView {
                params: ParamsView {
                    auth_endpoint: auth_endpoint@,
                    state: state@,
                    code_verifier: code_verifier@,
                    redirect_uri: local_address(port as nat),
                },
                leg2: None,
                phase: PhaseView::Listening,
            }),
    {
        SsoServer {
            params: SsoServerParams {
                auth_endpoint,
                state,
                code_verifier,
                redirect_uri: callback_redirect_uri(port),
            },
            leg2: None,
            phase: Phase::Listening,
        }
    }

    /// The address of the server.
    pub fn redirect_uri(&self) -> (r: &str)
        ensures
            r@ == self@.params.redirect_uri,
    {
        self.params.redirect_uri.as_str()
    }

    /// Whether an event can happen in the phase in which the server is.
    pub fn awaits(&self, event: &SsoEvent) -> (b: bool)
        ensures
            b == self@.awaits(event@),
    {
        match (&self.phase, event) {
            (Phase::Listening, SsoEvent::ListenerFailed(_)) => true,
            (Phase::Listening, SsoEvent::Closed) => true,
            (Phase::Listening, SsoEvent::Request(_)) => true,
            (Phase::Discovering(_), SsoEvent::Discovery(_)) => true,
            (Phase::Challenging { .. }, SsoEvent::Pkce { .. }) => true,
            (Phase::ExchangingSocial, SsoEvent::Social(_)) => true,
            (Phase::ExchangingIdp(_), SsoEvent::Idp(_)) => true,
            _ => false,
        }
    }

    /// Answers, and goes on listening.
    fn wait(self, reply: Option<String>) -> (r: (SsoServer, SsoAction))
        ensures
            (r.0@, r.1@) == self@.waits(opt_view(reply)),
    {
        (
            SsoServer { params: self.params, leg2: self.leg2, phase: Phase::Listening },
            SsoAction::Wait { reply },
        )
    }

    /// Answers, and is done.
    fn stop(self, reply: Option<String>, outcome: Option<Outcome>) -> (r: (SsoServer, SsoAction))
        ensures
            (r.0@, r.1@) == self@.stops(opt_view(reply), outcome_view(outcome)),
            r.1 == (SsoAction::Stop { reply, outcome }),
    {
        (
            SsoServer { params: self.params, leg2: self.leg2, phase: Phase::Stopped },
            SsoAction::Stop { reply, outcome },
        )
    }

    /// Shows one message, reports another, and is done.
    fn fail(self, shown: &str, reported: String) -> (r: (SsoServer, SsoAction))
        ensures
            (r.0@, r.1@) == self@.fails(shown@, reported@),
    {
        self.stop(Some(error_page(shown)), Some(Err(reported)))
    }

    /// Gives up a discovery.
    fn fail_discovery(self, e: SsoError) -> (r: (SsoServer, SsoAction))
        ensures
            (r.0@, r.1@) == self@.discovery_fails(e@),
    {
        let message = join2("OIDC discovery 失败: ", e.message().as_str());
        self.fail(message.as_str(), message.clone())
    }

    /// Handles a request for `/signin/callback`.
    fn handle_signin(self, q: &StringHashMap<String>) -> (r: (SsoServer, SsoAction))
        ensures
            (r.0@, r.1@) == self@.on_signin(texts(q@)),
    {
        if let Some(message) = reported_error(q) {
            let reported = join2("Kiro 门户登录失败: ", message.as_str());
            return self.fail(message.as_str(), reported);
        }
        let code = param_text(q, "code");
        let login_option = param_text(q, "login_option");
        let state = param_text(q, "state");
        if !state.as_str().is_empty() && state != self.params.state {
            return self.fail("OAuth state 不匹配", "OAuth state 不匹配".to_owned());
        }
        if !code.as_str().is_empty() && !same_text(login_option.as_str(), "external_idp") {
            let mut redirect_uri = join2(self.params.redirect_uri.as_str(), "/signin/callback");
            if !login_option.as_str().is_empty() {
                redirect_uri.append("?login_option=");
                redirect_uri.append(url_encode(login_option.as_str()).as_str());
            }
            let exchange = SocialExchange {
                auth_endpoint: self.params.auth_endpoint.clone(),
                code,
                code_verifier: self.params.code_verifier.clone(),
                redirect_uri,
            };
            return (
                SsoServer { params: self.params, leg2: self.leg2, phase: Phase::ExchangingSocial },
                SsoAction::ExchangeSocial { reply: success_page(), exchange },
            );
        }
        let issuer_url = param_text(q, "issuer_url");
        let client_id = param_text(q, "client_id");
        let scopes = match q.get("scopes") {
            Some(scopes) => scopes.clone(),
            None => "openid profile email offline_access".to_owned(),
        };
        if issuer_url.as_str().is_empty() || client_id.as_str().is_empty() {
            return self.wait(Some(BAD_REQUEST.to_owned()));
        }
        match oidc_discovery_request(issuer_url.as_str()) {
            Ok(request) => (
                SsoServer {
                    params: self.params,
                    leg2: self.leg2,
                    phase: Phase::Discovering(IdpDescriptor { issuer_url, client_id, scopes }),
                },
                SsoAction::Discover { request },
            ),
            Err(e) => self.fail_discovery(e),
        }
    }

    /// Handles a request for `/oauth/callback`.
    fn handle_oauth(self, q: &StringHashMap<String>) -> (r: (SsoServer, SsoAction))
        ensures
            (r.0@, r.1@) == self@.on_oauth(texts(q@)),
    {
        if let Some(message) = reported_error(q) {
            let reported = join2("IdP 登录失败: ", message.as_str());
            return self.fail(message.as_str(), reported);
        }
        let code = param_text(q, "code");
        if code.as_str().is_empty() {
            return self.wait(Some(BAD_REQUEST.to_owned()));
        }
        let SsoServer { params, leg2, phase } = self;
        match leg2 {
            Some(leg2) => {
                let exchange = IdpExchange {
                    token_endpoint: leg2.token_endpoint.clone(),
                    client_id: leg2.client_id.clone(),
                    code,
                    code_verifier: leg2.code_verifier.clone(),
                    redirect_uri: params.redirect_uri.clone(),
                    scopes: leg2.scopes.clone(),
                };
                (
                    SsoServer { params, leg2: None, phase: Phase::ExchangingIdp(leg2) },
                    SsoAction::ExchangeIdp { reply: success_page(), exchange },
                )
            },
            None => SsoServer { params, leg2: None, phase }.stop(Some(success_page()), None),
        }
    }

    /// Handles a request that was read as text.
    pub fn handle_text(self, text: &str) -> (r: (SsoServer, SsoAction))
        requires
            self@.phase is Listening,
        ensures
            (r.0@, r.1@) == self@.on_text(text@),
    {
        match request_target(text) {
            Some(target) => {
                let (path, query) = split_path_query(target);
                let q = parse_query_string(query);
                if same_text(path, "/signin/callback") {
                    self.handle_signin(&q)
                } else if same_text(path, "/oauth/callback") {
                    self.handle_oauth(&q)
                } else {
                    self.wait(Some(NOT_FOUND.to_owned()))
                }
            },
            None => self.wait(Some(NOT_FOUND.to_owned())),
        }
    }

    /// Takes the next step of the sign-in.
    pub fn step(self, event: SsoEvent) -> (r: (SsoServer, SsoAction))
        requires
            self@.awaits(event@),
        ensures
            (r.0@, r.1@) == sso_step(self@, event@),
            event matches SsoEvent::Social(Ok(token)) ==> {
                &&& r.1 matches SsoAction::Stop { reply: None, outcome: Some(Ok(result)) }
                &&& result.access_token == token.access_token
                &&& result.refresh_token == token.refresh_token
                &&& result.expires_in == token.expires_in
            },
            event matches SsoEvent::Idp(Ok(token)) ==> {
                &&& r.1 matches SsoAction::Stop { reply: None, outcome: Some(Ok(result)) }
                &&& result.access_token == token.access_token
                &&& result.refresh_token == token.refresh_token
                &&& result.expires_in == token.expires_in
            },
    {
        let SsoServer { params, leg2, phase } = self;
        match (phase, event) {
            (Phase::Discovering(idp), SsoEvent::Discovery(reply)) => {
                match accept_discovery(idp.issuer_url.as_str(), reply) {
                    Ok(doc) => (
                        SsoServer {
                            params,
                            leg2,
                            phase: Phase::Challenging {
                                idp,
                                authorization_endpoint: doc.authorization_endpoint,
                                token_endpoint: doc.token_endpoint,
                            },
                        },
                        SsoAction::GeneratePkce,
                    ),
                    Err(e) => SsoServer {
                        params,
                        leg2,
                        phase: Phase::Discovering(idp),
                    }.fail_discovery(e),
                }
            },
            (
                Phase::Challenging { idp, authorization_endpoint, token_endpoint },
                SsoEvent::Pkce { verifier, challenge },
            ) => {
                let state = join2(params.state.as_str(), "-leg2");
                let url = external_idp_authorize_url(
                    authorization_endpoint.as_str(),
                    idp.client_id.as_str(),
                    params.redirect_uri.as_str(),
                    state.as_str(),
                    challenge.as_str(),
                    idp.scopes.as_str(),
                );
                let leg2 = Leg2State {
                    token_endpoint,
                    issuer_url: idp.issuer_url,
                    scopes: idp.scopes,
                    client_id: idp.client_id,
                    code_verifier: verifier,
                    state,
                };
                SsoServer { params, leg2: Some(leg2), phase: Phase::Listening }.wait(
                    Some(redirect_page(url.as_str())),
                )
            },
            (Phase::ExchangingSocial, SsoEvent::Social(result)) => {
                let outcome: Outcome = match result {
                    Ok(token) => Ok(social_result(token)),
                    Err(detail) => Err(
                        join2("Kiro 社交 token 换取失败: ", detail.as_str()),
                    ),
                };
                SsoServer { params, leg2, phase: Phase::ExchangingSocial }.stop(None, Some(outcome))
            },
            (Phase::ExchangingIdp(pending), SsoEvent::Idp(result)) => {
                let outcome: Outcome = match result {
                    Ok(token) => {
                        let email = extract_email_from_jwt(token.access_token.as_str());
                        Ok(idp_result(pending, token, email))
                    },
                    Err(detail) => Err(
                        join2("External IdP token 换取失败: ", detail.as_str()),
                    ),
                };
                SsoServer { params, leg2, phase: Phase::Stopped }.stop(None, Some(outcome))
            },
            (_, SsoEvent::ListenerFailed(detail)) => {
                let message = join2("Kiro SSO 服务器初始化失败: ", detail.as_str());
                SsoServer { params, leg2, phase: Phase::Listening }.stop(None, Some(Err(message)))
            },
            (_, SsoEvent::Request(bytes)) => {
                let server = SsoServer { params, leg2, phase: Phase::Listening };
                if bytes.len() == 0 {
                    server.wait(None)
                } else {
                    let text = utf8_lossy(bytes.as_slice());
                    server.handle_text(text.as_str())
                }
            },
            (_, _) => SsoServer { params, leg2, phase: Phase::Listening }.stop(None, None),
        }
    }
}

/// What is said of an exchange is said of all of it: nothing is left out of its view.
pub proof fn law_exchange_views(social: SocialExchange, idp: IdpExchange)
    ensures
        social@.auth_endpoint == social.auth_endpoint@,
        social@.code == social.code@,
        social@.code_verifier == social.code_verifier@,
        social@.redirect_uri == social.redirect_uri@,
        idp@.token_endpoint == idp.token_endpoint@,
        idp@.client_id == idp.client_id@,
        idp@.code == idp.code@,
        idp@.code_verifier == idp.code_verifier@,
        idp@.redirect_uri == idp.redirect_uri@,
        idp@.scopes == idp.scopes@,
{
}

/// What is said of an action is said of all of it: nothing is left out of its view.
pub proof fn law_action_views(action: SsoAction)
    ensures
        action matches SsoAction::Wait { reply: Some(text) } ==> action@ == (ActionView::Wait {
            reply: Some(text@),
        }),
        action matches SsoAction::Wait { reply: None } ==> action@ == (ActionView::Wait {
            reply: None,
        }),
        action matches SsoAction::Discover { request } ==> action@ == (ActionView::Discover {
            request: request@,
        }),
        action is GeneratePkce ==> action@ == ActionView::GeneratePkce,
        action matches SsoAction::ExchangeSocial { reply, exchange } ==> action@ == (
        ActionView::ExchangeSocial { reply: reply@, exchange: exchange@ }),
        action matches SsoAction::ExchangeIdp { reply, exchange } ==> action@ == (
        ActionView::ExchangeIdp { reply: reply@, exchange: exchange@ }),
        action matches SsoAction::Stop { reply, outcome } ==> {
            &&& action@ matches ActionView::Stop { reply: shown, outcome: reported }
            &&& reply matches Some(text) ==> shown == Some(text@)
            &&& reply is None ==> shown is None
            &&& outcome matches Some(Ok(result)) ==> reported == Some(
                Ok::<KiroSsoResultView, Seq<char>>(result@),
            )
            &&& outcome matches Some(Err(message)) ==> reported == Some(
                Err::<KiroSsoResultView, Seq<char>>(message@),
            )
            &&& outcome is None ==> reported is None
        },
{
}

/// What is said of an event is said of all of it: nothing is left out of its view.
pub proof fn law_event_views(event: SsoEvent)
    ensures
        event matches SsoEvent::ListenerFailed(detail) ==> event@ == EventView::ListenerFailed(
            detail@,
        ),
        event is Closed ==> event@ == EventView::Closed,
        event matches SsoEvent::Request(bytes) ==> event@ == EventView::Request(bytes@),
        event matches SsoEvent::Discovery(reply) ==> event@ == EventView::Discovery(reply@),
        event matches SsoEvent::Pkce { verifier, challenge } ==> event@ == (EventView::Pkce {
            verifier: verifier@,
            challenge: challenge@,
        }),
        event matches SsoEvent::Social(Ok(token)) ==> event@ == EventView::Social(Ok(token@)),
        event matches SsoEvent::Social(Err(detail)) ==> event@ == EventView::Social(Err(detail@)),
        event matches SsoEvent::Idp(Ok(token)) ==> event@ == EventView::Idp(Ok(token@)),
        event matches SsoEvent::Idp(Err(detail)) ==> event@ == EventView::Idp(Err(detail@)),
{
}

/// What is said of the parts of a server is said of all of them: nothing is left out of
/// their views.
pub proof fn law_server_views(params: SsoServerParams, leg2: Leg2State, idp: IdpDescriptor)
    ensures
        params@.auth_endpoint == params.auth_endpoint@,
        params@.state == params.state@,
        params@.code_verifier == params.code_verifier@,
        params@.redirect_uri == params.redirect_uri@,
        leg2@.token_endpoint == leg2.token_endpoint@,
        leg2@.issuer_url == leg2.issuer_url@,
        leg2@.scopes == leg2.scopes@,
        leg2@.client_id == leg2.client_id@,
        leg2@.code_verifier == leg2.code_verifier@,
        leg2@.state == leg2.state@,
        idp@.issuer_url == idp.issuer_url@,
        idp@.client_id == idp.client_id@,
        idp@.scopes == idp.scopes@,
{
}

} // verus!
