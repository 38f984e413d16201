//! What holds of every sign-in.

use crate::allowlist::{url_trusted, url_verdict};
use crate::error::SsoErrorView;
use crate::idp::{
    authorize_url, discovery_url, law_discovery_documents, law_discovery_request,
    DiscoveryReplyView, HttpMethod, HttpRequestView,
};
use crate::jwt::jwt_email;
use crate::outside::lossy_text;
use crate::pages::{error_body, page_response, redirect_response, NOT_FOUND, SUCCESS_BODY};
use crate::percent::url_encoded;
use crate::query::{query_map, target_path, target_query};
use crate::request::{ends_line, get_target, law_request_line_reads_back};
use crate::server::{
    idp_result_view, local_address, param, social_result_view, sso_step, ActionView,
    DescriptorView, EventView, IdpExchangeView, Leg2View, ParamsView, PhaseView, ServerView,
    SocialExchangeView,
};
use crate::text::{decimal, law_up_to, run_of, trim_end};
use crate::types::{ExternalIdpTokenResponseView, OidcDiscoveryView, SocialTokenView};
use vstd::prelude::*;
use vstd::utf8::{decode_utf8, encode_utf8, encode_utf8_decode_utf8, encode_utf8_valid_utf8};

verus! {

/// Every token endpoint that the server keeps is trusted.
pub open spec fn endpoints_trusted(server: ServerView) -> bool {
    &&& server.leg2 matches Some(leg2) ==> url_trusted(leg2.token_endpoint)
    &&& match server.phase {
        PhaseView::Challenging { token_endpoint, .. } => url_trusted(token_endpoint),
        PhaseView::ExchangingIdp(leg2) => url_trusted(leg2.token_endpoint),
        _ => true,
    }
}

/// Every URL that an action names for a request is trusted.
pub open spec fn action_trusted(action: ActionView) -> bool {
    match action {
        ActionView::ExchangeIdp { exchange, .. } => url_trusted(exchange.token_endpoint),
        ActionView::Stop { outcome: Some(Ok(result)), .. } => match result.token_endpoint {
            Some(token_endpoint) => url_trusted(token_endpoint),
            None => true,
        },
        _ => true,
    }
}

/// A server that has just been made.
pub open spec fn fresh_server(params: ParamsView) -> ServerView {
    ServerView { params, leg2: None, phase: PhaseView::Listening }
}

/// What the server has become after a number of events.
pub open spec fn after_events(server: ServerView, events: Seq<EventView>) -> ServerView
    decreases events.len(),
{
    if events.len() == 0 {
        server
    } else {
        sso_step(after_events(server, events.drop_last()), events.last()).0
    }
}

/// Whether each of the events can happen when it does.
pub open spec fn in_order(server: ServerView, events: Seq<EventView>) -> bool
    decreases events.len(),
{
    events.len() > 0 ==> {
        &&& in_order(server, events.drop_last())
        &&& after_events(server, events.drop_last()).awaits(events.last())
    }
}

/// One step keeps token endpoints trusted, and asks for a token at a trusted
/// endpoint only.
pub proof fn law_step_keeps_endpoints_trusted(server: ServerView, event: EventView)
    ensures
        endpoints_trusted(server) ==> endpoints_trusted(sso_step(server, event).0),
        endpoints_trusted(server) ==> action_trusted(sso_step(server, event).1),
{
}

/// Whatever happens to a server, every token endpoint that it keeps, asks for a
/// token, or reports in a result, is trusted.
pub proof fn law_endpoints_always_trusted(
    params: ParamsView,
    events: Seq<EventView>,
    event: EventView,
)
    ensures
        endpoints_trusted(after_events(fresh_server(params), events)),
        action_trusted(sso_step(after_events(fresh_server(params), events), event).1),
    decreases events.len(),
{
    let server = fresh_server(params);
    if events.len() > 0 {
        law_endpoints_always_trusted(params, events.drop_last(), events.last());
        law_step_keeps_endpoints_trusted(
            after_events(server, events.drop_last()),
            events.last(),
        );
    }
    law_step_keeps_endpoints_trusted(after_events(server, events), event);
}

/// A discovery document is asked for only where the URL of the issuer is trusted,
/// and at the place where that issuer publishes it; no redirect is followed.
pub proof fn law_discovery_only_at_trusted_issuers(server: ServerView, event: EventView)
    ensures
        sso_step(server, event).1 matches ActionView::Discover { request } ==> {
            &&& sso_step(server, event).0.phase matches PhaseView::Discovering(idp)
            &&& url_trusted(idp.issuer_url)
            &&& request.url == discovery_url(idp.issuer_url)
            &&& !request.follow_redirects
        },
{
}

/// A result tells of an identity provider all or nothing: a social sign-in has no
/// address and no provider, an enterprise sign-in has all that a refresh needs.
pub proof fn law_result_shape(server: ServerView, event: EventView)
    ensures
        sso_step(server, event).1 matches ActionView::Stop {
            outcome: Some(Ok(result)),
            ..
        } ==> {
            ||| {
                &&& result.auth_method == "social"@
                &&& result.email is None
                &&& result.token_endpoint is None
                &&& result.issuer_url is None
                &&& result.scopes is None
                &&& result.client_id is None
            }
            ||| {
                &&& result.auth_method == "external_idp"@
                &&& result.token_endpoint is Some
                &&& result.issuer_url is Some
                &&& result.scopes is Some
                &&& result.client_id is Some
            }
        },
{
}

/// What a sign-in started from never changes.
pub proof fn law_params_never_change(server: ServerView, events: Seq<EventView>)
    ensures
        after_events(server, events).params == server.params,
    decreases events.len(),
{
    if events.len() > 0 {
        law_params_never_change(server, events.drop_last());
    }
}

/// Stopping is final: the server stops exactly when it says so, and then nothing
/// more can happen to it, so that no sign-in has two outcomes.
pub proof fn law_stop_is_final(server: ServerView, event: EventView, next: EventView)
    requires
        server.awaits(event),
    ensures
        sso_step(server, event).1 is Stop <==> sso_step(server, event).0.phase is Stopped,
        sso_step(server, event).1 is Stop ==> !sso_step(server, event).0.awaits(next),
{
}

/// In a run of the server only the last action can be a stop.
pub proof fn law_one_outcome(server: ServerView, events: Seq<EventView>, i: int)
    requires
        in_order(server, events),
        0 <= i < events.len() - 1,
    ensures
        !(sso_step(after_events(server, events.take(i)), events[i]).1 is Stop),
    decreases events.len(),
{
    let shorter = events.drop_last();
    assert(in_order(server, shorter));
    if i < shorter.len() - 1 {
        law_one_outcome(server, shorter, i);
        assert(shorter.take(i) =~= events.take(i));
    } else {
        assert(shorter.drop_last() =~= events.take(i));
        assert(shorter.last() == events[i]);
        assert(after_events(server, shorter.drop_last()).awaits(shorter.last()));
        assert(after_events(server, shorter) == sso_step(
            after_events(server, events.take(i)),
            events[i],
        ).0);
        law_stop_is_final(after_events(server, events.take(i)), events[i], events.last());
    }
}

/// A request that is no callback is answered with "not found" and changes nothing.
pub proof fn law_other_requests_change_nothing(server: ServerView, bytes: Seq<u8>)
    requires
        server.phase is Listening,
        bytes.len() > 0,
        get_target(lossy_text(bytes)) matches Some(target) ==> target_path(target)
            != "/signin/callback"@ && target_path(target) != "/oauth/callback"@,
    ensures
        sso_step(server, EventView::Request(bytes)) == (
            server,
            ActionView::Wait { reply: Some(NOT_FOUND@) },
        ),
{
}

/// The query of a callback that the browser requests.
pub open spec fn callback_query(bytes: Seq<u8>, path: Seq<char>) -> Option<
    Map<Seq<char>, Seq<char>>,
> {
    match get_target(lossy_text(bytes)) {
        Some(target) => if bytes.len() > 0 && target_path(target) == path {
            Some(query_map(target_query(target)))
        } else {
            None
        },
        None => None,
    }
}

/// The two callbacks are different paths.
proof fn lemma_callbacks_differ()
    ensures
        "/signin/callback"@ != "/oauth/callback"@,
{
    reveal_strlit("/signin/callback");
    reveal_strlit("/oauth/callback");
    assert("/signin/callback"@.len() != "/oauth/callback"@.len());
}

/// A sign-in callback that brings a state other than the one that was handed out
/// ends the sign-in with a failure: neither is its code exchanged, nor is the
/// identity provider that it describes asked for anything.
pub proof fn law_wrong_state_is_refused(server: ServerView, bytes: Seq<u8>)
    requires
        server.phase is Listening,
        callback_query(bytes, "/signin/callback"@) matches Some(q) && param(q, "state"@).len() > 0
            && param(q, "state"@) != server.params.state,
    ensures
        sso_step(server, EventView::Request(bytes)).1 matches ActionView::Stop {
            outcome: Some(Err(_)),
            ..
        },
{
}

/// The browser is always answered: a step either carries a reply, or waits for the
/// answer of another party before it does, or comes after the reply was sent.
pub proof fn law_browser_is_answered(server: ServerView, event: EventView)
    requires
        server.awaits(event),
        event matches EventView::Request(bytes) ==> bytes.len() > 0,
    ensures
        event is Request || event is Discovery || event is Pkce ==> match sso_step(
            server,
            event,
        ).1 {
            ActionView::Wait { reply } => reply is Some,
            ActionView::Stop { reply, .. } => reply is Some,
            ActionView::Discover { .. } => true,
            ActionView::GeneratePkce => true,
            ActionView::ExchangeSocial { .. } => true,
            ActionView::ExchangeIdp { .. } => true,
        },
{
}

/// What was kept for the second leg stays until the code that it is for arrives,
/// or another proof key takes its place; the exchange of that code uses it.
pub proof fn law_second_leg_is_kept(server: ServerView, event: EventView)
    requires
        server.awaits(event),
    ensures
        ({
            let (next, action) = sso_step(server, event);
            ||| next.leg2 == server.leg2 && !(action is ExchangeIdp)
            ||| event is Pkce
            ||| action matches ActionView::ExchangeIdp { exchange, .. } && server.leg2 matches Some(
                leg2,
            ) && next.leg2 is None && next.phase == PhaseView::ExchangingIdp(leg2)
                && exchange.token_endpoint == leg2.token_endpoint && exchange.client_id
                == leg2.client_id && exchange.code_verifier == leg2.code_verifier
                && exchange.scopes == leg2.scopes
        }),
{
}

/// A sign-in with a social account: the code that the portal brings is exchanged
/// with the secret of the first leg, and the token is the result.
pub proof fn law_social_sign_in(server: ServerView, bytes: Seq<u8>, token: SocialTokenView)
    requires
        server.phase is Listening,
        callback_query(bytes, "/signin/callback"@) matches Some(q) && {
            &&& !q.contains_key("error"@)
            &&& param(q, "state"@).len() == 0 || param(q, "state"@) == server.params.state
            &&& param(q, "code"@).len() > 0
            &&& param(q, "login_option"@) != "external_idp"@
        },
    ensures
        ({
            let q = callback_query(bytes, "/signin/callback"@)->0;
            let (s1, a1) = sso_step(server, EventView::Request(bytes));
            let (s2, a2) = sso_step(s1, EventView::Social(Ok(token)));
            &&& a1 == (ActionView::ExchangeSocial {
                reply: page_response(SUCCESS_BODY@),
                exchange: SocialExchangeView {
                    auth_endpoint: server.params.auth_endpoint,
                    code: param(q, "code"@),
                    code_verifier: server.params.code_verifier,
                    redirect_uri: server.social_redirect_uri(param(q, "login_option"@)),
                },
            })
            &&& s1.awaits(EventView::Social(Ok(token)))
            &&& a2 == (ActionView::Stop { reply: None, outcome: Some(Ok(social_result_view(token))) })
        }),
{
}

/// The description of an identity provider in the query of a sign-in callback.
pub open spec fn described_idp(q: Map<Seq<char>, Seq<char>>) -> DescriptorView {
    DescriptorView {
        issuer_url: param(q, "issuer_url"@),
        client_id: param(q, "client_id"@),
        scopes: if q.contains_key("scopes"@) {
            q["scopes"@]
        } else {
            "openid profile email offline_access"@
        },
    }
}

/// A sign-in with an enterprise account: the identity provider that the portal
/// describes is trusted and confirms itself, the browser is sent there with a
/// challenge, the code that it brings back is exchanged with the secret of that
/// challenge at the token endpoint of that provider, and the token is the result.
#[verifier::spinoff_prover]
pub proof fn law_enterprise_sign_in(
    server: ServerView,
    first: Seq<u8>,
    doc: OidcDiscoveryView,
    verifier: Seq<char>,
    challenge: Seq<char>,
    second: Seq<u8>,
    token: ExternalIdpTokenResponseView,
)
    requires
        server.phase is Listening,
        callback_query(first, "/signin/callback"@) matches Some(q) && {
            &&& !q.contains_key("error"@)
            &&& param(q, "state"@).len() == 0 || param(q, "state"@) == server.params.state
            &&& param(q, "code"@).len() == 0 || param(q, "login_option"@) == "external_idp"@
            &&& described_idp(q).issuer_url.len() > 0
            &&& described_idp(q).client_id.len() > 0
            &&& url_trusted(described_idp(q).issuer_url)
            &&& trim_end(doc.issuer, '/') == trim_end(described_idp(q).issuer_url, '/')
        },
        url_trusted(doc.token_endpoint),
        callback_query(second, "/oauth/callback"@) matches Some(q) && {
            &&& !q.contains_key("error"@)
            &&& param(q, "code"@).len() > 0
        },
    ensures
        ({
            let idp = described_idp(callback_query(first, "/signin/callback"@)->0);
            let code = param(callback_query(second, "/oauth/callback"@)->0, "code"@);
            let leg2_param = server.leg2_param();
            let leg2 = Leg2View {
                token_endpoint: doc.token_endpoint,
                issuer_url: idp.issuer_url,
                scopes: idp.scopes,
                client_id: idp.client_id,
                code_verifier: verifier,
                state: leg2_param,
            };
            let (s1, a1) = sso_step(server, EventView::Request(first));
            let (s2, a2) = sso_step(s1, EventView::Discovery(DiscoveryReplyView::Document(doc)));
            let (s3, a3) = sso_step(s2, EventView::Pkce { verifier, challenge });
            let (s4, a4) = sso_step(s3, EventView::Request(second));
            let (s5, a5) = sso_step(s4, EventView::Idp(Ok(token)));
            &&& a1 is Discover
            &&& a2 is GeneratePkce
            &&& a3 == (ActionView::Wait {
                reply: Some(
                    redirect_response(
                        authorize_url(
                            doc.authorization_endpoint,
                            idp.client_id,
                            server.params.redirect_uri,
                            leg2_param,
                            challenge,
                            idp.scopes,
                        ),
                    ),
                ),
            })
            &&& a4 == (ActionView::ExchangeIdp {
                reply: page_response(SUCCESS_BODY@),
                exchange: IdpExchangeView {
                    token_endpoint: doc.token_endpoint,
                    client_id: idp.client_id,
                    code,
                    code_verifier: verifier,
                    redirect_uri: server.params.redirect_uri,
                    scopes: idp.scopes,
                },
            })
            &&& a5 == (ActionView::Stop {
                reply: None,
                outcome: Some(Ok(idp_result_view(leg2, token, jwt_email(token.access_token)))),
            })
        }),
{
    lemma_callbacks_differ();
}

/// The address of a callback server: this machine, and its port in decimal notation.
pub proof fn law_local_address(port: nat)
    ensures
        local_address(port) == "http://127.0.0.1:"@ + decimal(port),
{
}

/// Each action is answered by its own event: a server that waits can be sent a request,
/// closed, or told that it cannot listen, one that asks for something can be handed
/// that, and nothing else can happen.
pub proof fn law_each_action_has_its_event(server: ServerView, event: EventView, next: EventView)
    requires
        server.awaits(event),
    ensures
        ({
            let (after, action) = sso_step(server, event);
            after.awaits(next) <==> match action {
                ActionView::Wait { .. } => next is Request || next is Closed
                    || next is ListenerFailed,
                ActionView::Discover { .. } => next is Discovery,
                ActionView::GeneratePkce => next is Pkce,
                ActionView::ExchangeSocial { .. } => next is Social,
                ActionView::ExchangeIdp { .. } => next is Idp,
                ActionView::Stop { .. } => false,
            }
        }),
        fresh_server(server.params).awaits(next) <==> next is Request || next is Closed
            || next is ListenerFailed,
{
}

/// A server that cannot listen reports why, and one that is closed reports nothing; both
/// stop. A request that could not be read is passed over.
pub proof fn law_events_without_a_request(server: ServerView, detail: Seq<char>)
    requires
        server.phase is Listening,
    ensures
        sso_step(server, EventView::ListenerFailed(detail)) == (
            ServerView { phase: PhaseView::Stopped, ..server },
            ActionView::Stop {
                reply: None,
                outcome: Some(Err("Kiro SSO 服务器初始化失败: "@ + detail)),
            },
        ),
        sso_step(server, EventView::Closed) == (
            ServerView { phase: PhaseView::Stopped, ..server },
            ActionView::Stop { reply: None, outcome: None },
        ),
        sso_step(server, EventView::Request(Seq::empty())) == (
            server,
            ActionView::Wait { reply: None },
        ),
{
}

/// The message in a callback that reports an error: the description, if there is one,
/// and otherwise the error.
pub open spec fn described_error(q: Map<Seq<char>, Seq<char>>) -> Seq<char> {
    if q.contains_key("error_description"@) {
        q["error_description"@]
    } else {
        q["error"@]
    }
}

/// A callback that reports an error ends the sign-in, whatever else it brings: the
/// browser is shown the description, or else the error, and the outcome says which leg
/// failed.
pub proof fn law_reported_errors(server: ServerView, bytes: Seq<u8>, q: Map<Seq<char>, Seq<char>>)
    requires
        server.phase is Listening,
        q.contains_key("error"@),
    ensures
        callback_query(bytes, "/signin/callback"@) == Some(q) ==> sso_step(
            server,
            EventView::Request(bytes),
        ) == (
            ServerView { phase: PhaseView::Stopped, ..server },
            ActionView::Stop {
                reply: Some(page_response(error_body(described_error(q)))),
                outcome: Some(Err("Kiro 门户登录失败: "@ + described_error(q))),
            },
        ),
        callback_query(bytes, "/oauth/callback"@) == Some(q) ==> sso_step(
            server,
            EventView::Request(bytes),
        ) == (
            ServerView { phase: PhaseView::Stopped, ..server },
            ActionView::Stop {
                reply: Some(page_response(error_body(described_error(q)))),
                outcome: Some(Err("IdP 登录失败: "@ + described_error(q))),
            },
        ),
{
    lemma_callbacks_differ();
}

/// Whether a sign-in callback brings the state of the sign-in, or none.
pub open spec fn state_fits(server: ServerView, q: Map<Seq<char>, Seq<char>>) -> bool {
    ||| !q.contains_key("state"@)
    ||| q["state"@].len() == 0
    ||| q["state"@] == server.params.state
}

/// Whether a sign-in callback brings the code of a social account.
pub open spec fn brings_social_code(q: Map<Seq<char>, Seq<char>>) -> bool {
    &&& q.contains_key("code"@) && q["code"@].len() > 0
    &&& !(q.contains_key("login_option"@) && q["login_option"@] == "external_idp"@)
}

/// A state that does not fit is answered with a page that says so, and reported in the
/// same words.
pub proof fn law_answer_to_a_wrong_state(
    server: ServerView,
    bytes: Seq<u8>,
    q: Map<Seq<char>, Seq<char>>,
)
    requires
        server.phase is Listening,
        callback_query(bytes, "/signin/callback"@) == Some(q),
        !q.contains_key("error"@),
        !state_fits(server, q),
    ensures
        sso_step(server, EventView::Request(bytes)) == (
            ServerView { phase: PhaseView::Stopped, ..server },
            ActionView::Stop {
                reply: Some(page_response(error_body("OAuth state 不匹配"@))),
                outcome: Some(Err("OAuth state 不匹配"@)),
            },
        ),
{
}

/// The code of a social account is exchanged at the portal as it came, with the secret of
/// the first leg and under the address that the portal sent the browser to, the login
/// option included. The browser is told of success, and the second leg is left alone.
pub proof fn law_social_code_is_exchanged(
    server: ServerView,
    bytes: Seq<u8>,
    q: Map<Seq<char>, Seq<char>>,
)
    requires
        server.phase is Listening,
        callback_query(bytes, "/signin/callback"@) == Some(q),
        !q.contains_key("error"@),
        state_fits(server, q),
        brings_social_code(q),
    ensures
        ({
            let (next, action) = sso_step(server, EventView::Request(bytes));
            &&& next == ServerView { phase: PhaseView::ExchangingSocial, ..server }
            &&& action matches ActionView::ExchangeSocial { reply, exchange }
            &&& reply == page_response(SUCCESS_BODY@)
            &&& exchange.auth_endpoint == server.params.auth_endpoint
            &&& exchange.code == q["code"@]
            &&& exchange.code_verifier == server.params.code_verifier
            &&& q.contains_key("login_option"@) && q["login_option"@].len() > 0
                ==> exchange.redirect_uri == server.params.redirect_uri + "/signin/callback"@
                + "?login_option="@ + url_encoded(q["login_option"@])
            &&& !q.contains_key("login_option"@) || q["login_option"@].len() == 0
                ==> exchange.redirect_uri == server.params.redirect_uri + "/signin/callback"@
        }),
{
    reveal_strlit("external_idp");
}

/// A sign-in callback with neither a social code nor the issuer and the client of an
/// identity provider is a bad request, and changes nothing.
pub proof fn law_incomplete_descriptions(
    server: ServerView,
    bytes: Seq<u8>,
    q: Map<Seq<char>, Seq<char>>,
)
    requires
        server.phase is Listening,
        callback_query(bytes, "/signin/callback"@) == Some(q),
        !q.contains_key("error"@),
        state_fits(server, q),
        !brings_social_code(q),
        !q.contains_key("issuer_url"@) || q["issuer_url"@].len() == 0 || !q.contains_key(
            "client_id"@,
        ) || q["client_id"@].len() == 0,
    ensures
        sso_step(server, EventView::Request(bytes)) == (
            server,
            ActionView::Wait {
                reply: Some("HTTP/1.1 400 Bad Request\r\nContent-Length: 0\r\n\r\n"@),
            },
        ),
{
}

/// Where the portal describes an identity provider that is trusted, its discovery
/// document is asked for, and the description is kept: issuer and client as they came,
/// and the scopes as they came or the usual four.
pub proof fn law_described_provider_is_discovered(
    server: ServerView,
    bytes: Seq<u8>,
    q: Map<Seq<char>, Seq<char>>,
    base: Seq<char>,
    slashes: nat,
)
    requires
        server.phase is Listening,
        callback_query(bytes, "/signin/callback"@) == Some(q),
        !q.contains_key("error"@),
        state_fits(server, q),
        !brings_social_code(q),
        q.contains_key("issuer_url"@) && q["issuer_url"@].len() > 0,
        q.contains_key("client_id"@) && q["client_id"@].len() > 0,
        q["issuer_url"@] == base + run_of('/', slashes),
        base.len() > 0 ==> base.last() != '/',
        url_trusted(q["issuer_url"@]),
    ensures
        ({
            let (next, action) = sso_step(server, EventView::Request(bytes));
            &&& next.params == server.params
            &&& next.leg2 == server.leg2
            &&& next.phase matches PhaseView::Discovering(idp)
            &&& idp.issuer_url == q["issuer_url"@]
            &&& idp.client_id == q["client_id"@]
            &&& q.contains_key("scopes"@) ==> idp.scopes == q["scopes"@]
            &&& !q.contains_key("scopes"@) ==> idp.scopes
                == "openid profile email offline_access"@
            &&& action == (ActionView::Discover {
                request: HttpRequestView {
                    method: HttpMethod::Get,
                    url: base + "/.well-known/openid-configuration"@,
                    headers: seq![("Accept"@, "application/json"@)],
                    form: Seq::empty(),
                    timeout_secs: 15,
                    follow_redirects: false,
                },
            })
        }),
{
    law_discovery_request(base, slashes);
}

/// Where the portal describes an identity provider that is not trusted, the sign-in ends
/// with the verdict, shown and reported in the same words.
pub proof fn law_untrusted_provider_is_refused(
    server: ServerView,
    bytes: Seq<u8>,
    q: Map<Seq<char>, Seq<char>>,
    e: SsoErrorView,
)
    requires
        server.phase is Listening,
        callback_query(bytes, "/signin/callback"@) == Some(q),
        !q.contains_key("error"@),
        state_fits(server, q),
        !brings_social_code(q),
        q.contains_key("issuer_url"@) && q["issuer_url"@].len() > 0,
        q.contains_key("client_id"@) && q["client_id"@].len() > 0,
        url_verdict(q["issuer_url"@], "issuer_url"@) == Err::<(), SsoErrorView>(e),
    ensures
        sso_step(server, EventView::Request(bytes)) == (
            ServerView { phase: PhaseView::Stopped, ..server },
            ActionView::Stop {
                reply: Some(page_response(error_body("OIDC discovery 失败: "@ + e.message()))),
                outcome: Some(Err("OIDC discovery 失败: "@ + e.message())),
            },
        ),
{
}

/// A discovery document of the issuer that was asked for, with a trusted token endpoint,
/// is taken as it is: a proof key is made, and both endpoints and the description of the
/// provider are kept.
pub proof fn law_discovered_endpoints_are_kept(
    server: ServerView,
    idp: DescriptorView,
    doc: OidcDiscoveryView,
    base: Seq<char>,
    slashes: nat,
    more_slashes: nat,
)
    requires
        server.phase == PhaseView::Discovering(idp),
        base.len() > 0 ==> base.last() != '/',
        idp.issuer_url == base + run_of('/', slashes),
        doc.issuer == base + run_of('/', more_slashes),
        url_trusted(doc.token_endpoint),
    ensures
        sso_step(server, EventView::Discovery(DiscoveryReplyView::Document(doc))) == (
            ServerView {
                phase: PhaseView::Challenging {
                    idp,
                    authorization_endpoint: doc.authorization_endpoint,
                    token_endpoint: doc.token_endpoint,
                },
                ..server
            },
            ActionView::GeneratePkce,
        ),
{
    law_discovery_documents(base, slashes, base, more_slashes, doc);
}

/// A discovery that fails ends the sign-in, and its message is shown and reported in the
/// same words: what went wrong with the request, the status and the body of a refusal,
/// the two issuers that differ, or the verdict on the token endpoint.
pub proof fn law_failed_discoveries(
    server: ServerView,
    idp: DescriptorView,
    reply: DiscoveryReplyView,
    asked: Seq<char>,
    slashes: nat,
    named: Seq<char>,
    more_slashes: nat,
    e: SsoErrorView,
)
    requires
        server.phase == PhaseView::Discovering(idp),
        asked.len() > 0 ==> asked.last() != '/',
        named.len() > 0 ==> named.last() != '/',
        idp.issuer_url == asked + run_of('/', slashes),
        match reply {
            DiscoveryReplyView::Failed(detail) => e == (SsoErrorView::RequestFailed { detail }),
            DiscoveryReplyView::Refused { status, body } => e == (SsoErrorView::DiscoveryRefused {
                status,
                body,
            }),
            DiscoveryReplyView::Document(doc) => {
                &&& doc.issuer == named + run_of('/', more_slashes)
                &&& if asked != named {
                    e == (SsoErrorView::IssuerMismatch { expected: asked, actual: named })
                } else {
                    url_verdict(doc.token_endpoint, "token_endpoint"@) == Err::<(), SsoErrorView>(e)
                }
            },
        },
    ensures
        sso_step(server, EventView::Discovery(reply)) == (
            ServerView { phase: PhaseView::Stopped, ..server },
            ActionView::Stop {
                reply: Some(page_response(error_body("OIDC discovery 失败: "@ + e.message()))),
                outcome: Some(Err("OIDC discovery 失败: "@ + e.message())),
            },
        ),
{
    if let DiscoveryReplyView::Document(doc) = reply {
        law_discovery_documents(asked, slashes, named, more_slashes, doc);
    }
}

/// A proof key sends the browser to the authorization endpoint, with the client and the
/// scopes that were described, the address of this server, the state of the sign-in
/// marked as the second leg, and the challenge. For the exchange are kept the token
/// endpoint, the description of the provider and the secret of the key.
pub proof fn law_browser_is_sent_on(
    server: ServerView,
    idp: DescriptorView,
    authorization_endpoint: Seq<char>,
    token_endpoint: Seq<char>,
    verifier: Seq<char>,
    challenge: Seq<char>,
)
    requires
        server.phase == (PhaseView::Challenging { idp, authorization_endpoint, token_endpoint }),
    ensures
        ({
            let (next, action) = sso_step(server, EventView::Pkce { verifier, challenge });
            &&& next.params == server.params
            &&& next.phase is Listening
            &&& next.leg2 matches Some(leg2)
            &&& leg2.token_endpoint == token_endpoint
            &&& leg2.issuer_url == idp.issuer_url
            &&& leg2.scopes == idp.scopes
            &&& leg2.client_id == idp.client_id
            &&& leg2.code_verifier == verifier
            &&& leg2.state == server.params.state + "-leg2"@
            &&& action == (ActionView::Wait {
                reply: Some(
                    "HTTP/1.1 302 Found\r\nLocation: "@ + authorize_url(
                        authorization_endpoint,
                        idp.client_id,
                        server.params.redirect_uri,
                        server.params.state + "-leg2"@,
                        challenge,
                        idp.scopes,
                    ) + "\r\nContent-Length: 0\r\nConnection: close\r\n\r\n"@,
                ),
            })
        }),
{
}

/// A code that the identity provider sends back is exchanged as it came, at the token
/// endpoint and with what was kept for the second leg, under the address of this server.
/// The browser is told of success.
pub proof fn law_second_code_is_exchanged(
    server: ServerView,
    bytes: Seq<u8>,
    q: Map<Seq<char>, Seq<char>>,
    leg2: Leg2View,
)
    requires
        server.phase is Listening,
        server.leg2 == Some(leg2),
        callback_query(bytes, "/oauth/callback"@) == Some(q),
        !q.contains_key("error"@),
        q.contains_key("code"@) && q["code"@].len() > 0,
    ensures
        ({
            let (next, action) = sso_step(server, EventView::Request(bytes));
            &&& next.params == server.params
            &&& next.leg2 is None
            &&& next.phase == PhaseView::ExchangingIdp(leg2)
            &&& action matches ActionView::ExchangeIdp { reply, exchange }
            &&& reply == page_response(SUCCESS_BODY@)
            &&& exchange.token_endpoint == leg2.token_endpoint
            &&& exchange.client_id == leg2.client_id
            &&& exchange.code == q["code"@]
            &&& exchange.code_verifier == leg2.code_verifier
            &&& exchange.redirect_uri == server.params.redirect_uri
            &&& exchange.scopes == leg2.scopes
        }),
{
    lemma_callbacks_differ();
}

/// A second callback without a code is a bad request and changes nothing. One with a code
/// that nothing was kept for ends the sign-in without an outcome.
pub proof fn law_stray_second_callbacks(
    server: ServerView,
    bytes: Seq<u8>,
    q: Map<Seq<char>, Seq<char>>,
)
    requires
        server.phase is Listening,
        callback_query(bytes, "/oauth/callback"@) == Some(q),
        !q.contains_key("error"@),
    ensures
        !q.contains_key("code"@) || q["code"@].len() == 0 ==> sso_step(
            server,
            EventView::Request(bytes),
        ) == (
            server,
            ActionView::Wait {
                reply: Some("HTTP/1.1 400 Bad Request\r\nContent-Length: 0\r\n\r\n"@),
            },
        ),
        q.contains_key("code"@) && q["code"@].len() > 0 && server.leg2 is None ==> sso_step(
            server,
            EventView::Request(bytes),
        ) == (
            ServerView { phase: PhaseView::Stopped, ..server },
            ActionView::Stop { reply: Some(page_response(SUCCESS_BODY@)), outcome: None },
        ),
{
    lemma_callbacks_differ();
}

/// A request for anything else, and one that is no `GET`, is answered with status 404.
pub proof fn law_answer_to_other_requests(server: ServerView, bytes: Seq<u8>)
    requires
        server.phase is Listening,
        bytes.len() > 0,
        get_target(lossy_text(bytes)) matches Some(target) ==> target_path(target)
            != "/signin/callback"@ && target_path(target) != "/oauth/callback"@,
    ensures
        sso_step(server, EventView::Request(bytes)) == (
            server,
            ActionView::Wait {
                reply: Some("HTTP/1.1 404 Not Found\r\nContent-Length: 0\r\n\r\n"@),
            },
        ),
{
}

/// The token of the portal is the result of a social sign-in, in every field; where there
/// is none, the reason is reported.
pub proof fn law_social_outcomes(server: ServerView, token: SocialTokenView, detail: Seq<char>)
    requires
        server.phase is ExchangingSocial,
    ensures
        ({
            let (next, action) = sso_step(server, EventView::Social(Ok(token)));
            &&& next == ServerView { phase: PhaseView::Stopped, ..server }
            &&& action matches ActionView::Stop { reply: None, outcome: Some(Ok(result)) }
            &&& result.auth_method == "social"@
            &&& result.access_token == token.access_token
            &&& result.refresh_token == token.refresh_token
            &&& result.expires_in == token.expires_in
            &&& result.email is None
            &&& result.token_endpoint is None
            &&& result.issuer_url is None
            &&& result.scopes is None
            &&& result.client_id is None
        }),
        sso_step(server, EventView::Social(Err(detail))) == (
            ServerView { phase: PhaseView::Stopped, ..server },
            ActionView::Stop {
                reply: None,
                outcome: Some(Err("Kiro 社交 token 换取失败: "@ + detail)),
            },
        ),
{
}

/// The token of the identity provider is the result of an enterprise sign-in: access
/// token, refresh token and lifetime as they are, the address in the access token, and
/// what was kept for the second leg, so that the token can be refreshed later. Where
/// there is no token, the reason is reported.
pub proof fn law_enterprise_outcomes(
    server: ServerView,
    leg2: Leg2View,
    token: ExternalIdpTokenResponseView,
    detail: Seq<char>,
)
    requires
        server.phase == PhaseView::ExchangingIdp(leg2),
    ensures
        ({
            let (next, action) = sso_step(server, EventView::Idp(Ok(token)));
            &&& next == ServerView { phase: PhaseView::Stopped, ..server }
            &&& action matches ActionView::Stop { reply: None, outcome: Some(Ok(result)) }
            &&& result.auth_method == "external_idp"@
            &&& result.access_token == token.access_token
            &&& result.refresh_token == token.refresh_token
            &&& result.expires_in == token.expires_in
            &&& result.email == jwt_email(token.access_token)
            &&& result.token_endpoint == Some(leg2.token_endpoint)
            &&& result.issuer_url == Some(leg2.issuer_url)
            &&& result.scopes == Some(leg2.scopes)
            &&& result.client_id == Some(leg2.client_id)
        }),
        sso_step(server, EventView::Idp(Err(detail))) == (
            ServerView { phase: PhaseView::Stopped, ..server },
            ActionView::Stop {
                reply: None,
                outcome: Some(Err("External IdP token 换取失败: "@ + detail)),
            },
        ),
{
}

/// A callback reads back: the query behind the path of a `GET` in UTF-8 is what the
/// server sees of it.
pub proof fn law_callback_reads_back(
    path: Seq<char>,
    query: Seq<char>,
    rest: Seq<char>,
    bytes: Seq<u8>,
)
    requires
        !path.contains('?'),
        !path.contains('\n'),
        !query.contains('\n'),
        ends_line(rest),
        bytes == encode_utf8("GET "@ + (path + seq!['?'] + query) + " HTTP/1.1"@ + rest),
    ensures
        callback_query(bytes, path) == Some(query_map(query)),
{
    reveal_strlit("GET ");
    let target = path + seq!['?'] + query;
    let text = "GET "@ + target + " HTTP/1.1"@ + rest;
    assert(!target.contains('\n')) by {
        if target.contains('\n') {
            let j = choose|j: int| 0 <= j < target.len() && target[j] == '\n';
            if j < path.len() {
                assert(path.contains(path[j]));
            } else if j > path.len() {
                assert(target[j] == query[j - path.len() - 1]);
                assert(query.contains(query[j - path.len() - 1]));
            }
        }
    }
    law_request_line_reads_back(target, rest);
    law_up_to(path, '?', query);
    assert(target.skip(path.len() as int + 1) =~= query);
    encode_utf8_valid_utf8(text);
    encode_utf8_decode_utf8(text);
    if bytes.len() == 0 {
        assert(decode_utf8(bytes).len() == 0);
    }
}

} // verus!
