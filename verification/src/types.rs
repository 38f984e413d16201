//! What the portal and the identity provider hand over.

use crate::text::opt_view;
use vstd::prelude::*;

verus! {

/// The result of a sign-in.
#[derive(Debug, Clone)]
pub struct KiroSsoResult {
    pub auth_method: String,
    pub access_token: String,
    pub refresh_token: Option<String>,
    pub expires_in: Option<i64>,
    pub email: Option<String>,
    /// Where the token can be refreshed, for an external identity provider.
    pub token_endpoint: Option<String>,
    pub issuer_url: Option<String>,
    pub scopes: Option<String>,
    pub client_id: Option<String>,
}

/// The result of a sign-in, with its texts as sequences of characters.
pub struct KiroSsoResultView {
    pub auth_method: Seq<char>,
    pub access_token: Seq<char>,
    pub refresh_token: Option<Seq<char>>,
    pub expires_in: Option<i64>,
    pub email: Option<Seq<char>>,
    pub token_endpoint: Option<Seq<char>>,
    pub issuer_url: Option<Seq<char>>,
    pub scopes: Option<Seq<char>>,
    pub client_id: Option<Seq<char>>,
}

impl View for KiroSsoResult {
    type V = KiroSsoResultView;

    open spec fn view(&self) -> KiroSsoResultView {
        KiroSsoResultView {
            auth_method: self.auth_method@,
            access_token: self.access_token@,
            refresh_token: opt_view(self.refresh_token),
            expires_in: self.expires_in,
            email: opt_view(self.email),
            token_endpoint: opt_view(self.token_endpoint),
            issuer_url: opt_view(self.issuer_url),
            scopes: opt_view(self.scopes),
            client_id: opt_view(self.client_id),
        }
    }
}

/// The part of an OpenID Connect discovery document that the sign-in needs.
#[derive(Debug)]
pub struct OidcDiscovery {
    pub authorization_endpoint: String,
    pub token_endpoint: String,
    pub issuer: String,
}

/// A discovery document, with its texts as sequences of characters.
pub struct OidcDiscoveryView {
    pub authorization_endpoint: Seq<char>,
    pub token_endpoint: Seq<char>,
    pub issuer: Seq<char>,
}

impl View for OidcDiscovery {
    type V = OidcDiscoveryView;

    open spec fn view(&self) -> OidcDiscoveryView {
        OidcDiscoveryView {
            authorization_endpoint: self.authorization_endpoint@,
            token_endpoint: self.token_endpoint@,
            issuer: self.issuer@,
        }
    }
}

/// The token that an external identity provider hands out.
#[derive(Debug)]
pub struct ExternalIdpTokenResponse {
    pub access_token: String,
    pub refresh_token: Option<String>,
    pub expires_in: Option<i64>,
    pub token_type: Option<String>,
    pub scope: Option<String>,
}

/// A token of an external identity provider, with its texts as sequences of characters.
pub struct ExternalIdpTokenResponseView {
    pub access_token: Seq<char>,
    pub refresh_token: Option<Seq<char>>,
    pub expires_in: Option<i64>,
    pub token_type: Option<Seq<char>>,
    pub scope: Option<Seq<char>>,
}

impl View for ExternalIdpTokenResponse {
    type V = ExternalIdpTokenResponseView;

    open spec fn view(&self) -> ExternalIdpTokenResponseView {
        ExternalIdpTokenResponseView {
            access_token: self.access_token@,
            refresh_token: opt_view(self.refresh_token),
            expires_in: self.expires_in,
            token_type: opt_view(self.token_type),
            scope: opt_view(self.scope),
        }
    }
}

/// The token that the portal hands out for a social account.
#[derive(Debug)]
pub struct SocialToken {
    pub access_token: String,
    pub refresh_token: Option<String>,
    pub expires_in: Option<i64>,
}

/// A token of the portal, with its texts as sequences of characters.
pub struct SocialTokenView {
    pub access_token: Seq<char>,
    pub refresh_token: Option<Seq<char>>,
    pub expires_in: Option<i64>,
}

impl View for SocialToken {
    type V = SocialTokenView;

    open spec fn view(&self) -> SocialTokenView {
        SocialTokenView {
            access_token: self.access_token@,
            refresh_token: opt_view(self.refresh_token),
            expires_in: self.expires_in,
        }
    }
}

/// What is said of a result is said of all of it: nothing is left out of its view.
pub proof fn law_result_view(result: KiroSsoResult)
    ensures
        result@.auth_method == result.auth_method@,
        result@.access_token == result.access_token@,
        result.refresh_token matches Some(text) ==> result@.refresh_token == Some(text@),
        result.refresh_token is None ==> result@.refresh_token is None,
        result@.expires_in == result.expires_in,
        result.email matches Some(text) ==> result@.email == Some(text@),
        result.email is None ==> result@.email is None,
        result.token_endpoint matches Some(text) ==> result@.token_endpoint == Some(text@),
        result.token_endpoint is None ==> result@.token_endpoint is None,
        result.issuer_url matches Some(text) ==> result@.issuer_url == Some(text@),
        result.issuer_url is None ==> result@.issuer_url is None,
        result.scopes matches Some(text) ==> result@.scopes == Some(text@),
        result.scopes is None ==> result@.scopes is None,
        result.client_id matches Some(text) ==> result@.client_id == Some(text@),
        result.client_id is None ==> result@.client_id is None,
{
}

/// What is said of a token or a discovery document is said of all of it: nothing is left
/// out of its view.
pub proof fn law_token_views(
    token: ExternalIdpTokenResponse,
    social: SocialToken,
    doc: OidcDiscovery,
)
    ensures
        token@.access_token == token.access_token@,
        token.refresh_token matches Some(text) ==> token@.refresh_token == Some(text@),
        token.refresh_token is None ==> token@.refresh_token is None,
        token@.expires_in == token.expires_in,
        token.token_type matches Some(text) ==> token@.token_type == Some(text@),
        token.token_type is None ==> token@.token_type is None,
        token.scope matches Some(text) ==> token@.scope == Some(text@),
        token.scope is None ==> token@.scope is None,
        social@.access_token == social.access_token@,
        social.refresh_token matches Some(text) ==> social@.refresh_token == Some(text@),
        social.refresh_token is None ==> social@.refresh_token is None,
        social@.expires_in == social.expires_in,
        doc@.authorization_endpoint == doc.authorization_endpoint@,
        doc@.token_endpoint == doc.token_endpoint@,
        doc@.issuer == doc.issuer@,
{
}

} // verus!
