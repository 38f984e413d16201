//! What can go wrong on the way to a token.

use crate::allowlist::{allowed_issuer_suffixes, allowed_suffixes};
use crate::text::{join3, join_all, joined, law_joined};
use vstd::prelude::*;

verus! {

/// A step of the sign-in that failed.
#[derive(Debug, PartialEq, Eq)]
pub enum SsoError {
    /// The host of the URL in `field` is an IP address.
    IpAddress { field: String },
    /// The host of the URL in `field` is under none of the allowed domains.
    NotAllowlisted { field: String },
    /// The identity provider refused its discovery document.
    DiscoveryRefused { status: String, body: String },
    /// The discovery document names another issuer.
    IssuerMismatch { expected: String, actual: String },
    /// The identity provider refused to exchange an authorization code.
    CodeRefused { status: String, body: String },
    /// The reply to the exchange of an authorization code cannot be read.
    CodeReplyUnreadable { detail: String },
    /// The identity provider refused to refresh a token.
    RefreshRefused { status: String, body: String },
    /// The reply to a refresh cannot be read.
    RefreshReplyUnreadable { detail: String },
    /// The request itself failed, for the given reason.
    RequestFailed { detail: String },
}

/// A failed step, with its texts as sequences of characters.
pub enum SsoErrorView {
    IpAddress { field: Seq<char> },
    NotAllowlisted { field: Seq<char> },
    DiscoveryRefused { status: Seq<char>, body: Seq<char> },
    IssuerMismatch { expected: Seq<char>, actual: Seq<char> },
    CodeRefused { status: Seq<char>, body: Seq<char> },
    CodeReplyUnreadable { detail: Seq<char> },
    RefreshRefused { status: Seq<char>, body: Seq<char> },
    RefreshReplyUnreadable { detail: Seq<char> },
    RequestFailed { detail: Seq<char> },
}

impl View for SsoError {
    type V = SsoErrorView;

    open spec fn view(&self) -> SsoErrorView {
        match *self {
            SsoError::IpAddress { field } => SsoErrorView::IpAddress { field: field@ },
            SsoError::NotAllowlisted { field } => SsoErrorView::NotAllowlisted { field: field@ },
            SsoError::DiscoveryRefused { status, body } => SsoErrorView::DiscoveryRefused {
                status: status@,
                body: body@,
            },
            SsoError::IssuerMismatch { expected, actual } => SsoErrorView::IssuerMismatch {
                expected: expected@,
                actual: actual@,
            },
            SsoError::CodeRefused { status, body } => SsoErrorView::CodeRefused {
                status: status@,
                body: body@,
            },
            SsoError::CodeReplyUnreadable { detail } => SsoErrorView::CodeReplyUnreadable {
                detail: detail@,
            },
            SsoError::RefreshRefused { status, body } => SsoErrorView::RefreshRefused {
                status: status@,
                body: body@,
            },
            SsoError::RefreshReplyUnreadable { detail } => SsoErrorView::RefreshReplyUnreadable {
                detail: detail@,
            },
            SsoError::RequestFailed { detail } => SsoErrorView::RequestFailed { detail: detail@ },
        }
    }
}

impl SsoErrorView {
    /// The message that is shown for the failure.
    pub open spec fn message(self) -> Seq<char> {
        match self {
            SsoErrorView::IpAddress { field } => "External IdP "@ + field
                + " 不允许使用 IP 地址"@,
            SsoErrorView::NotAllowlisted { field } => "External IdP "@ + field
                + " 域名不在白名单（允许: "@ + joined(allowed_suffixes(), ", "@) + "）"@,
            SsoErrorView::DiscoveryRefused { status, body } => "OIDC discovery 失败 "@ + status
                + ": "@ + body,
            SsoErrorView::IssuerMismatch { expected, actual } =>
                "OIDC issuer 不匹配：期望 "@ + expected + ", 实际 "@ + actual,
            SsoErrorView::CodeRefused { status, body } => "External IdP code 换 token 失败 "@
                + status + ": "@ + body,
            SsoErrorView::CodeReplyUnreadable { detail } =>
                "解析 external IdP token 响应失败: "@ + detail,
            SsoErrorView::RefreshRefused { status, body } => "External IdP refresh 失败 "@
                + status + ": "@ + body,
            SsoErrorView::RefreshReplyUnreadable { detail } =>
                "解析 external IdP refresh 响应失败: "@ + detail,
            SsoErrorView::RequestFailed { detail } => detail,
        }
    }
}

impl SsoError {
    /// The message that is shown for the failure.
    pub fn message(&self) -> (s: String)
        ensures
            s@ == self@.message(),
    {
        match self {
            SsoError::IpAddress { field } => join3(
                "External IdP ",
                field.as_str(),
                " 不允许使用 IP 地址",
            ),
            SsoError::NotAllowlisted { field } => {
                let mut s = join3(
                    "External IdP ",
                    field.as_str(),
                    " 域名不在白名单（允许: ",
                );
                s.append(join_all(&allowed_issuer_suffixes(), ", ").as_str());
                s.append("）");
                s
            },
            SsoError::DiscoveryRefused { status, body } => {
                let mut s = join3("OIDC discovery 失败 ", status.as_str(), ": ");
                s.append(body.as_str());
                s
            },
            SsoError::IssuerMismatch { expected, actual } => {
                let mut s = join3(
                    "OIDC issuer 不匹配：期望 ",
                    expected.as_str(),
                    ", 实际 ",
                );
                s.append(actual.as_str());
                s
            },
            SsoError::CodeRefused { status, body } => {
                let mut s = join3("External IdP code 换 token 失败 ", status.as_str(), ": ");
                s.append(body.as_str());
                s
            },
            SsoError::CodeReplyUnreadable { detail } => {
                let mut s = "解析 external IdP token 响应失败: ".to_owned();
                s.append(detail.as_str());
                s
            },
            SsoError::RefreshRefused { status, body } => {
                let mut s = join3("External IdP refresh 失败 ", status.as_str(), ": ");
                s.append(body.as_str());
                s
            },
            SsoError::RefreshReplyUnreadable { detail } => {
                let mut s = "解析 external IdP refresh 响应失败: ".to_owned();
                s.append(detail.as_str());
                s
            },
            SsoError::RequestFailed { detail } => detail.clone(),
        }
    }
}

/// The message of each failure, with every detail of it as it is.
pub proof fn law_messages(field: Seq<char>, status: Seq<char>, body: Seq<char>, detail: Seq<char>)
    ensures
        (SsoErrorView::IpAddress { field }).message() == "External IdP "@ + field
            + " 不允许使用 IP 地址"@,
        (SsoErrorView::NotAllowlisted { field }).message() == "External IdP "@ + field
            + " 域名不在白名单（允许: "@ + (".microsoftonline.com"@ + ", "@
            + ".microsoftonline.us"@ + ", "@ + ".microsoftonline.cn"@) + "）"@,
        (SsoErrorView::DiscoveryRefused { status, body }).message()
            == "OIDC discovery 失败 "@ + status + ": "@ + body,
        (SsoErrorView::CodeRefused { status, body }).message()
            == "External IdP code 换 token 失败 "@ + status + ": "@ + body,
        (SsoErrorView::RefreshRefused { status, body }).message()
            == "External IdP refresh 失败 "@ + status + ": "@ + body,
        (SsoErrorView::CodeReplyUnreadable { detail }).message()
            == "解析 external IdP token 响应失败: "@ + detail,
        (SsoErrorView::RefreshReplyUnreadable { detail }).message()
            == "解析 external IdP refresh 响应失败: "@ + detail,
        (SsoErrorView::RequestFailed { detail }).message() == detail,
{
    let (a, b, c) = (".microsoftonline.com"@, ".microsoftonline.us"@, ".microsoftonline.cn"@);
    law_joined(seq![a], b, ", "@);
    law_joined(seq![a, b], c, ", "@);
    assert(seq![a].push(b) =~= seq![a, b]);
    assert(seq![a, b].push(c) =~= allowed_suffixes());
}

/// The message for a document of another issuer names the issuer that was asked for and
/// the one that the document names, in that order.
pub proof fn law_mismatch_message(expected: Seq<char>, actual: Seq<char>)
    ensures
        (SsoErrorView::IssuerMismatch { expected, actual }).message()
            == "OIDC issuer 不匹配：期望 "@ + expected + ", 实际 "@ + actual,
{
}

} // verus!
