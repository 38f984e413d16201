//! Sign-in through the Kiro hosted portal, for social accounts and for
//! enterprise identity providers.

pub mod allowlist;
pub mod base64;
pub mod bind;
pub mod error;
pub mod idp;
pub mod jwt;
pub mod laws;
pub mod letter_case;
pub mod outside;
pub mod pages;
pub mod percent;
pub mod query;
pub mod request;
pub mod server;
pub mod text;
pub mod types;
