//! Notifications: the messages, what they say, who gets them, and the requests that carry them.

use vstd::prelude::*;

use crate::models::Ts;
use crate::text;

pub mod dispatch;
pub mod email;
pub mod http;
pub mod templates;

verus! {

/// An email to send.
#[derive(Clone, Debug)]
pub struct EmailMsg {
    pub to: Vec<String>,
    pub from: String,
    pub subject: String,
    pub body_text: String,
    pub body_html: Option<String>,
}

/// How to reach a mail server.
#[derive(Clone, Debug)]
pub struct SmtpConfig {
    pub host: String,
    pub port: u16,
    /// `none`, `starttls` or `tls`.
    pub security: String,
    pub username: Option<String>,
}

/// A rendered notification, whatever channel carries it: the text, and the values that a channel's
/// own template may use.
#[derive(Clone, Debug)]
pub struct NotifyMsg {
    pub monitor_name: String,
    pub url: String,
    pub status: String,
    pub status_code: Option<i64>,
    pub error: Option<String>,
    pub response_time_ms: Option<i64>,
    pub duration: Option<i64>,
    pub ssl_days: Option<i64>,
    pub domain_days: Option<i64>,
    pub checked_at: Ts,
    pub incident_url: Option<String>,
    pub subject: String,
    pub body: String,
    pub body_html: Option<String>,
}

/// What a certificate or domain alert says.
#[derive(Clone, Debug)]
pub struct AlertCtx {
    pub monitor_name: String,
    pub url: String,
    pub ssl_days: Option<i64>,
    pub domain_days: Option<i64>,
    pub error: Option<String>,
    pub checked_at: Ts,
}

/// What an up or down notification says.
#[derive(Clone, Debug)]
pub struct TemplateCtx {
    pub monitor_name: String,
    pub url: String,
    pub status: String,
    pub status_code: Option<i64>,
    pub error: Option<String>,
    pub response_time_ms: Option<i64>,
    pub duration: Option<i64>,
    pub checked_at: Ts,
}

/// A text, or another where there is none.
pub open spec fn text_or(o: Option<String>, other: Seq<char>) -> Seq<char> {
    match o {
        Some(s) => s@,
        None => other,
    }
}

/// A copy of a text, or of another where there is none.
pub fn own_or(o: &Option<String>, other: &str) -> (r: String)
    ensures
        r@ == text_or(*o, other@),
{
    match o {
        Some(s) => text::own(s.as_str()),
        None => text::own(other),
    }
}

/// A copy of an optional text.
pub fn own_opt(o: &Option<String>) -> (r: Option<String>)
    ensures
        text::view_opt(r) == text::view_opt(*o),
{
    match o {
        Some(s) => Some(text::own(s.as_str())),
        None => None,
    }
}

/// The account that mail is sent as: the configured user, or else the sender's address.
pub fn auth_user(username: &Option<String>, from: &str) -> (r: String)
    ensures
        r@ == text_or(*username, from@),
{
    own_or(username, from)
}

} // verus!
