//! Requests about notification channels.

use vstd::prelude::*;

use crate::models::Ts;
use crate::notify::dispatch::EmailChannelConfig;
use crate::notify::{EmailMsg, NotifyMsg, SmtpConfig};
use crate::text;

verus! {

/// A notification channel.
#[derive(Clone, Debug)]
pub struct Channel {
    pub id: i64,
    pub name: String,
    pub kind: String,
    pub config: String,
    pub is_active: bool,
    pub created_at: i64,
}

/// A request to create a channel.
#[derive(Clone, Debug)]
pub struct CreateChannelDto {
    pub name: String,
    pub kind: String,
    pub config: String,
}

/// A request to change a channel: what is absent stays.
#[derive(Clone, Debug)]
pub struct UpdateChannelDto {
    pub name: Option<String>,
    pub config: Option<String>,
    pub is_active: Option<bool>,
}

/// `r` is a channel with a change applied.
pub open spec fn is_changed(r: Channel, existing: Channel, dto: UpdateChannelDto) -> bool {
    &&& r.id == existing.id
    &&& r.kind == existing.kind
    &&& r.created_at == existing.created_at
    &&& r.name == (match dto.name {
        Some(n) => n,
        None => existing.name,
    })
    &&& r.config == (match dto.config {
        Some(c) => c,
        None => existing.config,
    })
    &&& r.is_active == (match dto.is_active {
        Some(a) => a,
        None => existing.is_active,
    })
}

/// Applies a change to a channel. Its type is never changed.
pub fn update(existing: Channel, dto: UpdateChannelDto) -> (r: Channel)
    ensures
        is_changed(r, existing, dto),
{
    Channel {
        id: existing.id,
        name: match dto.name {
            Some(n) => n,
            None => existing.name,
        },
        kind: existing.kind,
        config: match dto.config {
            Some(c) => c,
            None => existing.config,
        },
        is_active: match dto.is_active {
            Some(a) => a,
            None => existing.is_active,
        },
        created_at: existing.created_at,
    }
}

/// `r` is the test message of an email channel, and the server that it goes to.
pub open spec fn is_test_email(r: (SmtpConfig, EmailMsg), config: EmailChannelConfig) -> bool {
    &&& r.0.host == config.host
    &&& r.0.port == config.port
    &&& r.0.security == config.security
    &&& r.0.username == config.username
    &&& r.1.to == config.to
    &&& r.1.from == config.from
    &&& r.1.subject@ == "Vigil test email"@
    &&& r.1.body_text@ == "This is a test from Vigil."@
    &&& r.1.body_html is None
}

/// The test message of an email channel, and the server that it goes to.
pub fn test_email(config: EmailChannelConfig) -> (r: (SmtpConfig, EmailMsg))
    ensures
        is_test_email(r, config),
{
    (
        SmtpConfig {
            host: config.host,
            port: config.port,
            security: config.security,
            username: config.username,
        },
        EmailMsg {
            to: config.to,
            from: config.from,
            subject: text::own("Vigil test email"),
            body_text: text::own("This is a test from Vigil."),
            body_html: None,
        },
    )
}

/// `r` is the message that tries a channel.
pub open spec fn is_trial(now: Ts, r: NotifyMsg) -> bool {
    &&& r.monitor_name@ == "Vigil test"@
    &&& r.url@.len() == 0
    &&& r.status@ == "test"@
    &&& r.status_code is None
    &&& r.error is None
    &&& r.response_time_ms is None
    &&& r.duration is None
    &&& r.ssl_days is None
    &&& r.domain_days is None
    &&& r.checked_at == now
    &&& r.incident_url is None
    &&& r.subject@ == "Vigil test notification"@
    &&& r.body@ == "This is a test from Vigil."@
    &&& r.body_html is None
}

/// The test message of any other channel.
pub fn test_message(now: Ts) -> (r: NotifyMsg)
    ensures
        is_trial(now, r),
{
    NotifyMsg {
        monitor_name: text::own("Vigil test"),
        url: String::new(),
        status: text::own("test"),
        status_code: None,
        error: None,
        response_time_ms: None,
        duration: None,
        ssl_days: None,
        domain_days: None,
        checked_at: now,
        incident_url: None,
        subject: text::own("Vigil test notification"),
        body: text::own("This is a test from Vigil."),
        body_html: None,
    }
}

/// A change takes effect on what it names and leaves the rest of a channel, its type above all.
pub proof fn law_channel_changes(r: Channel, existing: Channel, dto: UpdateChannelDto)
    requires
        is_changed(r, existing, dto),
    ensures
        dto.name matches Some(n) ==> r.name == n,
        dto.config matches Some(c) ==> r.config == c,
        dto.is_active matches Some(a) ==> r.is_active == a,
        dto.name is None ==> r.name == existing.name,
        dto.config is None ==> r.config == existing.config,
        dto.is_active is None ==> r.is_active == existing.is_active,
        r.id == existing.id && r.kind == existing.kind && r.created_at == existing.created_at,
{
}

/// A test mail goes the way of every mail of its channel.
pub proof fn law_test_mail_follows_its_channel(r: (SmtpConfig, EmailMsg), config: EmailChannelConfig)
    requires
        is_test_email(r, config),
    ensures
        r.0.host == config.host && r.0.port == config.port && r.0.security == config.security,
        r.0.username == config.username,
        r.1.to == config.to && r.1.from == config.from,
        r.1.body_html is None,
{
}

/// The message that tries a channel says that it is a test, tells its time and claims no figures.
pub proof fn law_trial_message_is_a_test(now: Ts, r: NotifyMsg)
    requires
        is_trial(now, r),
    ensures
        r.subject@ == "Vigil test notification"@ && r.body@ == "This is a test from Vigil."@,
        r.monitor_name@ == "Vigil test"@ && r.status@ == "test"@,
        r.checked_at == now,
        r.status_code is None && r.error is None && r.response_time_ms is None && r.duration is None
            && r.ssl_days is None && r.domain_days is None,
        r.url@.len() == 0 && r.incident_url is None && r.body_html is None,
{
}

} // verus!
