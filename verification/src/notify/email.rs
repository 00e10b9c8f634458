//! Mail: how a server is reached, and as whom.

use vstd::prelude::*;

use crate::notify;
use crate::notify::{auth_user, EmailMsg, SmtpConfig};
use crate::text;

verus! {

/// How a connection to a mail server is protected.
#[derive(Clone, Copy, Debug, PartialEq, Eq, Structural)]
pub enum Security {
    /// Not at all.
    Plain,
    /// After a plain greeting.
    StartTls,
    /// From the first byte.
    Tls,
}

/// The protection that a word names.
pub open spec fn protection(word: Seq<char>) -> Security {
    if word == "none"@ {
        Security::Plain
    } else if word == "starttls"@ {
        Security::StartTls
    } else {
        Security::Tls
    }
}

/// The protection that a configuration names; what is not known means the strongest.
pub fn security(cfg: &SmtpConfig) -> (r: Security)
    ensures
        r == protection(cfg.security@),
{
    if text::same(cfg.security.as_str(), "none") {
        Security::Plain
    } else if text::same(cfg.security.as_str(), "starttls") {
        Security::StartTls
    } else {
        Security::Tls
    }
}

/// A mail sender. The password is kept apart from the stored configuration.
#[derive(Clone, Debug)]
pub struct SmtpTransport {
    pub password: Option<String>,
}

/// `r` is the account and password that mail is sent with.
pub open spec fn are_credentials(
    t: SmtpTransport,
    cfg: SmtpConfig,
    msg: EmailMsg,
    r: Option<(String, String)>,
) -> bool {
    &&& r is Some <==> t.password is Some
    &&& r matches Some(c) ==> c.0@ == notify::text_or(cfg.username, msg.from@) && c.1@
        == t.password->0@
}

impl SmtpTransport {
    pub fn new(password: Option<String>) -> (r: Self)
        ensures
            r.password == password,
    {
        SmtpTransport { password }
    }

    /// The account and password that mail is sent with, where there is a password: the configured
    /// user, or else the sender's address.
    pub fn credentials(&self, cfg: &SmtpConfig, msg: &EmailMsg) -> (r: Option<(String, String)>)
        ensures
            are_credentials(*self, *cfg, *msg, r),
    {
        match &self.password {
            Some(p) => Some(
                (auth_user(&cfg.username, msg.from.as_str()), text::own(p.as_str())),
            ),
            None => None,
        }
    }
}

/// A connection is left plain only where the configuration says so in as many words; a word that is
/// not known means protection from the first byte.
pub proof fn law_protection_is_given_up_by_name(word: Seq<char>)
    ensures
        protection(word) == Security::Plain <==> word == "none"@,
        protection(word) == Security::StartTls <==> word == "starttls"@,
        word != "none"@ && word != "starttls"@ ==> protection(word) == Security::Tls,
{
    reveal_strlit("none");
    reveal_strlit("starttls");
    assert("none"@[0] == 'n');
    assert("starttls"@[0] == 's');
}

/// Mail is sent with the password that the sender holds, as the configured user or, where none is,
/// as the address that it comes from; without a password it is sent as nobody.
pub proof fn law_who_sends_mail(
    t: SmtpTransport,
    cfg: SmtpConfig,
    msg: EmailMsg,
    r: Option<(String, String)>,
)
    requires
        are_credentials(t, cfg, msg, r),
    ensures
        t.password is None ==> r is None,
        t.password matches Some(p) ==> r is Some && (r->0).1@ == p@,
        t.password is Some && cfg.username is Some ==> (r->0).0@ == (cfg.username->0)@,
        t.password is Some && cfg.username is None ==> (r->0).0@ == msg.from@,
{
}

} // verus!
