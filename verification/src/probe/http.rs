//! The HTTP prober: the request that a monitor makes, and what the reply means.

use vstd::prelude::*;

use crate::json;
use crate::models::{Cause, Monitor, ProbeOutcome};
use crate::notify::own_opt;
use crate::notify::http;
use crate::notify::http::method_parses;
use crate::probe;
use crate::probe::failure;
use crate::status_codes;
use crate::text;

verus! {

// ---- secrets ----

/// Where the secret of a monitor stands.
#[derive(Clone, Debug)]
pub enum AuthSource {
    /// In an environment variable.
    Env(String),
    /// In the monitor itself.
    Inline(String),
    /// Nowhere.
    Missing,
}

/// Where an `auth_ref` says that the secret stands.
pub open spec fn is_source(s: AuthSource, auth_ref: Option<String>) -> bool {
    match auth_ref {
        None => s is Missing,
        Some(raw) => match text::after(raw@, "env:"@) {
            Some(var) => s matches AuthSource::Env(v) && v@ == var,
            None => match text::after(raw@, "inline:"@) {
                Some(val) => s matches AuthSource::Inline(v) && v@ == val,
                None => s is Missing,
            },
        },
    }
}

/// Reads where the secret of a monitor stands: `env:VAR` names a variable, `inline:x` is `x`
/// itself, and anything else is no secret.
pub fn auth_source(auth_ref: &Option<String>) -> (r: AuthSource)
    ensures
        is_source(r, *auth_ref),
{
    match auth_ref {
        None => AuthSource::Missing,
        Some(raw) => match text::strip_prefix(raw.as_str(), "env:") {
            Some(var) => AuthSource::Env(var),
            None => match text::strip_prefix(raw.as_str(), "inline:") {
                Some(val) => AuthSource::Inline(val),
                None => AuthSource::Missing,
            },
        },
    }
}

/// The secret of a monitor, where `environment` is what its variable holds.
pub open spec fn secret(auth_ref: Option<String>, environment: Option<String>) -> Option<Seq<char>> {
    match auth_ref {
        None => None,
        Some(raw) => match text::after(raw@, "env:"@) {
            Some(_) => text::view_opt(environment),
            None => text::after(raw@, "inline:"@),
        },
    }
}

/// Resolves the secret of a monitor, given what the variable that it names holds.
pub fn resolve_auth(auth_ref: &Option<String>, environment: &Option<String>) -> (r: Option<String>)
    ensures
        text::view_opt(r) == secret(*auth_ref, *environment),
{
    match auth_source(auth_ref) {
        AuthSource::Env(_) => own_opt(environment),
        AuthSource::Inline(v) => Some(v),
        AuthSource::Missing => None,
    }
}

/// How a request says who makes it.
#[derive(Clone, Debug)]
pub enum ProbeAuth {
    Anonymous,
    Basic(String, String),
    Bearer(String),
    Header(String, String),
}

/// The two parts of a secret round its first colon; all of it and nothing where it has none.
pub open spec fn parts(value: Seq<char>) -> (Seq<char>, Seq<char>) {
    match text::cut(value, ':') {
        Some(p) => p,
        None => (value, Seq::empty()),
    }
}

/// `a` is how a monitor of an authentication type says who asks.
pub open spec fn is_auth(a: ProbeAuth, auth_type: Option<String>, value: Option<Seq<char>>) -> bool {
    match (text::view_opt(auth_type), value) {
        (Some(t), Some(v)) => if t == "basic"@ {
            a matches ProbeAuth::Basic(user, pass) && (user@, pass@) == parts(v)
        } else if t == "bearer"@ {
            a matches ProbeAuth::Bearer(token) && token@ == v
        } else if t == "header"@ {
            match text::cut(v, ':') {
                Some(p) => a matches ProbeAuth::Header(n, x) && n@ == text::trimmed(p.0) && x@
                    == text::trimmed(p.1),
                None => a matches ProbeAuth::Header(n, x) && n@ == v && x@ == Seq::<char>::empty(),
            }
        } else {
            a is Anonymous
        },
        _ => a is Anonymous,
    }
}

fn authentication(auth_type: &Option<String>, value: Option<String>) -> (r: ProbeAuth)
    ensures
        is_auth(r, *auth_type, text::view_opt(value)),
{
    let (t, v) = match (auth_type, value) {
        (Some(t), Some(v)) => (t, v),
        _ => {
            return ProbeAuth::Anonymous;
        },
    };
    if text::same(t.as_str(), "basic") {
        match text::split_once(v.as_str(), ':') {
            Some((user, pass)) => ProbeAuth::Basic(user, pass),
            None => ProbeAuth::Basic(v, String::new()),
        }
    } else if text::same(t.as_str(), "bearer") {
        ProbeAuth::Bearer(v)
    } else if text::same(t.as_str(), "header") {
        match text::split_once(v.as_str(), ':') {
            Some((name, val)) => ProbeAuth::Header(
                text::trim(name.as_str()),
                text::trim(val.as_str()),
            ),
            None => ProbeAuth::Header(v, String::new()),
        }
    } else {
        ProbeAuth::Anonymous
    }
}

// ---- the request ----

/// A request to make for a probe.
#[derive(Clone, Debug)]
pub struct ProbeRequest {
    pub url: String,
    pub method: String,
    /// In no particular order; no name occurs twice.
    pub headers: Vec<(String, String)>,
    pub body: Option<String>,
    pub auth: ProbeAuth,
    pub timeout_seconds: i64,
    pub verify_ssl: bool,
    pub follow_redirects: bool,
}

/// The method of a request: the monitor's, or `GET` where that is no method.
pub open spec fn method_of(m: Monitor) -> Seq<char> {
    if http::is_method(m.method@) {
        m.method@
    } else {
        "GET"@
    }
}

/// The headers that a monitor configures, by name; none where the text is not a JSON object of
/// strings.
pub open spec fn headers_of(raw: Option<String>) -> Map<Seq<char>, Seq<char>> {
    match raw {
        Some(h) => match json::json_map(h@) {
            Some(map) => map,
            None => Map::empty(),
        },
        None => Map::empty(),
    }
}

/// `q` is the request of a monitor whose secret is known.
pub open spec fn is_request(q: ProbeRequest, m: Monitor, value: Option<Seq<char>>) -> bool {
    &&& text::view_opt(m.url) == Some(q.url@)
    &&& q.method@ == method_of(m)
    &&& json::lists(q.headers@, headers_of(m.headers))
    &&& text::view_opt(q.body) == text::view_opt(m.body)
    &&& is_auth(q.auth, m.auth_type, value)
    &&& q.timeout_seconds == m.timeout_seconds
    &&& q.verify_ssl == m.verify_ssl
    &&& q.follow_redirects == m.follow_redirects
}

/// `r` is the request of a monitor, or the outcome where it has no address.
pub open spec fn asks(m: Monitor, environment: Option<String>, r: Result<ProbeRequest, ProbeOutcome>) -> bool {
    &&& r is Ok <==> m.url is Some
    &&& r matches Ok(q) ==> is_request(q, m, secret(m.auth_ref, environment))
    &&& r matches Err(o) ==> probe::is_failure(
        o,
        None,
        "monitor has no url configured"@,
        Cause::Connection,
    ) && o.wf()
}

/// The request that a monitor makes, given what the variable of its secret holds; the outcome
/// where it has no address.
pub fn request(m: &Monitor, environment: &Option<String>) -> (r: Result<ProbeRequest, ProbeOutcome>)
    ensures
        asks(*m, *environment, r),
{
    let url = match &m.url {
        Some(u) => text::own(u.as_str()),
        None => {
            return Err(
                failure(None, text::own("monitor has no url configured"), Cause::Connection),
            );
        },
    };
    let method = if method_parses(m.method.as_str()) {
        text::own(m.method.as_str())
    } else {
        text::own("GET")
    };
    let none: Vec<(String, String)> = Vec::new();
    proof {
        json::lemma_lists_nothing(none@);
    }
    let headers = match &m.headers {
        Some(h) => match json::parse_map(h.as_str()) {
            Some(v) => v,
            None => none,
        },
        None => none,
    };
    let value = resolve_auth(&m.auth_ref, environment);
    Ok(
        ProbeRequest {
            url,
            method,
            headers,
            body: own_opt(&m.body),
            auth: authentication(&m.auth_type, value),
            timeout_seconds: m.timeout_seconds,
            verify_ssl: m.verify_ssl,
            follow_redirects: m.follow_redirects,
        },
    )
}

// ---- the reply ----

/// The cause of a failed request.
pub open spec fn send_cause(timed_out: bool, connecting: bool, message: Seq<char>) -> Cause {
    if timed_out {
        Cause::Timeout
    } else if !connecting && text::within(text::lower(message), "dns"@) {
        Cause::Dns
    } else {
        Cause::Connection
    }
}

/// Why a request failed: it timed out, did not connect, or, where its message speaks of DNS, did
/// not resolve.
pub fn classify_send_error(timed_out: bool, connecting: bool, message: &str) -> (r: Cause)
    ensures
        r == send_cause(timed_out, connecting, message@),
{
    if timed_out {
        return Cause::Timeout;
    }
    if connecting {
        return Cause::Connection;
    }
    let low = text::to_lower(message);
    if text::contains(low.as_str(), "dns") {
        Cause::Dns
    } else {
        Cause::Connection
    }
}

/// A monitor expects a status; an expectation that does not parse is never met.
pub open spec fn expects(m: Monitor, code: u16) -> bool {
    match status_codes::expected(m.expected_status_codes@) {
        Ok(ranges) => status_codes::accepted(ranges, code),
        Err(_) => false,
    }
}

/// The modes in which a keyword must not stand in a reply. In every other mode it must.
pub open spec fn forbids(mode: Option<String>) -> bool {
    mode matches Some(word) && (word@ == "absent"@ || word@ == "not_present"@ || word@
        == "not_contains"@)
}

/// Whether a keyword stands in a body; where case does not matter, ASCII letters are the same in
/// either case.
pub open spec fn stands_in(keyword: Seq<char>, body: Seq<char>, case_sensitive: bool) -> bool {
    if case_sensitive {
        text::within(body, keyword)
    } else {
        text::within(text::lower(body), text::lower(keyword))
    }
}

/// A body meets the keyword of a monitor: the keyword stands in it or, where the mode forbids it,
/// does not. Without a keyword every body does.
pub open spec fn keyword_met(m: Monitor, body: Seq<char>) -> bool {
    match m.keyword {
        None => true,
        Some(k) => stands_in(k@, body, m.keyword_case_sensitive) != forbids(m.keyword_mode),
    }
}

/// A monitor accepts a reply: it expects the status and, if it is a keyword monitor, the body meets
/// its keyword.
pub open spec fn accepts(m: Monitor, code: u16, body: Seq<char>) -> bool {
    expects(m, code) && (m.kind@ == "keyword"@ ==> keyword_met(m, body))
}

/// What a reply that is not accepted is told.
pub open spec fn complaint(m: Monitor, code: u16) -> Seq<char> {
    if !expects(m, code) {
        "unexpected status "@ + text::dec_nat(code as nat)
    } else if forbids(m.keyword_mode) {
        "keyword found"@
    } else {
        "keyword not found"@
    }
}

/// `o` reports a reply.
pub open spec fn is_reply(
    o: ProbeOutcome,
    m: Monitor,
    elapsed: i64,
    code: u16,
    body: Seq<char>,
) -> bool {
    &&& o.ok == accepts(m, code, body)
    &&& o.response_time_ms == Some(elapsed)
    &&& o.status_code == Some(code as i64)
    &&& text::view_opt(o.error_message) == (if o.ok {
        None
    } else {
        Some(complaint(m, code))
    })
    &&& o.resolved_ip is None
    &&& o.cause == (if o.ok {
        None
    } else if !expects(m, code) {
        Some(Cause::Status)
    } else {
        Some(Cause::Keyword)
    })
}

/// What came of a request.
#[derive(Clone, Debug)]
pub enum HttpReply {
    /// A reply with its status and its body. The body may be left empty where it does not
    /// matter.
    Status(u16, String),
    /// A failure: whether it timed out, whether it was connecting, and its message.
    Failed(bool, bool, String),
}

fn status_expected(m: &Monitor, code: u16) -> (r: bool)
    ensures
        r == expects(*m, code),
{
    match status_codes::parse_expected(m.expected_status_codes.as_str()) {
        Ok(ranges) => status_codes::matches(ranges.as_slice(), code),
        Err(_) => false,
    }
}

/// The body of a reply matters to a monitor.
pub open spec fn body_matters(m: Monitor, code: u16) -> bool {
    m.kind@ == "keyword"@ && expects(m, code)
}

/// Whether the body of a reply matters to a monitor: a keyword monitor that expects the status reads
/// it, and no other does.
pub fn reads_body(m: &Monitor, code: u16) -> (r: bool)
    ensures
        r == body_matters(*m, code),
        !r ==> forall|a: Seq<char>, b: Seq<char>| #[trigger]
            accepts(*m, code, a) == #[trigger] accepts(*m, code, b),
{
    text::same(m.kind.as_str(), "keyword") && status_expected(m, code)
}

fn mode_forbids(mode: &Option<String>) -> (r: bool)
    ensures
        r == forbids(*mode),
{
    match mode {
        None => false,
        Some(word) => text::same(word.as_str(), "absent") || text::same(
            word.as_str(),
            "not_present",
        ) || text::same(word.as_str(), "not_contains"),
    }
}

/// Whether a body meets the keyword of a monitor.
pub fn meets_keyword(m: &Monitor, body: &str) -> (r: bool)
    ensures
        r == keyword_met(*m, body@),
{
    match &m.keyword {
        None => true,
        Some(k) => {
            let found = if m.keyword_case_sensitive {
                text::contains(body, k.as_str())
            } else {
                let low = text::to_lower(body);
                let word = text::to_lower(k.as_str());
                text::contains(low.as_str(), word.as_str())
            };
            found != mode_forbids(&m.keyword_mode)
        },
    }
}

/// `o` reports what came of a request.
pub open spec fn reports(o: ProbeOutcome, m: Monitor, elapsed: i64, reply: HttpReply) -> bool {
    match reply {
        HttpReply::Status(code, body) => is_reply(o, m, elapsed, code, body@),
        HttpReply::Failed(timed_out, connecting, message) => probe::is_failure(
            o,
            Some(elapsed),
            message@,
            send_cause(timed_out, connecting, message@),
        ),
    }
}

/// What came of a request means this for a monitor: it passes where the status is one that it
/// expects and, for a keyword monitor, the body meets its keyword.
pub fn probe(m: &Monitor, elapsed: i64, reply: HttpReply) -> (r: ProbeOutcome)
    ensures
        r.wf(),
        reports(r, *m, elapsed, reply),
{
    match reply {
        HttpReply::Failed(timed_out, connecting, message) => {
            let cause = classify_send_error(timed_out, connecting, message.as_str());
            failure(Some(elapsed), message, cause)
        },
        HttpReply::Status(code, body) => {
            let (error, cause) = if !status_expected(m, code) {
                let digits = text::nat_text(code as u64);
                let mut message = text::own("unexpected status ");
                message.append(digits.as_str());
                (Some(message), Some(Cause::Status))
            } else if reads_body(m, code) && !meets_keyword(m, body.as_str()) {
                let message = if mode_forbids(&m.keyword_mode) {
                    text::own("keyword found")
                } else {
                    text::own("keyword not found")
                };
                (Some(message), Some(Cause::Keyword))
            } else {
                (None, None)
            };
            ProbeOutcome {
                ok: cause.is_none(),
                response_time_ms: Some(elapsed),
                status_code: Some(code as i64),
                error_message: error,
                resolved_ip: None,
                cause,
            }
        },
    }
}

/// A body that meets a keyword in a mode that forbids it fails it in every mode that asks for it, and
/// the other way round.
pub proof fn law_keyword_modes_are_opposite(m: Monitor, other: Option<String>, body: Seq<char>)
    requires
        m.keyword is Some,
        forbids(m.keyword_mode) != forbids(other),
    ensures
        keyword_met(m, body) != keyword_met(Monitor { keyword_mode: other, ..m }, body),
{
}

/// A keyword that stands in a body to the letter stands in it where case does not matter.
pub proof fn law_ignoring_case_finds_no_less(keyword: Seq<char>, body: Seq<char>)
    requires
        stands_in(keyword, body, true),
    ensures
        stands_in(keyword, body, false),
{
    let i = choose|i: int| text::occurs_at(body, keyword, i);
    assert(text::lower(body).subrange(i, i + keyword.len()) =~= text::lower(
        body.subrange(i, i + keyword.len()),
    ));
    assert(text::occurs_at(text::lower(body), text::lower(keyword), i));
}

/// A reply is judged by its status first: one outside every range that the monitor expects fails it
/// as a status, and so does every status where the expectation cannot be read.
pub proof fn law_unexpected_status_fails(o: ProbeOutcome, m: Monitor, elapsed: i64, code: u16, body: String)
    requires
        reports(o, m, elapsed, HttpReply::Status(code, body)),
        status_codes::expected(m.expected_status_codes@) matches Ok(ranges) ==> forall|k: int|
            0 <= k < ranges.len() ==> !((#[trigger] ranges[k]).0 <= code <= ranges[k].1),
    ensures
        !o.ok,
        o.cause == Some(Cause::Status),
        o.error_message is Some && (o.error_message->0)@ == "unexpected status "@ + text::dec(
            code as int,
        ),
        o.status_code == Some(code as i64),
        o.response_time_ms == Some(elapsed),
        o.resolved_ip is None,
{
    assert(!expects(m, code));
    assert(text::view_opt(o.error_message) == Some(complaint(m, code)));
    reveal_with_fuel(text::dec_nat, 1);
}

/// A status in one of the ranges that the monitor expects passes every monitor but a keyword monitor,
/// whatever the body says.
pub proof fn law_expected_status_passes(
    o: ProbeOutcome,
    m: Monitor,
    elapsed: i64,
    code: u16,
    body: String,
    k: int,
)
    requires
        reports(o, m, elapsed, HttpReply::Status(code, body)),
        status_codes::expected(m.expected_status_codes@) is Ok,
        0 <= k < status_codes::expected(m.expected_status_codes@)->Ok_0.len(),
        status_codes::expected(m.expected_status_codes@)->Ok_0[k].0 <= code
            <= status_codes::expected(m.expected_status_codes@)->Ok_0[k].1,
        m.kind@ != "keyword"@ || m.keyword is None,
    ensures
        o.ok,
        o.cause is None,
        o.error_message is None,
        o.status_code == Some(code as i64),
        o.response_time_ms == Some(elapsed),
        o.resolved_ip is None,
{
    assert(expects(m, code));
}

/// A keyword monitor whose status is expected passes exactly where its keyword stands in the body or,
/// in a mode that forbids it, where it does not; otherwise it fails for its keyword.
pub proof fn law_keyword_decides(
    o: ProbeOutcome,
    m: Monitor,
    elapsed: i64,
    code: u16,
    body: String,
    k: int,
)
    requires
        reports(o, m, elapsed, HttpReply::Status(code, body)),
        status_codes::expected(m.expected_status_codes@) is Ok,
        0 <= k < status_codes::expected(m.expected_status_codes@)->Ok_0.len(),
        status_codes::expected(m.expected_status_codes@)->Ok_0[k].0 <= code
            <= status_codes::expected(m.expected_status_codes@)->Ok_0[k].1,
        m.kind@ == "keyword"@,
        m.keyword is Some,
    ensures
        ({
            let there = if m.keyword_case_sensitive {
                text::within(body@, (m.keyword->0)@)
            } else {
                text::within(text::lower(body@), text::lower((m.keyword->0)@))
            };
            let forbidden = m.keyword_mode is Some && ((m.keyword_mode->0)@ == "absent"@ || (
            m.keyword_mode->0)@ == "not_present"@ || (m.keyword_mode->0)@ == "not_contains"@);
            &&& o.ok <==> there != forbidden
            &&& o.ok ==> o.cause is None && o.error_message is None
            &&& !o.ok ==> o.cause == Some(Cause::Keyword) && o.error_message is Some
            &&& !o.ok && there ==> (o.error_message->0)@ == "keyword found"@
            &&& !o.ok && !there ==> (o.error_message->0)@ == "keyword not found"@
            &&& o.status_code == Some(code as i64)
            &&& o.response_time_ms == Some(elapsed)
        }),
{
    assert(expects(m, code));
    if !o.ok {
        assert(text::view_opt(o.error_message) == Some(complaint(m, code)));
    }
}

/// A request without a reply fails with its own message: a timeout goes before everything else, and
/// one that was connecting is a connection failure whatever its message says.
pub proof fn law_failed_requests(
    o: ProbeOutcome,
    m: Monitor,
    elapsed: i64,
    timed_out: bool,
    connecting: bool,
    message: String,
)
    requires
        reports(o, m, elapsed, HttpReply::Failed(timed_out, connecting, message)),
    ensures
        !o.ok,
        o.response_time_ms == Some(elapsed),
        o.status_code is None,
        o.error_message is Some && (o.error_message->0)@ == message@,
        timed_out ==> o.cause == Some(Cause::Timeout),
        !timed_out && connecting ==> o.cause == Some(Cause::Connection),
        !timed_out && !connecting ==> o.cause == Some(
            if text::within(text::lower(message@), "dns"@) {
                Cause::Dns
            } else {
                Cause::Connection
            },
        ),
{
    assert(text::view_opt(o.error_message) == Some(message@));
}

/// A request is made as the monitor says: to its address, with its method where that is one and `GET`
/// otherwise, its body, its timeout, and its own choice on certificates and redirects.
pub proof fn law_request_follows_the_monitor(q: ProbeRequest, m: Monitor, value: Option<Seq<char>>)
    requires
        is_request(q, m, value),
    ensures
        m.url is Some && (m.url->0)@ == q.url@,
        http::is_method(m.method@) ==> q.method@ == m.method@,
        !http::is_method(m.method@) ==> q.method@ == "GET"@,
        q.body is Some <==> m.body is Some,
        q.body is Some ==> (q.body->0)@ == (m.body->0)@,
        q.timeout_seconds == m.timeout_seconds,
        q.verify_ssl == m.verify_ssl,
        q.follow_redirects == m.follow_redirects,
        m.headers is None ==> q.headers@.len() == 0,
{
    if q.headers@.len() > 0 && m.headers is None {
        assert(q.headers@[0] == q.headers@[0]);
    }
}

/// A request says who asks exactly where the monitor has both a known authentication and a secret: a
/// bearer shows the secret whole, a user and a header are what stands before the first colon of it,
/// and their password and value what stands after.
pub proof fn law_who_asks(
    q: ProbeRequest,
    m: Monitor,
    value: Option<Seq<char>>,
    front: Seq<char>,
    back: Seq<char>,
)
    requires
        is_request(q, m, value),
        !front.contains(':'),
    ensures
        m.auth_type is None || value is None ==> q.auth is Anonymous,
        m.auth_type is Some && value is Some && (m.auth_type->0)@ == "bearer"@ ==> (q.auth matches
            ProbeAuth::Bearer(token) && token@ == value->0),
        m.auth_type is Some && value == Some(front + seq![':'] + back) && (m.auth_type->0)@
            == "basic"@ ==> (q.auth matches ProbeAuth::Basic(user, pass) && user@ == front && pass@
            == back),
        m.auth_type is Some && value == Some(front) && (m.auth_type->0)@ == "basic"@ ==> (
        q.auth matches ProbeAuth::Basic(user, pass) && user@ == front && pass@.len() == 0),
        m.auth_type is Some && value == Some(front + seq![':'] + back) && (m.auth_type->0)@
            == "header"@ ==> (q.auth matches ProbeAuth::Header(name, x) && name@ == text::trimmed(
            front,
        ) && x@ == text::trimmed(back)),
        m.auth_type is Some && value is Some && (m.auth_type->0)@ != "bearer"@ && (
        m.auth_type->0)@ != "basic"@ && (m.auth_type->0)@ != "header"@ ==> q.auth is Anonymous,
{
    reveal_strlit("basic");
    reveal_strlit("bearer");
    reveal_strlit("header");
    assert("basic"@[1] == 'a');
    assert("bearer"@[1] == 'e');
    assert("header"@[0] == 'h');
    assert("basic"@[0] == 'b');
    assert("bearer"@[0] == 'b');
    let line = front + seq![':'] + back;
    assert(line[front.len() as int] == ':');
    assert forall|k: int| 0 <= k < front.len() implies line[k] != ':' by {
        assert(line[k] == front[k]);
    }
    text::lemma_first_of(line, ':', front.len() as int);
    assert(line.skip(front.len() as int + 1) =~= back);
    assert(line.take(front.len() as int) =~= front);
}

/// A secret stands where the monitor says: after `env:` a variable is named, whose value it is, and
/// after `inline:` it stands itself; a monitor that says neither has none.
pub proof fn law_where_a_secret_stands(
    s: AuthSource,
    auth_ref: Option<String>,
    environment: Option<String>,
    rest: Seq<char>,
)
    requires
        is_source(s, auth_ref),
    ensures
        auth_ref is None ==> s is Missing && secret(auth_ref, environment) is None,
        auth_ref is Some && (auth_ref->0)@ == "env:"@ + rest ==> (s matches AuthSource::Env(v) && v@
            == rest) && (environment is None ==> secret(auth_ref, environment) is None) && (
        environment matches Some(held) ==> secret(auth_ref, environment) == Some(held@)),
        auth_ref is Some && (auth_ref->0)@ == "inline:"@ + rest ==> (s matches AuthSource::Inline(v)
            && v@ == rest) && secret(auth_ref, environment) == Some(rest),
        auth_ref is Some && !text::starts((auth_ref->0)@, "env:"@) && !text::starts(
            (auth_ref->0)@,
            "inline:"@,
        ) ==> s is Missing && secret(auth_ref, environment) is None,
{
    reveal_strlit("env:");
    reveal_strlit("inline:");
    let e = "env:"@ + rest;
    assert(e.subrange(0, 4) =~= "env:"@);
    assert(text::starts(e, "env:"@));
    assert(e.subrange(4, e.len() as int) =~= rest);
    let i = "inline:"@ + rest;
    assert(i.subrange(0, 7) =~= "inline:"@);
    assert(text::starts(i, "inline:"@));
    assert(i.subrange(7, i.len() as int) =~= rest);
    assert(i[0] == 'i');
    assert("env:"@[0] == 'e');
    if text::starts(i, "env:"@) {
        assert(i.subrange(0, 4)[0] == i[0]);
    }
}

/// A body is read exactly where it can decide: for a keyword monitor whose status is expected.
pub proof fn law_bodies_that_matter(m: Monitor, code: u16, ranges: Seq<(u16, u16)>)
    requires
        status_codes::expected(m.expected_status_codes@) == Ok::<Seq<(u16, u16)>, Seq<char>>(ranges),
    ensures
        body_matters(m, code) <==> m.kind@ == "keyword"@ && exists|k: int|
            0 <= k < ranges.len() && (#[trigger] ranges[k]).0 <= code <= ranges[k].1,
{
}

/// A monitor with an address is asked there; one without fails to connect, and says why.
pub proof fn law_address_is_needed(
    m: Monitor,
    environment: Option<String>,
    r: Result<ProbeRequest, ProbeOutcome>,
)
    requires
        asks(m, environment, r),
    ensures
        m.url matches Some(url) ==> (r matches Ok(q) && q.url@ == url@),
        m.url is None ==> (r matches Err(o) && !o.ok && o.cause == Some(Cause::Connection)
            && o.response_time_ms is None && o.error_message is Some && (o.error_message->0)@
            == "monitor has no url configured"@),
{
    if r is Err {
        assert(text::view_opt((r->Err_0).error_message) is Some);
    }
}

} // verus!
