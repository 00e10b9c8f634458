//! The requests that carry notifications to webhooks, Discord and ntfy.

use vstd::prelude::*;

use crate::json;
use crate::json::Json;
use crate::notify;
use crate::notify::{own_or, NotifyMsg};
use crate::text;

verus! {

/// The webhook body where the channel has no template of its own.
pub const DEFAULT_WEBHOOK_TEMPLATE: &'static str =
    "{\"monitor\":\"{{monitor_name}}\",\"url\":\"{{url}}\",\"status\":\"{{status}}\",\"status_code\":\"{{status_code}}\",\"error\":\"{{error}}\",\"response_time_ms\":\"{{response_time_ms}}\",\"checked_at\":\"{{checked_at}}\"}";

/// What a request carries.
#[derive(Debug)]
pub enum Payload {
    /// A text as it is.
    Text(String),
    /// A value, sent as JSON of that content type.
    Json(Json),
}

impl Payload {
    /// The payload is a text.
    pub open spec fn is_text(self, t: Seq<char>) -> bool {
        self matches Payload::Text(s) && s@ == t
    }
}

/// A request to make.
#[derive(Debug)]
pub struct HttpRequest {
    pub method: String,
    pub url: String,
    /// In order; a name may occur more than once.
    pub headers: Vec<(String, String)>,
    pub body: Payload,
}

// ---- templates ----

/// A placeholder.
pub open spec fn placeholder(key: Seq<char>) -> Seq<char> {
    "{{"@ + key + "}}"@
}

/// A template with one placeholder filled in, as the value stands inside a JSON string.
pub open spec fn filled(template: Seq<char>, key: Seq<char>, value: Seq<char>) -> Seq<char> {
    text::replaced(template, placeholder(key), json::escaped(value))
}

/// A number as text, and nothing without one.
pub open spec fn number_or_empty(o: Option<i64>) -> Seq<char> {
    match o {
        Some(n) => text::dec(n as int),
        None => Seq::empty(),
    }
}

/// A template with every placeholder filled in, one after the other.
pub open spec fn substituted(template: Seq<char>, msg: NotifyMsg) -> Seq<char> {
    let none = Seq::<char>::empty();
    let t = filled(template, "monitor_name"@, msg.monitor_name@);
    let t = filled(t, "url"@, msg.url@);
    let t = filled(t, "status"@, msg.status@);
    let t = filled(t, "status_code"@, number_or_empty(msg.status_code));
    let t = filled(t, "error"@, notify::text_or(msg.error, none));
    let t = filled(t, "response_time_ms"@, number_or_empty(msg.response_time_ms));
    let t = filled(t, "duration"@, number_or_empty(msg.duration));
    let t = filled(t, "ssl_days"@, number_or_empty(msg.ssl_days));
    let t = filled(t, "domain_days"@, number_or_empty(msg.domain_days));
    let t = filled(t, "checked_at"@, text::dec(msg.checked_at as int));
    let t = filled(t, "incident_url"@, notify::text_or(msg.incident_url, none));
    let t = filled(t, "subject"@, msg.subject@);
    filled(t, "body"@, msg.body@)
}

fn fill(template: &str, key: &str, value: &str) -> (r: String)
    ensures
        r@ == filled(template@, key@, value@),
{
    let mut from = text::own("{{");
    from.append(key);
    from.append("}}");
    proof {
        reveal_strlit("{{");
        assert("{{"@.len() == 2);
    }
    let to = json::escape(value);
    text::replace(template, from.as_str(), to.as_str())
}

fn number(o: Option<i64>) -> (r: String)
    ensures
        r@ == number_or_empty(o),
{
    match o {
        Some(n) => text::int_text(n),
        None => String::new(),
    }
}

/// Fills in the placeholders of a template. Each value is escaped for the quotes that the template
/// puts round it.
pub fn substitute_vars(template: &str, msg: &NotifyMsg) -> (r: String)
    ensures
        r@ == substituted(template@, *msg),
{
    proof {
        reveal_strlit("");
        assert(""@ =~= Seq::<char>::empty());
    }
    let t = fill(template, "monitor_name", msg.monitor_name.as_str());
    let t = fill(t.as_str(), "url", msg.url.as_str());
    let t = fill(t.as_str(), "status", msg.status.as_str());
    let t = fill(t.as_str(), "status_code", number(msg.status_code).as_str());
    let t = fill(t.as_str(), "error", own_or(&msg.error, "").as_str());
    let t = fill(t.as_str(), "response_time_ms", number(msg.response_time_ms).as_str());
    let t = fill(t.as_str(), "duration", number(msg.duration).as_str());
    let t = fill(t.as_str(), "ssl_days", number(msg.ssl_days).as_str());
    let t = fill(t.as_str(), "domain_days", number(msg.domain_days).as_str());
    let t = fill(t.as_str(), "checked_at", text::int_text(msg.checked_at).as_str());
    let t = fill(t.as_str(), "incident_url", own_or(&msg.incident_url, "").as_str());
    let t = fill(t.as_str(), "subject", msg.subject.as_str());
    fill(t.as_str(), "body", msg.body.as_str())
}

// ---- Discord ----

/// The colour of a status: red, green, or amber.
pub open spec fn color_of(status: Seq<char>) -> int {
    if status == "down"@ {
        0xF26D6D
    } else if status == "up"@ || status == "recovered"@ {
        0x35D07F
    } else {
        0xF5A623
    }
}

/// The colour of a status.
pub fn discord_color(status: &str) -> (r: u32)
    ensures
        r == color_of(status@),
{
    if text::same(status, "down") {
        0xF26D6D
    } else if text::same(status, "up") || text::same(status, "recovered") {
        0x35D07F
    } else {
        0xF5A623
    }
}

/// `p` is an embed for a message: its subject, its body, and the colour of its status.
pub open spec fn is_embed(p: Json, msg: NotifyMsg) -> bool {
    &&& p is Object
    &&& p->Object_0@.len() == 3
    &&& p.member_text("title"@) == Some(msg.subject@)
    &&& p.member_text("description"@) == Some(msg.body@)
    &&& p.member("color"@) matches Some(Json::Int(n)) && n == color_of(msg.status@)
}

/// `p` is a Discord message: the subject as content, and one embed.
pub open spec fn is_discord_payload(p: Json, msg: NotifyMsg) -> bool {
    &&& p is Object
    &&& p->Object_0@.len() == 2
    &&& p.member_text("content"@) == Some(msg.subject@)
    &&& p.member_items("embeds"@) matches Some(e) && e.len() == 1 && is_embed(e[0], msg)
}

/// Builds the Discord message.
pub fn build_discord_payload(msg: &NotifyMsg) -> (r: Json)
    ensures
        is_discord_payload(r, *msg),
{
    let color: i64 = discord_color(msg.status.as_str()) as i64;
    let mut embed: Vec<(String, Json)> = Vec::new();
    embed.push((text::own("color"), Json::Int(color)));
    embed.push((text::own("description"), Json::Str(text::own(msg.body.as_str()))));
    embed.push((text::own("title"), Json::Str(text::own(msg.subject.as_str()))));
    proof {
        reveal_strlit("title");
        reveal_strlit("description");
        reveal_strlit("color");
        reveal_strlit("content");
        reveal_strlit("embeds");
        assert("title"@[0] == 't');
        assert("description"@[0] == 'd');
        assert("color"@[0] == 'c');
        assert("content"@[0] == 'c');
        assert("embeds"@[0] == 'e');
        reveal_with_fuel(json::lookup, 4);
        let e = embed@;
        assert(e.subrange(1, 3).subrange(1, 2) =~= e.subrange(2, 3));
        assert(e.subrange(1, e.len() as int)[0] == e[1]);
        assert(e.subrange(2, 3)[0] == e[2]);
        assert(json::lookup(e, "color"@) == Some(e[0].1));
        assert(json::lookup(e, "description"@) == Some(e[1].1));
        assert(json::lookup(e, "title"@) == Some(e[2].1));
    }
    let mut embeds: Vec<Json> = Vec::new();
    embeds.push(Json::Object(embed));
    assert(is_embed(embeds@[0], *msg));
    let mut top: Vec<(String, Json)> = Vec::new();
    top.push((text::own("content"), Json::Str(text::own(msg.subject.as_str()))));
    top.push((text::own("embeds"), Json::Array(embeds)));
    proof {
        reveal_with_fuel(json::lookup, 3);
        let e = top@;
        assert(e.subrange(1, e.len() as int)[0] == e[1]);
        assert(json::lookup(e, "content"@) == Some(e[0].1));
        assert(json::lookup(e, "embeds"@) == Some(e[1].1));
    }
    Json::Object(top)
}

/// `r` is the Discord request of a configuration and a message: a post of the message as JSON.
pub open spec fn is_discord_request(r: HttpRequest, config: Json, msg: NotifyMsg) -> bool {
    &&& config.member_text("webhook_url"@) == Some(r.url@)
    &&& r.method@ == "POST"@
    &&& pair_views(r.headers@) == Seq::<(Seq<char>, Seq<char>)>::empty()
    &&& r.body matches Payload::Json(p) && is_discord_payload(p, msg)
}

/// Plans the Discord request.
pub fn send_discord(config: &Json, msg: &NotifyMsg) -> (r: Result<HttpRequest, String>)
    ensures
        match r {
            Ok(q) => is_discord_request(q, *config, *msg),
            Err(e) => config.member_text("webhook_url"@) is None && e@
                == "discord channel config missing 'webhook_url'"@,
        },
{
    let url = match config.get_str("webhook_url") {
        Some(u) => text::own(u.as_str()),
        None => {
            return Err(text::own("discord channel config missing 'webhook_url'"));
        },
    };
    let headers: Vec<(String, String)> = Vec::new();
    assert(pair_views(headers@) =~= Seq::<(Seq<char>, Seq<char>)>::empty());
    let body = Payload::Json(build_discord_payload(msg));
    Ok(HttpRequest { method: text::own("POST"), url, headers, body })
}

// ---- webhooks ----

/// What `str::to_uppercase` makes of a text.
pub uninterp spec fn uppercased(s: Seq<char>) -> Seq<char>;

/// `str::to_uppercase`: every character in upper case; for ASCII text only the letters change.
#[verifier::external_body]
fn uppercase(s: &str) -> (r: String)
    ensures
        r@ == uppercased(s@),
        vstd::utf8::is_ascii_chars(s@) ==> r@ == text::upper(s@),
{
    s.to_uppercase()
}

/// A character that may stand in a method.
pub open spec fn token_char(c: char) -> bool {
    text::is_digit(c) || ('a' <= c <= 'z') || ('A' <= c <= 'Z') || "!#$%&'*+-.^_`|~"@.contains(c)
}

/// A text is a method: one or more of the characters that may stand in one.
pub open spec fn is_method(s: Seq<char>) -> bool {
    s.len() > 0 && forall|i: int| 0 <= i < s.len() ==> token_char(#[trigger] s[i])
}

/// `reqwest::Method::from_bytes`: whether a text is a method. It is one exactly where it is not
/// empty and holds only ASCII letters and digits and a few marks.
#[verifier::external_body]
pub(crate) fn method_parses(s: &str) -> (r: bool)
    ensures
        r == is_method(s@),
{
    reqwest::Method::from_bytes(s.as_bytes()).is_ok()
}

/// The method of a webhook: the configured one in upper case, and `POST` without one or where it is
/// no method.
pub open spec fn webhook_method(config: Json) -> Seq<char> {
    let wanted = uppercased(
        match config.member_text("method"@) {
            Some(m) => m,
            None => "POST"@,
        },
    );
    if is_method(wanted) {
        wanted
    } else {
        "POST"@
    }
}

/// The headers that an object states: its members that are strings, in order.
pub open spec fn string_members(o: Seq<(String, Json)>) -> Seq<(Seq<char>, Seq<char>)>
    decreases o.len(),
{
    if o.len() == 0 {
        Seq::empty()
    } else {
        let rest = string_members(o.drop_last());
        match o.last().1.text_view() {
            Some(v) => rest.push((o.last().0@, v)),
            None => rest,
        }
    }
}

/// The headers of a configuration.
pub open spec fn config_headers(config: Json) -> Seq<(Seq<char>, Seq<char>)> {
    match config.member("headers"@) {
        Some(Json::Object(o)) => string_members(o@),
        _ => Seq::empty(),
    }
}

/// Header pairs as texts.
pub open spec fn pair_views(v: Seq<(String, String)>) -> Seq<(Seq<char>, Seq<char>)> {
    v.map_values(|p: (String, String)| (p.0@, p.1@))
}

fn add_pair(out: &mut Vec<(String, String)>, k: &str, v: &str)
    ensures
        pair_views(final(out)@) == pair_views(old(out)@).push((k@, v@)),
{
    let ghost before = pair_views(out@);
    out.push((text::own(k), text::own(v)));
    assert(pair_views(out@) =~= before.push((k@, v@)));
}

fn headers_of(config: &Json) -> (r: Vec<(String, String)>)
    ensures
        pair_views(r@) == config_headers(*config),
{
    let mut out: Vec<(String, String)> = Vec::new();
    assert(pair_views(out@) =~= Seq::<(Seq<char>, Seq<char>)>::empty());
    if let Some(Json::Object(o)) = config.get("headers") {
        let mut i: usize = 0;
        assert(o@.take(0) =~= Seq::<(String, Json)>::empty());
        while i < o.len()
            invariant
                i <= o@.len(),
                pair_views(out@) == string_members(o@.take(i as int)),
            decreases o@.len() - i,
        {
            assert(o@.take(i + 1).drop_last() =~= o@.take(i as int));
            if let Some(v) = o[i].1.as_str() {
                add_pair(&mut out, o[i].0.as_str(), v.as_str());
            }
            i += 1;
        }
        assert(o@.take(o@.len() as int) =~= o@);
    }
    out
}

/// `r` is the webhook request of a configuration and a message.
pub open spec fn is_webhook_request(r: HttpRequest, config: Json, msg: NotifyMsg) -> bool {
    &&& config.member_text("url"@) == Some(r.url@)
    &&& r.method@ == webhook_method(config)
    &&& r.body.is_text(
        substituted(
            match config.member_text("template"@) {
                Some(t) => t,
                None => DEFAULT_WEBHOOK_TEMPLATE@,
            },
            msg,
        ),
    )
    &&& pair_views(r.headers@) == config_headers(config).push(
        ("Content-Type"@, "application/json"@),
    )
}

/// Plans the webhook request: the configured address, method, template and headers, with a JSON body.
pub fn send_webhook(config: &Json, msg: &NotifyMsg) -> (r: Result<HttpRequest, String>)
    ensures
        match r {
            Ok(q) => is_webhook_request(q, *config, *msg),
            Err(e) => config.member_text("url"@) is None && e@
                == "webhook channel config missing 'url'"@,
        },
{
    let url = match config.get_str("url") {
        Some(u) => text::own(u.as_str()),
        None => {
            return Err(text::own("webhook channel config missing 'url'"));
        },
    };
    let wanted = match config.get_str("method") {
        Some(m) => uppercase(m.as_str()),
        None => uppercase("POST"),
    };
    let method = if method_parses(wanted.as_str()) {
        wanted
    } else {
        text::own("POST")
    };
    let body = match config.get_str("template") {
        Some(t) => substitute_vars(t.as_str(), msg),
        None => substitute_vars(DEFAULT_WEBHOOK_TEMPLATE, msg),
    };
    let mut headers = headers_of(config);
    add_pair(&mut headers, "Content-Type", "application/json");
    Ok(HttpRequest { method, url, headers, body: Payload::Text(body) })
}

// ---- ntfy ----

/// `s` without its trailing slashes.
pub open spec fn without_slashes(s: Seq<char>) -> Seq<char>
    decreases s.len(),
{
    if s.len() > 0 && s.last() == '/' {
        without_slashes(s.drop_last())
    } else {
        s
    }
}

fn trim_slashes(s: &str) -> (r: String)
    ensures
        r@ == without_slashes(s@),
{
    let v = text::chars(s);
    let mut n: usize = v.len();
    assert(v@.subrange(0, n as int) =~= v@);
    while n > 0 && v[n - 1] == '/'
        invariant
            n <= v@.len(),
            v@ == s@,
            without_slashes(s@) == without_slashes(v@.subrange(0, n as int)),
        decreases n,
    {
        assert(v@.subrange(0, n as int).drop_last() =~= v@.subrange(0, n - 1));
        n -= 1;
    }
    text::collect(&v, 0, n)
}

/// A header for a configured text, and none without it.
pub open spec fn optional_header(
    name: Seq<char>,
    prefix: Seq<char>,
    value: Option<Seq<char>>,
) -> Seq<(Seq<char>, Seq<char>)> {
    match value {
        Some(v) => seq![(name, prefix + v)],
        None => Seq::empty(),
    }
}

/// `r` is the ntfy request of a configuration and a message.
pub open spec fn is_ntfy_request(r: HttpRequest, config: Json, msg: NotifyMsg) -> bool {
    let server = match config.member_text("server"@) {
        Some(s) => s,
        None => "https://ntfy.sh"@,
    };
    let none = Seq::<char>::empty();
    &&& config.member_text("topic"@) is Some
    &&& r.url@ == without_slashes(server) + "/"@ + config.member_text("topic"@)->0
    &&& r.method@ == "POST"@
    &&& r.body.is_text(msg.body@)
    &&& pair_views(r.headers@) == seq![("Title"@, msg.subject@)] + optional_header(
        "Priority"@,
        none,
        config.member_text("priority"@),
    ) + optional_header("Tags"@, none, config.member_text("tags"@)) + optional_header(
        "Authorization"@,
        "Bearer "@,
        config.member_text("token"@),
    )
}

fn add_optional(out: &mut Vec<(String, String)>, name: &str, prefix: &str, value: Option<&String>)
    ensures
        pair_views(final(out)@) == pair_views(old(out)@) + optional_header(
            name@,
            prefix@,
            match value {
                Some(v) => Some(v@),
                None => None,
            },
        ),
{
    let ghost before = pair_views(out@);
    if let Some(v) = value {
        let mut s = text::own(prefix);
        s.append(v.as_str());
        add_pair(out, name, s.as_str());
    }
    assert(pair_views(out@) =~= before + optional_header(
        name@,
        prefix@,
        match value {
            Some(v) => Some(v@),
            None => None,
        },
    ));
}

/// Plans the ntfy request: a post to the topic, with the subject as title.
pub fn send_ntfy(config: &Json, msg: &NotifyMsg) -> (r: Result<HttpRequest, String>)
    ensures
        match r {
            Ok(q) => is_ntfy_request(q, *config, *msg),
            Err(e) => config.member_text("topic"@) is None && e@
                == "ntfy channel config missing 'topic'"@,
        },
{
    let topic = match config.get_str("topic") {
        Some(t) => t,
        None => {
            return Err(text::own("ntfy channel config missing 'topic'"));
        },
    };
    let mut url = match config.get_str("server") {
        Some(s) => trim_slashes(s.as_str()),
        None => trim_slashes("https://ntfy.sh"),
    };
    url.append("/");
    url.append(topic.as_str());
    proof {
        reveal_strlit("");
        assert(""@ =~= Seq::<char>::empty());
    }
    let mut headers: Vec<(String, String)> = Vec::new();
    assert(pair_views(headers@) =~= Seq::<(Seq<char>, Seq<char>)>::empty());
    add_pair(&mut headers, "Title", msg.subject.as_str());
    assert(pair_views(headers@) =~= seq![("Title"@, msg.subject@)]);
    add_optional(&mut headers, "Priority", "", config.get_str("priority"));
    add_optional(&mut headers, "Tags", "", config.get_str("tags"));
    add_optional(&mut headers, "Authorization", "Bearer ", config.get_str("token"));
    Ok(
        HttpRequest {
            method: text::own("POST"),
            url,
            headers,
            body: Payload::Text(text::own(msg.body.as_str())),
        },
    )
}

// ---- any channel ----

/// The request that a channel of a type makes of a configuration and a message.
pub open spec fn is_request(
    r: HttpRequest,
    channel_type: Seq<char>,
    config: Json,
    msg: NotifyMsg,
) -> bool {
    ||| channel_type == "webhook"@ && is_webhook_request(r, config, msg)
    ||| channel_type == "discord"@ && is_discord_request(r, config, msg)
    ||| channel_type == "ntfy"@ && is_ntfy_request(r, config, msg)
}

/// What keeps a channel of a type from making a request, if anything does.
pub open spec fn obstacle(channel_type: Seq<char>, config: Json) -> Option<Seq<char>> {
    if channel_type == "webhook"@ {
        if config.member_text("url"@) is None {
            Some("webhook channel config missing 'url'"@)
        } else {
            None
        }
    } else if channel_type == "discord"@ {
        if config.member_text("webhook_url"@) is None {
            Some("discord channel config missing 'webhook_url'"@)
        } else {
            None
        }
    } else if channel_type == "ntfy"@ {
        if config.member_text("topic"@) is None {
            Some("ntfy channel config missing 'topic'"@)
        } else {
            None
        }
    } else {
        Some("unsupported notification channel type: "@ + channel_type)
    }
}

/// Plans the request of a channel, by its type.
pub fn send(channel_type: &str, config: &Json, msg: &NotifyMsg) -> (r: Result<HttpRequest, String>)
    ensures
        match r {
            Ok(q) => obstacle(channel_type@, *config) is None && is_request(
                q,
                channel_type@,
                *config,
                *msg,
            ),
            Err(e) => obstacle(channel_type@, *config) == Some(e@),
        },
{
    proof {
        reveal_strlit("webhook");
        reveal_strlit("discord");
        reveal_strlit("ntfy");
        assert("webhook"@[0] == 'w' && "discord"@[0] == 'd' && "ntfy"@[0] == 'n');
    }
    if text::same(channel_type, "webhook") {
        send_webhook(config, msg)
    } else if text::same(channel_type, "discord") {
        send_discord(config, msg)
    } else if text::same(channel_type, "ntfy") {
        send_ntfy(config, msg)
    } else {
        let mut s = text::own("unsupported notification channel type: ");
        s.append(channel_type);
        Err(s)
    }
}

/// What a channel type calls the other end.
pub open spec fn other_end(channel_type: Seq<char>) -> Seq<char> {
    if channel_type == "discord"@ {
        "discord webhook"@
    } else {
        channel_type
    }
}

/// `r` is the complaint about a reply, if there is one.
pub open spec fn complains(r: Option<String>, channel_type: Seq<char>, code: u16, status: Seq<char>) -> bool {
    &&& text::view_opt(r) == if 200 <= code < 300 {
        None
    } else {
        Some(other_end(channel_type) + " returned "@ + status)
    }
}

/// The complaint about a reply to a channel's request, if it is no success.
pub fn reply_error(channel_type: &str, code: u16, status: &str) -> (r: Option<String>)
    ensures
        complains(r, channel_type@, code, status@),
{
    if 200 <= code && code < 300 {
        None
    } else {
        let mut s = if text::same(channel_type, "discord") {
            text::own("discord webhook")
        } else {
            text::own(channel_type)
        };
        s.append(" returned ");
        s.append(status);
        Some(s)
    }
}

/// What an ntfy request carries: the message to the topic of the server, or of the public one, titled
/// by the subject; the priority and the tags where they are configured, and the token as a bearer's.
pub proof fn law_ntfy_request(r: HttpRequest, config: Json, msg: NotifyMsg)
    requires
        is_ntfy_request(r, config, msg),
    ensures
        r.method@ == "POST"@,
        r.body matches Payload::Text(t) && t@ == msg.body@,
        pair_views(r.headers@).contains(("Title"@, msg.subject@)),
        config.member_text("priority"@) matches Some(p) ==> pair_views(r.headers@).contains(
            ("Priority"@, p),
        ),
        config.member_text("tags"@) matches Some(t) ==> pair_views(r.headers@).contains(
            ("Tags"@, t),
        ),
        config.member_text("token"@) matches Some(t) ==> pair_views(r.headers@).contains(
            ("Authorization"@, "Bearer "@ + t),
        ),
        r.headers@.len() == 1 + (if config.member_text("priority"@) is Some {
            1int
        } else {
            0
        }) + (if config.member_text("tags"@) is Some {
            1int
        } else {
            0
        }) + (if config.member_text("token"@) is Some {
            1int
        } else {
            0
        }),
        text::within(r.url@, "/"@ + config.member_text("topic"@)->0),
        config.member_text("server"@) is None ==> text::within(
            r.url@,
            without_slashes("https://ntfy.sh"@),
        ),
        config.member_text("server"@) matches Some(s) ==> text::within(r.url@, without_slashes(s)),
{
    let v = pair_views(r.headers@);
    let none = Seq::<char>::empty();
    assert(v.len() == r.headers@.len());
    assert(v[0] == ("Title"@, msg.subject@));
    let a: int = if config.member_text("priority"@) is Some {
        1
    } else {
        0
    };
    let b: int = if config.member_text("tags"@) is Some {
        1
    } else {
        0
    };
    if let Some(p) = config.member_text("priority"@) {
        assert(none + p =~= p);
        assert(v[1] == ("Priority"@, p));
    }
    if let Some(t) = config.member_text("tags"@) {
        assert(none + t =~= t);
        assert(v[1 + a] == ("Tags"@, t));
    }
    if let Some(t) = config.member_text("token"@) {
        assert(v[1 + a + b] == ("Authorization"@, "Bearer "@ + t));
    }
    let server = without_slashes(
        match config.member_text("server"@) {
            Some(s) => s,
            None => "https://ntfy.sh"@,
        },
    );
    let topic = config.member_text("topic"@)->0;
    let tail = "/"@ + topic;
    assert(r.url@ =~= server + tail);
    text::law_halves_are_held(server, tail, server);
    text::law_halves_are_held(tail, Seq::empty(), tail);
    text::law_halves_are_held(server, tail, tail);
}

/// A server's address loses the slashes at its end, and nothing else.
pub proof fn law_slashes_at_the_end(s: Seq<char>)
    ensures
        without_slashes(s.push('/')) == without_slashes(s),
        s.len() == 0 || s.last() != '/' ==> without_slashes(s) == s,
        without_slashes(s).len() <= s.len(),
        without_slashes(s) == s.take(without_slashes(s).len() as int),
        forall|i: int| without_slashes(s).len() <= i < s.len() ==> #[trigger] s[i] == '/',
    decreases s.len(),
{
    assert(s.push('/').drop_last() =~= s);
    if s.len() > 0 && s.last() == '/' {
        law_slashes_at_the_end(s.drop_last());
        let n = without_slashes(s).len() as int;
        assert(s.take(n) =~= s.drop_last().take(n));
        assert forall|i: int| n <= i < s.len() implies #[trigger] s[i] == '/' by {
            if i < s.len() - 1 {
                assert(s.drop_last()[i] == '/');
            }
        }
    } else {
        assert(s.take(s.len() as int) =~= s);
    }
}

proof fn lemma_string_members(o: Seq<(String, Json)>, i: int)
    requires
        0 <= i < o.len(),
    ensures
        o[i].1.text_view() matches Some(v) ==> string_members(o).contains((o[i].0@, v)),
    decreases o.len(),
{
    let rest = o.drop_last();
    if i < o.len() - 1 {
        lemma_string_members(rest, i);
        if let Some(v) = o[i].1.text_view() {
            let k = choose|k: int|
                0 <= k < string_members(rest).len() && string_members(rest)[k] == (o[i].0@, v);
            assert(string_members(o)[k] == (o[i].0@, v));
        }
    } else if let Some(v) = o[i].1.text_view() {
        assert(string_members(o)[string_members(rest).len() as int] == (o[i].0@, v));
    }
}

proof fn lemma_members_are_strings(o: Seq<(String, Json)>, k: int)
    requires
        0 <= k < string_members(o).len(),
    ensures
        exists|i: int|
            0 <= i < o.len() && (#[trigger] o[i]).1.text_view() is Some && string_members(o)[k] == (
                o[i].0@,
                o[i].1.text_view()->0,
            ),
    decreases o.len(),
{
    if o.len() > 0 {
        let rest = o.drop_last();
        if k < string_members(rest).len() {
            lemma_members_are_strings(rest, k);
            let i = choose|i: int|
                0 <= i < rest.len() && (#[trigger] rest[i]).1.text_view() is Some && string_members(
                    rest,
                )[k] == (rest[i].0@, rest[i].1.text_view()->0);
            assert(o[i] == rest[i]);
        } else {
            assert(o[o.len() - 1] == o.last());
        }
    }
}

/// What a webhook request carries: the filled template, its own or the default one, to the configured
/// address, with every configured header that is a text, no other, and that the body is JSON.
pub proof fn law_webhook_request(
    r: HttpRequest,
    config: Json,
    msg: NotifyMsg,
    o: Seq<(String, Json)>,
    i: int,
    k: int,
)
    requires
        is_webhook_request(r, config, msg),
    ensures
        config.member_text("url"@) == Some(r.url@),
        pair_views(r.headers@).last() == ("Content-Type"@, "application/json"@),
        config.member_text("template"@) matches Some(t) ==> r.body.is_text(substituted(t, msg)),
        config.member_text("template"@) is None ==> r.body.is_text(
            substituted(DEFAULT_WEBHOOK_TEMPLATE@, msg),
        ),
        config.member("headers"@) is None ==> r.headers@.len() == 1,
        config.member("headers"@) matches Some(Json::Object(h)) ==> (o == h@ && 0 <= i < o.len() ==> (
        o[i].1.text_view() matches Some(v) ==> pair_views(r.headers@).contains((o[i].0@, v)))),
        config.member("headers"@) matches Some(Json::Object(h)) ==> (o == h@ && 0 <= k
            < r.headers@.len() - 1 ==> exists|j: int|
            0 <= j < o.len() && (#[trigger] o[j]).1.text_view() is Some && pair_views(r.headers@)[k]
                == (o[j].0@, o[j].1.text_view()->0)),
{
    let v = pair_views(r.headers@);
    assert(v.len() == r.headers@.len());
    if let Some(Json::Object(h)) = config.member("headers"@) {
        if o == h@ {
            let m = string_members(o);
            assert(v == m.push(("Content-Type"@, "application/json"@)));
            if 0 <= i < o.len() {
                lemma_string_members(o, i);
                if let Some(t) = o[i].1.text_view() {
                    let at = choose|at: int| 0 <= at < m.len() && m[at] == (o[i].0@, t);
                    assert(v[at] == (o[i].0@, t));
                }
            }
            if 0 <= k < r.headers@.len() - 1 {
                lemma_members_are_strings(o, k);
                assert(v[k] == m[k]);
            }
        }
    }
}

/// The method of a webhook is the configured one in upper case where that is a method, a post where
/// it is not, and always a method or a post.
pub proof fn law_webhook_method(config: Json)
    ensures
        config.member_text("method"@) matches Some(m) ==> is_method(uppercased(m))
            ==> webhook_method(config) == uppercased(m),
        config.member_text("method"@) matches Some(m) ==> !is_method(uppercased(m))
            ==> webhook_method(config) == "POST"@,
        is_method(webhook_method(config)) || webhook_method(config) == "POST"@,
{
}

/// What a Discord request carries: a post of one message whose content is the subject, with one embed
/// of subject, body and the colour of the status.
pub proof fn law_discord_request(r: HttpRequest, config: Json, msg: NotifyMsg)
    requires
        is_discord_request(r, config, msg),
    ensures
        config.member_text("webhook_url"@) == Some(r.url@),
        r.method@ == "POST"@,
        r.headers@.len() == 0,
        r.body matches Payload::Json(p) && p.member_text("content"@) == Some(msg.subject@) && (
        p.member_items("embeds"@) matches Some(e) && e.len() == 1 && e[0].member_text("title"@)
            == Some(msg.subject@) && e[0].member_text("description"@) == Some(msg.body@) && (
        e[0].member("color"@) matches Some(Json::Int(n)) && (msg.status@ == "down"@ ==> n
            == 0xF26D6D) && (msg.status@ == "up"@ || msg.status@ == "recovered"@ ==> n == 0x35D07F)
            && (msg.status@ != "down"@ && msg.status@ != "up"@ && msg.status@ != "recovered"@ ==> n
            == 0xF5A623))),
{
    reveal_strlit("down");
    reveal_strlit("up");
    reveal_strlit("recovered");
    assert("down"@.len() == 4 && "up"@.len() == 2 && "recovered"@.len() == 9);
    assert(pair_views(r.headers@).len() == r.headers@.len());
}

/// A channel makes the request of its own type, and is kept from it by the lack of its address alone;
/// a type that is not known makes none.
pub proof fn law_channels_make_their_own_request(
    r: HttpRequest,
    channel_type: Seq<char>,
    config: Json,
    msg: NotifyMsg,
)
    ensures
        is_request(r, channel_type, config, msg) && channel_type == "webhook"@
            ==> is_webhook_request(r, config, msg),
        is_request(r, channel_type, config, msg) && channel_type == "discord"@
            ==> is_discord_request(r, config, msg),
        is_request(r, channel_type, config, msg) && channel_type == "ntfy"@ ==> is_ntfy_request(
            r,
            config,
            msg,
        ),
        channel_type == "webhook"@ ==> (obstacle(channel_type, config) is Some <==> config.member_text(
            "url"@,
        ) is None),
        channel_type == "discord"@ ==> (obstacle(channel_type, config) is Some <==> config.member_text(
            "webhook_url"@,
        ) is None),
        channel_type == "ntfy"@ ==> (obstacle(channel_type, config) is Some <==> config.member_text(
            "topic"@,
        ) is None),
        channel_type != "webhook"@ && channel_type != "discord"@ && channel_type != "ntfy"@
            ==> obstacle(channel_type, config) is Some && !is_request(r, channel_type, config, msg),
{
    reveal_strlit("webhook");
    reveal_strlit("discord");
    reveal_strlit("ntfy");
    assert("webhook"@.len() == 7 && "discord"@.len() == 7 && "ntfy"@.len() == 4);
    assert("webhook"@[0] == 'w' && "discord"@[0] == 'd');
}

/// A reply is complained about exactly where it is no success, naming the channel and the status.
pub proof fn law_failures_are_complained_about(
    r: Option<String>,
    channel_type: Seq<char>,
    code: u16,
    status: Seq<char>,
)
    requires
        complains(r, channel_type, code, status),
    ensures
        r is None <==> code / 100 == 2,
        r matches Some(c) ==> text::within(c@, channel_type) && text::within(c@, " returned "@)
            && text::within(c@, status),
{
    if let Some(c) = r {
        let end = other_end(channel_type);
        reveal_strlit("discord");
        reveal_strlit("discord webhook");
        reveal_strlit(" webhook");
        assert("discord webhook"@ =~= "discord"@ + " webhook"@);
        text::law_halves_are_held("discord"@, " webhook"@, "discord"@);
        text::law_halves_are_held(channel_type, Seq::empty(), channel_type);
        text::law_halves_are_held(end, " returned "@, channel_type);
        text::law_halves_are_held(end + " returned "@, status, channel_type);
        text::law_halves_are_held(" returned "@, Seq::empty(), " returned "@);
        text::law_halves_are_held(end, " returned "@, " returned "@);
        text::law_halves_are_held(end + " returned "@, status, " returned "@);
        text::law_halves_are_held(status, Seq::empty(), status);
        text::law_halves_are_held(end + " returned "@, status, status);
    }
}

/// A placeholder is a key between double braces; filling it in puts the value there, as it stands
/// inside a JSON string, and leaves a template without it as it is. Numbers are told in decimals, and
/// a missing one not at all.
pub proof fn law_placeholders_are_filled(template: Seq<char>, key: Seq<char>, value: Seq<char>, n: i64)
    ensures
        filled("{{"@ + key + "}}"@, key, value) == json::escaped(value),
        filled("{{"@ + key + "}}"@ + template, key, value) == json::escaped(value) + filled(
            template,
            key,
            value,
        ),
        !text::within(template, "{{"@ + key + "}}"@) ==> filled(template, key, value) == template,
        number_or_empty(Some(n)) == text::dec(n as int),
        number_or_empty(None).len() == 0,
{
    reveal_strlit("{{");
    let from = "{{"@ + key + "}}"@;
    assert(from.len() >= 2);
    text::law_replacing(template, from, json::escaped(value));
}

} // verus!
