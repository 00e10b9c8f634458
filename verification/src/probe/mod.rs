//! Probes: which prober a monitor takes, what it asks, and what the answer means.

use vstd::prelude::*;

use crate::models::{Cause, ProbeOutcome};
use crate::text;

pub mod dns;
pub mod http;
pub mod tcp;

verus! {

/// A prober.
#[derive(Clone, Copy, Debug, PartialEq, Eq, Structural)]
pub enum Prober {
    Http,
    Tcp,
    Dns,
}

/// The prober of a monitor type.
pub open spec fn prober_of(kind: Seq<char>) -> Prober {
    if kind == "port"@ || kind == "ping"@ {
        Prober::Tcp
    } else if kind == "dns"@ {
        Prober::Dns
    } else {
        Prober::Http
    }
}

/// The prober of a monitor type; an unknown type takes the HTTP prober.
pub fn run(kind: &str) -> (r: Prober)
    ensures
        r == prober_of(kind@),
{
    proof {
        reveal_strlit("dns");
        reveal_strlit("port");
        reveal_strlit("ping");
        assert("dns"@.len() != "port"@.len());
        assert("dns"@.len() != "ping"@.len());
    }
    if text::same(kind, "port") || text::same(kind, "ping") {
        Prober::Tcp
    } else if text::same(kind, "dns") {
        Prober::Dns
    } else {
        Prober::Http
    }
}

/// `o` is a failure for a cause, with its message.
pub open spec fn is_failure(
    o: ProbeOutcome,
    elapsed: Option<i64>,
    message: Seq<char>,
    cause: Cause,
) -> bool {
    &&& !o.ok
    &&& o.response_time_ms == elapsed
    &&& o.status_code is None
    &&& text::view_opt(o.error_message) == Some(message)
    &&& o.resolved_ip is None
    &&& o.cause == Some(cause)
}

/// A failed probe without a reply.
pub fn failure(elapsed: Option<i64>, message: String, cause: Cause) -> (r: ProbeOutcome)
    ensures
        is_failure(r, elapsed, message@, cause),
        r.wf(),
{
    ProbeOutcome {
        ok: false,
        response_time_ms: elapsed,
        status_code: None,
        error_message: Some(message),
        resolved_ip: None,
        cause: Some(cause),
    }
}

/// Ports and pings share a prober, names are looked up, and every other type is asked over HTTP.
pub proof fn law_who_probes(kind: Seq<char>)
    ensures
        prober_of("port"@) == Prober::Tcp,
        prober_of("ping"@) == Prober::Tcp,
        prober_of("dns"@) == Prober::Dns,
        prober_of("http"@) == Prober::Http,
        prober_of("keyword"@) == Prober::Http,
        kind != "port"@ && kind != "ping"@ && kind != "dns"@ ==> prober_of(kind) == Prober::Http,
{
    reveal_strlit("port");
    reveal_strlit("ping");
    reveal_strlit("dns");
    reveal_strlit("http");
    reveal_strlit("keyword");
    assert("dns"@[0] == 'd');
    assert("port"@[0] == 'p');
    assert("ping"@[0] == 'p');
    assert("http"@[0] == 'h');
    assert("keyword"@[0] == 'k');
}

} // verus!
