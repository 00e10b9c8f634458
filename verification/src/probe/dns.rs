//! The DNS prober: what is asked, how records read as text, and what the answer means.

use vstd::prelude::*;

use crate::models::{Cause, Monitor, ProbeOutcome};
use crate::probe;
use crate::probe::failure;
use crate::text;

verus! {

/// What a DNS probe asks.
#[derive(Clone, Debug)]
pub struct Question {
    pub host: String,
    pub record_type: String,
}

/// What a DNS probe got.
#[derive(Clone, Debug)]
pub enum DnsReply {
    TimedOut,
    Failed(String),
    Records(Vec<String>),
}

/// `o` reports a monitor that cannot be asked about.
pub open spec fn unaskable(m: Monitor) -> Option<Seq<char>> {
    if m.host is None {
        Some("monitor has no host configured"@)
    } else if m.dns_record_type is None {
        Some("monitor has no dns_record_type configured"@)
    } else {
        None
    }
}

/// `r` is what to ask about a monitor, or the outcome where it cannot be asked about.
pub open spec fn asks(m: Monitor, r: Result<Question, ProbeOutcome>) -> bool {
    &&& r is Ok <==> unaskable(m) is None
    &&& r matches Ok(q) ==> text::view_opt(m.host) == Some(q.host@) && text::view_opt(
        m.dns_record_type,
    ) == Some(q.record_type@)
    &&& r matches Err(o) ==> probe::is_failure(o, None, unaskable(m)->0, Cause::Dns) && o.wf()
}

/// What to ask about a monitor, or the outcome where it names no host or record type.
pub fn question(m: &Monitor) -> (r: Result<Question, ProbeOutcome>)
    ensures
        asks(*m, r),
{
    match &m.host {
        None => Err(failure(None, text::own("monitor has no host configured"), Cause::Dns)),
        Some(host) => match &m.dns_record_type {
            None => Err(
                failure(None, text::own("monitor has no dns_record_type configured"), Cause::Dns),
            ),
            Some(t) => Ok(
                Question { host: text::own(host.as_str()), record_type: text::own(t.as_str()) },
            ),
        },
    }
}

/// A record type whose answers are addresses.
pub open spec fn is_address_type(record_type: Seq<char>) -> bool {
    text::upper(record_type) == "A"@ || text::upper(record_type) == "AAAA"@
}

/// A record that holds the expected value, whatever the case; every record does where none is
/// expected.
pub open spec fn matched(records: Seq<Seq<char>>, expected: Option<Seq<char>>) -> bool {
    match expected {
        None => true,
        Some(e) => exists|i: int|
            0 <= i < records.len() && text::within(#[trigger] text::lower(records[i]), text::lower(e)),
    }
}

/// `o` reports what records mean for a monitor.
pub open spec fn is_verdict(
    o: ProbeOutcome,
    m: Monitor,
    record_type: Seq<char>,
    elapsed: i64,
    records: Seq<Seq<char>>,
) -> bool {
    let hit = matched(records, text::view_opt(m.dns_expected_value));
    &&& o.ok == hit
    &&& o.response_time_ms == Some(elapsed)
    &&& o.status_code is None
    &&& text::view_opt(o.error_message) == (if hit {
        None
    } else {
        Some("expected value not found"@)
    })
    &&& text::view_opt(o.resolved_ip) == (if is_address_type(record_type) {
        Some(records[0])
    } else {
        None
    })
    &&& o.cause == (if hit {
        None
    } else {
        Some(Cause::Dns)
    })
}

fn any_matches(records: &Vec<String>, expected: &Option<String>) -> (r: bool)
    ensures
        r == matched(text::views(records@), text::view_opt(*expected)),
{
    match expected {
        None => true,
        Some(e) => {
            let wanted = text::to_lower(e.as_str());
            let mut i: usize = 0;
            while i < records.len()
                invariant
                    i <= records@.len(),
                    text::view_opt(*expected) == Some(e@),
                    wanted@ == text::lower(e@),
                    forall|k: int|
                        0 <= k < i ==> !text::within(
                            #[trigger] text::lower(text::views(records@)[k]),
                            wanted@,
                        ),
                decreases records@.len() - i,
            {
                let low = text::to_lower(records[i].as_str());
                assert(low@ == text::lower(text::views(records@)[i as int]));
                if text::contains(low.as_str(), wanted.as_str()) {
                    assert(text::within(
                        text::lower(text::views(records@)[i as int]),
                        text::lower(e@),
                    ));
                    return true;
                }
                i += 1;
            }
            false
        },
    }
}

/// `o` reports a reply.
pub open spec fn reports(
    o: ProbeOutcome,
    m: Monitor,
    record_type: Seq<char>,
    elapsed: i64,
    reply: DnsReply,
) -> bool {
    match reply {
        DnsReply::TimedOut => probe::is_failure(
            o,
            Some(elapsed),
            "dns resolve timed out"@,
            Cause::Timeout,
        ),
        DnsReply::Failed(e) => probe::is_failure(o, Some(elapsed), e@, Cause::Dns),
        DnsReply::Records(v) => if v@.len() == 0 {
            probe::is_failure(o, Some(elapsed), "no records"@, Cause::Dns)
        } else {
            is_verdict(o, m, record_type, elapsed, text::views(v@))
        },
    }
}

/// What a reply means for a monitor.
///
/// A timeout and a failed lookup are failures, and so is an answer without records. With records,
/// the probe passes where one holds the expected value, or none is expected. The first address is
/// kept.
pub fn probe_with(m: &Monitor, record_type: &str, elapsed: i64, reply: DnsReply) -> (r: ProbeOutcome)
    ensures
        r.wf(),
        reports(r, *m, record_type@, elapsed, reply),
{
    match reply {
        DnsReply::TimedOut => failure(
            Some(elapsed),
            text::own("dns resolve timed out"),
            Cause::Timeout,
        ),
        DnsReply::Failed(e) => failure(Some(elapsed), e, Cause::Dns),
        DnsReply::Records(records) => {
            if records.len() == 0 {
                return failure(Some(elapsed), text::own("no records"), Cause::Dns);
            }
            let kind = text::to_upper(record_type);
            let resolved_ip = if text::same(kind.as_str(), "A") || text::same(
                kind.as_str(),
                "AAAA",
            ) {
                Some(text::own(records[0].as_str()))
            } else {
                None
            };
            assert(text::views(records@)[0] == records@[0]@);
            if any_matches(&records, &m.dns_expected_value) {
                ProbeOutcome {
                    ok: true,
                    response_time_ms: Some(elapsed),
                    status_code: None,
                    error_message: None,
                    resolved_ip,
                    cause: None,
                }
            } else {
                ProbeOutcome {
                    ok: false,
                    response_time_ms: Some(elapsed),
                    status_code: None,
                    error_message: Some(text::own("expected value not found")),
                    resolved_ip,
                    cause: Some(Cause::Dns),
                }
            }
        },
    }
}

/// A record of an answer.
#[derive(Clone, Debug)]
pub enum DnsRecord {
    /// An IPv4 or IPv6 address.
    Address(String),
    /// The target of an alias, or a name server.
    Name(String),
    /// A mail exchange.
    Mail(u16, String),
    /// The pieces of a text, which may be any bytes.
    Text(Vec<Vec<u8>>),
    /// Any other record.
    Other,
}

/// A name without the dots at its end.
pub open spec fn undotted(s: Seq<char>) -> Seq<char>
    decreases s.len(),
{
    if s.len() > 0 && s.last() == '.' {
        undotted(s.drop_last())
    } else {
        s
    }
}

fn trim_dots(s: &str) -> (r: String)
    ensures
        r@ == undotted(s@),
{
    let v = text::chars(s);
    let mut n: usize = v.len();
    assert(v@.take(v@.len() as int) =~= v@);
    while n > 0 && v[n - 1] == '.'
        invariant
            n <= v@.len(),
            undotted(v@.take(n as int)) == undotted(v@),
        decreases n,
    {
        assert(v@.take(n as int).drop_last() =~= v@.take(n - 1));
        n -= 1;
    }
    assert(v@.subrange(0, n as int) =~= v@.take(n as int));
    text::collect(&v, 0, n)
}

/// Pieces of text, one after the other.
pub open spec fn concatenated(v: Seq<Seq<char>>) -> Seq<char>
    decreases v.len(),
{
    if v.len() == 0 {
        Seq::empty()
    } else {
        concatenated(v.drop_last()) + v.last()
    }
}

/// Pieces of bytes as text.
pub open spec fn decoded(v: Seq<Vec<u8>>) -> Seq<Seq<char>> {
    v.map_values(|piece: Vec<u8>| text::lossy(piece@))
}

/// How a record reads as text; records of other types have none.
pub open spec fn record_form(d: DnsRecord) -> Option<Seq<char>> {
    match d {
        DnsRecord::Address(a) => Some(a@),
        DnsRecord::Name(n) => Some(undotted(n@)),
        DnsRecord::Mail(p, x) => Some(text::dec_nat(p as nat) + " "@ + undotted(x@)),
        DnsRecord::Text(v) => Some(concatenated(decoded(v@))),
        DnsRecord::Other => None,
    }
}

fn decode(v: &Vec<Vec<u8>>) -> (r: Vec<String>)
    ensures
        text::views(r@) == decoded(v@),
{
    let mut r: Vec<String> = Vec::new();
    let mut i: usize = 0;
    while i < v.len()
        invariant
            i <= v@.len(),
            r@.len() == i,
            forall|k: int| 0 <= k < i ==> (#[trigger] r@[k])@ == text::lossy(v@[k]@),
        decreases v@.len() - i,
    {
        r.push(text::decode_lossy(v[i].as_slice()));
        i += 1;
    }
    assert(text::views(r@) =~= decoded(v@));
    r
}

/// Joins pieces of text, one after the other.
pub fn join_pieces(v: &Vec<String>) -> (r: String)
    ensures
        r@ == concatenated(text::views(v@)),
{
    let ghost all = text::views(v@);
    let mut r = String::new();
    let mut i: usize = 0;
    assert(r@ =~= concatenated(all.take(0)));
    while i < v.len()
        invariant
            i <= v@.len(),
            all == text::views(v@),
            r@ == concatenated(all.take(i as int)),
        decreases v@.len() - i,
    {
        assert(all.take(i + 1).drop_last() =~= all.take(i as int));
        r.append(v[i].as_str());
        i += 1;
    }
    assert(all.take(all.len() as int) =~= all);
    r
}

/// Reads a record as text.
pub fn record_text(d: &DnsRecord) -> (r: Option<String>)
    ensures
        text::view_opt(r) == record_form(*d),
{
    match d {
        DnsRecord::Address(a) => Some(text::own(a.as_str())),
        DnsRecord::Name(n) => Some(trim_dots(n.as_str())),
        DnsRecord::Mail(p, x) => {
            let exchange = trim_dots(x.as_str());
            let mut s = text::nat_text(*p as u64);
            s.append(" ");
            s.append(exchange.as_str());
            Some(s)
        },
        DnsRecord::Text(v) => Some(join_pieces(&decode(v))),
        DnsRecord::Other => None,
    }
}

/// The forms of the records that have one, in order.
pub open spec fn forms(v: Seq<DnsRecord>) -> Seq<Seq<char>>
    decreases v.len(),
{
    if v.len() == 0 {
        Seq::empty()
    } else {
        match record_form(v.last()) {
            Some(f) => forms(v.drop_last()).push(f),
            None => forms(v.drop_last()),
        }
    }
}

/// The records of an answer as text, without those of other types.
pub fn real_resolve(answers: &Vec<DnsRecord>) -> (r: Vec<String>)
    ensures
        text::views(r@) == forms(answers@),
{
    let mut r: Vec<String> = Vec::new();
    let mut i: usize = 0;
    assert(text::views(r@) =~= forms(answers@.take(0)));
    while i < answers.len()
        invariant
            i <= answers@.len(),
            text::views(r@) == forms(answers@.take(i as int)),
        decreases answers@.len() - i,
    {
        let ghost before = text::views(r@);
        assert(answers@.take(i + 1).drop_last() =~= answers@.take(i as int));
        if let Some(f) = record_text(&answers[i]) {
            let ghost form = f@;
            r.push(f);
            assert(text::views(r@) =~= before.push(form));
        }
        i += 1;
    }
    assert(answers@.take(answers@.len() as int) =~= answers@);
    r
}

/// The error of a record type that the resolver does not know.
pub fn invalid_type(record_type: &str, error: &str) -> (r: String)
    ensures
        r@ == "invalid dns_record_type '"@ + record_type@ + "': "@ + error@,
{
    let mut s = text::own("invalid dns_record_type '");
    s.append(record_type);
    s.append("': ");
    s.append(error);
    s
}

/// A lookup passes exactly where it found a record and, if the monitor expects a value, one of the
/// records holds it in either case. The first record is kept as the address where addresses were
/// asked for.
pub proof fn law_records_decide(
    o: ProbeOutcome,
    m: Monitor,
    record_type: Seq<char>,
    elapsed: i64,
    reply: DnsReply,
)
    requires
        reports(o, m, record_type, elapsed, reply),
    ensures
        o.response_time_ms == Some(elapsed),
        o.status_code is None,
        o.ok <==> (reply matches DnsReply::Records(v) && v@.len() > 0 && (m.dns_expected_value
            is None || exists|i: int|
            0 <= i < v@.len() && text::within(
                text::lower(#[trigger] v@[i]@),
                text::lower((m.dns_expected_value->0)@),
            ))),
        o.ok ==> o.cause is None && o.error_message is None,
        !o.ok ==> o.cause == Some(
            if reply is TimedOut {
                Cause::Timeout
            } else {
                Cause::Dns
            },
        ) && o.error_message is Some,
        reply is TimedOut ==> (o.error_message->0)@ == "dns resolve timed out"@,
        reply matches DnsReply::Failed(e) ==> (o.error_message->0)@ == e@,
        reply matches DnsReply::Records(v) ==> (v@.len() == 0 ==> (o.error_message->0)@
            == "no records"@),
        reply matches DnsReply::Records(v) ==> (v@.len() > 0 && !o.ok ==> (o.error_message->0)@
            == "expected value not found"@),
        o.resolved_ip is Some <==> (reply matches DnsReply::Records(v) && v@.len() > 0 && (
        text::upper(record_type) == "A"@ || text::upper(record_type) == "AAAA"@)),
        o.resolved_ip matches Some(ip) ==> ip@ == (reply->Records_0)@[0]@,
{
    if reply is Records {
        let v = reply->Records_0;
        let records = text::views(v@);
        assert(records.len() == v@.len());
        assert(forall|i: int| 0 <= i < v@.len() ==> records[i] == #[trigger] v@[i]@);
        if v@.len() > 0 {
            if m.dns_expected_value is Some {
                let e = text::lower((m.dns_expected_value->0)@);
                if exists|i: int| 0 <= i < v@.len() && text::within(text::lower(#[trigger] v@[i]@), e) {
                    let i = choose|i: int|
                        0 <= i < v@.len() && text::within(text::lower(#[trigger] v@[i]@), e);
                    assert(text::within(text::lower(records[i]), e));
                }
                if matched(records, text::view_opt(m.dns_expected_value)) {
                    let i = choose|i: int|
                        0 <= i < records.len() && text::within(
                            #[trigger] text::lower(records[i]),
                            e,
                        );
                    assert(text::within(text::lower(v@[i]@), e));
                }
            }
            if !o.ok {
                assert(text::view_opt(o.error_message) == Some("expected value not found"@));
            }
        }
    }
    if !o.ok {
        assert(text::view_opt(o.error_message) is Some);
    }
}

/// A monitor is asked about exactly where it names a host and a record type, and is told which of the
/// two is missing, the host first.
pub proof fn law_what_a_lookup_needs(m: Monitor)
    ensures
        unaskable(m) is None <==> m.host is Some && m.dns_record_type is Some,
        m.host is None ==> unaskable(m) == Some("monitor has no host configured"@),
        m.host is Some && m.dns_record_type is None ==> unaskable(m) == Some(
            "monitor has no dns_record_type configured"@,
        ),
{
}

/// Records read one by one, in order: an address as it is, a name without the dot at its end, a
/// mail exchange behind its preference, and a record of another type not at all.
pub proof fn law_records_are_read(v: Seq<DnsRecord>, d: DnsRecord, name: Seq<char>)
    requires
        name.len() == 0 || name.last() != '.',
    ensures
        forms(Seq::empty()).len() == 0,
        d is Other ==> forms(v.push(d)) == forms(v),
        d matches DnsRecord::Address(a) ==> forms(v.push(d)) == forms(v).push(a@),
        d matches DnsRecord::Name(n) ==> (n@ == name || n@ == name.push('.') ==> forms(v.push(d))
            == forms(v).push(name)),
        d matches DnsRecord::Mail(preference, n) ==> (n@ == name || n@ == name.push('.') ==> forms(
            v.push(d),
        ) == forms(v).push(text::dec(preference as int) + " "@ + name)),
{
    assert(v.push(d).drop_last() =~= v);
    assert(undotted(name) == name);
    assert(name.push('.').drop_last() =~= name);
    assert(undotted(name.push('.')) == name);
}

/// The pieces of a text record are read one after the other, with nothing between them.
pub proof fn law_pieces_follow_each_other(v: Seq<Vec<u8>>, piece: Vec<u8>)
    ensures
        concatenated(decoded(Seq::empty())).len() == 0,
        concatenated(decoded(v.push(piece))) == concatenated(decoded(v)) + text::lossy(piece@),
{
    assert(decoded(v.push(piece)).drop_last() =~= decoded(v));
    assert(decoded(v.push(piece)).last() == text::lossy(piece@));
}

/// A lookup asks for the record type of the monitor at its host; a monitor that lacks one of them
/// fails, without a time.
pub proof fn law_lookup_asks_for_its_monitor(m: Monitor, r: Result<Question, ProbeOutcome>)
    requires
        asks(m, r),
    ensures
        r is Ok <==> m.host is Some && m.dns_record_type is Some,
        r matches Ok(q) ==> q.host@ == (m.host->0)@ && q.record_type@ == (m.dns_record_type->0)@,
        r matches Err(o) ==> !o.ok && o.cause == Some(Cause::Dns) && o.response_time_ms is None,
{
}

} // verus!
