//! TLS certificate assessment: what the chain that a server presented says, whether its host name
//! matches, and whether it is trusted.

use vstd::prelude::*;

use tokio_rustls::rustls::client::verify_server_cert_signed_by_trust_anchor;
use tokio_rustls::rustls::pki_types::{CertificateDer, UnixTime};
use tokio_rustls::rustls::server::ParsedCertificate;
use tokio_rustls::rustls::RootCertStore;
use x509_parser::prelude::{parse_x509_certificate, GeneralName};

use crate::clock;
use crate::models::{Cause, ProbeOutcome};
use crate::notify;
use crate::notify::own_or;
use crate::probe::failure;
use crate::text;

verus! {

/// What a certificate check found, or why it found nothing.
#[derive(Clone, Debug)]
pub struct SslResult {
    pub issuer: Option<String>,
    pub subject: Option<String>,
    pub valid_from: Option<i64>,
    pub valid_until: Option<i64>,
    pub days_remaining: Option<i64>,
    pub is_valid: bool,
    pub chain_ok: bool,
    pub hostname_match: bool,
    pub self_signed: bool,
    pub error: Option<String>,
}

impl SslResult {
    /// No fact is known.
    pub open spec fn knows_nothing(self) -> bool {
        &&& self.issuer is None
        &&& self.subject is None
        &&& self.valid_from is None
        &&& self.valid_until is None
        &&& self.days_remaining is None
        &&& !self.is_valid
        &&& !self.chain_ok
        &&& !self.hostname_match
        &&& !self.self_signed
    }

    /// The check failed for a reason, and no fact is known.
    pub open spec fn failed_with(self, reason: Seq<char>) -> bool {
        self.knows_nothing() && text::view_opt(self.error) == Some(reason)
    }

    /// A failed check.
    pub fn error(msg: &str) -> (r: Self)
        ensures
            r.failed_with(msg@),
    {
        SslResult {
            issuer: None,
            subject: None,
            valid_from: None,
            valid_until: None,
            days_remaining: None,
            is_valid: false,
            chain_ok: false,
            hostname_match: false,
            self_signed: false,
            error: Some(text::own(msg)),
        }
    }
}

impl Default for SslResult {
    fn default() -> (r: Self)
        ensures
            r.knows_nothing(),
            r.error is None,
    {
        SslResult {
            issuer: None,
            subject: None,
            valid_from: None,
            valid_until: None,
            days_remaining: None,
            is_valid: false,
            chain_ok: false,
            hostname_match: false,
            self_signed: false,
            error: None,
        }
    }
}

/// What can fail before a chain is captured.
#[derive(Clone, Debug)]
pub enum Obstacle {
    Connect(String),
    ConnectTimeout,
    Config(String),
    /// The host as written in the complaint, and why it is no server name.
    ServerName(String, String),
    Handshake(String),
    HandshakeTimeout,
    NothingCaptured,
}

/// The complaint about an obstacle on the way to `host:port`.
pub open spec fn complaint(o: Obstacle, host: Seq<char>, port: u16) -> Seq<char> {
    match o {
        Obstacle::Connect(e) => "connect failed: "@ + e@,
        Obstacle::ConnectTimeout => "timed out connecting to "@ + host + ":"@ + text::dec_nat(
            port as nat,
        ),
        Obstacle::Config(e) => "tls config error: "@ + e@,
        Obstacle::ServerName(h, e) => "invalid server name "@ + h@ + ": "@ + e@,
        Obstacle::Handshake(e) => "tls handshake failed: "@ + e@,
        Obstacle::HandshakeTimeout => "timed out during tls handshake to "@ + host + ":"@
            + text::dec_nat(port as nat),
        Obstacle::NothingCaptured =>
            "tls handshake completed but no certificate chain was captured"@,
    }
}

/// The result of a check that met an obstacle.
pub fn obstructed(o: &Obstacle, host: &str, port: u16) -> (r: SslResult)
    ensures
        r.failed_with(complaint(*o, host@, port)),
{
    let msg = match o {
        Obstacle::Connect(e) => {
            let mut s = text::own("connect failed: ");
            s.append(e.as_str());
            s
        },
        Obstacle::ConnectTimeout => {
            let mut s = text::own("timed out connecting to ");
            s.append(host);
            s.append(":");
            s.append(text::nat_text(port as u64).as_str());
            s
        },
        Obstacle::Config(e) => {
            let mut s = text::own("tls config error: ");
            s.append(e.as_str());
            s
        },
        Obstacle::ServerName(h, e) => {
            let mut s = text::own("invalid server name ");
            s.append(h.as_str());
            s.append(": ");
            s.append(e.as_str());
            s
        },
        Obstacle::Handshake(e) => {
            let mut s = text::own("tls handshake failed: ");
            s.append(e.as_str());
            s
        },
        Obstacle::HandshakeTimeout => {
            let mut s = text::own("timed out during tls handshake to ");
            s.append(host);
            s.append(":");
            s.append(text::nat_text(port as u64).as_str());
            s
        },
        Obstacle::NothingCaptured => text::own(
            "tls handshake completed but no certificate chain was captured",
        ),
    };
    SslResult::error(msg.as_str())
}

// ---- host names ----

/// Whether a certificate's name pattern covers a lower-case host. A leading `*.` stands for exactly
/// one label.
pub open spec fn covers(pattern: Seq<char>, host: Seq<char>) -> bool {
    let p = text::lower(pattern);
    match text::after(p, "*."@) {
        Some(rest) => match text::cut(host, '.') {
            Some((_, tail)) => tail == rest,
            None => false,
        },
        None => p == host,
    }
}

/// Whether a certificate's names cover a host. The alternative names decide where there are any;
/// the common name is asked only where there are none.
pub open spec fn names_cover(
    sans: Seq<Seq<char>>,
    cn: Option<Seq<char>>,
    host: Seq<char>,
) -> bool {
    let h = text::lower(host);
    if sans.len() > 0 {
        exists|k: int| 0 <= k < sans.len() && covers(#[trigger] sans[k], h)
    } else {
        cn matches Some(c) && covers(c, h)
    }
}

fn pattern_matches(pattern: &str, host_lower: &str) -> (r: bool)
    ensures
        r == covers(pattern@, host_lower@),
{
    let p = text::to_lower(pattern);
    match text::strip_prefix(p.as_str(), "*.") {
        Some(rest) => match text::split_once(host_lower, '.') {
            Some((_label, tail)) => text::same(tail.as_str(), rest.as_str()),
            None => false,
        },
        None => text::same(p.as_str(), host_lower),
    }
}

/// Matches a host against a certificate's alternative names, or its common name where it has none.
pub fn hostname_matches(sans: &[String], cn: Option<&str>, host: &str) -> (r: bool)
    ensures
        r == names_cover(
            text::views(sans@),
            match cn {
                Some(c) => Some(c@),
                None => None,
            },
            host@,
        ),
{
    let h = text::to_lower(host);
    if sans.len() > 0 {
        let mut i: usize = 0;
        while i < sans.len()
            invariant
                i <= sans@.len(),
                h@ == text::lower(host@),
                forall|k: int|
                    0 <= k < i ==> !covers(#[trigger] text::views(sans@)[k], h@),
            decreases sans@.len() - i,
        {
            if pattern_matches(sans[i].as_str(), h.as_str()) {
                assert(covers(text::views(sans@)[i as int], h@));
                return true;
            }
            i += 1;
        }
        return false;
    }
    match cn {
        Some(c) => pattern_matches(c, h.as_str()),
        None => false,
    }
}

/// A wildcard matches exactly one label: it covers a name one label below the domain, but neither
/// the domain itself nor a name further below.
pub proof fn law_wildcard_is_one_label(rest: Seq<char>, label: Seq<char>, between: Seq<char>)
    requires
        !label.contains('.'),
        text::lower(rest) == rest,
    ensures
        covers("*."@ + rest, label + seq!['.'] + rest),
        !covers("*."@ + rest, rest),
        !covers("*."@ + rest, label + seq!['.'] + between + seq!['.'] + rest),
{
    reveal_strlit("*.");
    let p = "*."@ + rest;
    assert(text::lower(p) =~= p) by {
        assert forall|i: int| 0 <= i < p.len() implies text::lower(p)[i] == p[i] by {
            if i >= 2 {
                assert(p[i] == rest[i - 2]);
                assert(text::lower(rest)[i - 2] == rest[i - 2]);
            }
        }
    }
    assert(p.subrange(0, 2) =~= "*."@);
    assert(p.subrange(2, p.len() as int) =~= rest);
    lemma_cut_at_label(label, rest);
    lemma_cut_at_label(label, between + seq!['.'] + rest);
    assert(label + seq!['.'] + between + seq!['.'] + rest =~= label + seq!['.'] + (between
        + seq!['.'] + rest));
    assert((between + seq!['.'] + rest).len() > rest.len());
    if rest.contains('.') {
        text::lemma_first_of_bounds(rest, '.');
        assert(rest.skip(text::first_of(rest, '.') + 1).len() < rest.len());
    }
}

proof fn lemma_cut_at_label(label: Seq<char>, tail: Seq<char>)
    requires
        !label.contains('.'),
    ensures
        text::cut(label + seq!['.'] + tail, '.') == Some((label, tail)),
{
    let host = label + seq!['.'] + tail;
    assert forall|k: int| 0 <= k < label.len() implies host[k] != '.' by {
        assert(host[k] == label[k]);
    }
    assert(host[label.len() as int] == '.');
    text::lemma_first_of(host, '.', label.len() as int);
    assert(host.skip(label.len() as int + 1) =~= tail);
    assert(host.take(label.len() as int) =~= label);
}

// ---- the certificate ----

/// What a leaf certificate states. An alternative name that is no DNS name stands as nothing.
#[derive(Clone, Debug)]
pub struct LeafFacts {
    pub issuer: String,
    pub subject: String,
    pub valid_from: i64,
    pub valid_until: i64,
    pub alternative_names: Vec<Option<String>>,
    pub common_name: Option<String>,
}

/// A leaf's facts as mathematics: issuer, subject, validity, alternative names, common name.
pub type LeafView = (
    Seq<char>,
    Seq<char>,
    int,
    int,
    Seq<Option<Seq<char>>>,
    Option<Seq<char>>,
);

impl View for LeafFacts {
    type V = LeafView;

    open spec fn view(&self) -> LeafView {
        (
            self.issuer@,
            self.subject@,
            self.valid_from as int,
            self.valid_until as int,
            self.alternative_names@.map_values(|n: Option<String>| text::view_opt(n)),
            text::view_opt(self.common_name),
        )
    }
}

/// What `x509_parser`'s `parse_x509_certificate` reads from the bytes of a certificate, or its
/// complaint.
pub uninterp spec fn leaf_of(der: Seq<u8>) -> Result<
    (Seq<char>, Seq<char>, int, int, Seq<Option<Seq<char>>>, Option<Seq<char>>),
    Seq<char>,
>;

/// `x509_parser`'s `parse_x509_certificate`, with the issuer, the subject, the validity as seconds,
/// the alternative names, and the first common name of the certificate that it reads.
#[verifier::external_body]
fn parse_leaf(der: &[u8]) -> (r: Result<LeafFacts, String>)
    ensures
        match r {
            Ok(f) => leaf_of(der@) == Ok::<LeafView, Seq<char>>(f@),
            Err(e) => leaf_of(der@) == Err::<LeafView, Seq<char>>(e@),
        },
{
    let cert = parse_x509_certificate(der).map_err(|e| e.to_string())?.1;
    let dns = |g| match g { &GeneralName::DNSName(s) => Some(s.to_string()), _ => None };
    let san = cert.subject_alternative_name().ok().flatten();
    let alternative_names =
        san.map(|e| e.value.general_names.iter().map(dns).collect()).unwrap_or_default();
    let cn = cert.subject.iter_common_name().next().and_then(|a| a.as_str().ok());
    Ok(LeafFacts {
        issuer: cert.issuer.to_string(),
        subject: cert.subject.to_string(),
        valid_from: cert.validity.not_before.timestamp(),
        valid_until: cert.validity.not_after.timestamp(),
        alternative_names,
        common_name: cn.map(String::from),
    })
}

/// Whether `rustls`'s `verify_server_cert_signed_by_trust_anchor` accepts a chain at a time, with
/// the Mozilla roots of `webpki_roots` and the algorithms of the ring provider.
pub uninterp spec fn chain_trusted(leaf: Seq<u8>, intermediates: Seq<Seq<u8>>, now: int) -> bool;

/// The bytes of each certificate.
pub open spec fn ders(chain: Seq<Vec<u8>>) -> Seq<Seq<u8>> {
    chain.map_values(|c: Vec<u8>| c@)
}

/// `rustls`'s `verify_server_cert_signed_by_trust_anchor`: whether the leaf, with the intermediates
/// that came with it, chains to a Mozilla root as of `now`. A leaf that `rustls` cannot parse does
/// not. The host name has no part in it.
#[verifier::external_body]
pub fn verify_chain(leaf: &[u8], intermediates: &Vec<Vec<u8>>, now: u64) -> (r: bool)
    ensures
        r == chain_trusted(leaf@, ders(intermediates@), now as int),
{
    let der = CertificateDer::from(leaf);
    let Ok(parsed) = ParsedCertificate::try_from(&der) else { return false };
    let rest: Vec<CertificateDer> = intermediates.iter().map(|c| CertificateDer::from(c.as_slice())).collect();
    let mut roots = RootCertStore::empty();
    roots.extend(webpki_roots::TLS_SERVER_ROOTS.iter().cloned());
    let at = UnixTime::since_unix_epoch(std::time::Duration::from_secs(now));
    let provider = tokio_rustls::rustls::crypto::ring::default_provider();
    let algorithms = provider.signature_verification_algorithms.all;
    verify_server_cert_signed_by_trust_anchor(&parsed, &roots, &rest, at, algorithms).is_ok()
}

/// The names that are there.
pub open spec fn known(names: Seq<Option<Seq<char>>>) -> Seq<Seq<char>>
    decreases names.len(),
{
    if names.len() == 0 {
        Seq::empty()
    } else {
        let rest = known(names.drop_last());
        match names.last() {
            Some(n) => rest.push(n),
            None => rest,
        }
    }
}

fn known_names(names: &Vec<Option<String>>) -> (r: Vec<String>)
    ensures
        text::views(r@) == known(names@.map_values(|n: Option<String>| text::view_opt(n))),
{
    let mut out: Vec<String> = Vec::new();
    let ghost all = names@.map_values(|n: Option<String>| text::view_opt(n));
    let mut i: usize = 0;
    assert(all.take(0) =~= Seq::<Option<Seq<char>>>::empty());
    assert(text::views(out@) =~= Seq::<Seq<char>>::empty());
    while i < names.len()
        invariant
            i <= names@.len(),
            all == names@.map_values(|n: Option<String>| text::view_opt(n)),
            text::views(out@) == known(all.take(i as int)),
        decreases names@.len() - i,
    {
        assert(all.take(i + 1).drop_last() =~= all.take(i as int));
        assert(all.take(i + 1).last() == text::view_opt(names@[i as int]));
        if let Some(n) = &names[i] {
            let ghost before = text::views(out@);
            let piece = text::own(n.as_str());
            let ghost view = piece@;
            out.push(piece);
            assert(text::views(out@) =~= before.push(view));
        }
        i += 1;
    }
    assert(all.take(names@.len() as int) =~= all);
    out
}

/// `r` is what a leaf's facts, the chain's trust and the time say of a host.
pub open spec fn assessed(
    r: SslResult,
    f: LeafView,
    chain_len: int,
    trusted: bool,
    host: Seq<char>,
    now: int,
) -> bool {
    let (issuer, subject, from, until, names, cn) = f;
    &&& text::view_opt(r.issuer) == Some(issuer)
    &&& text::view_opt(r.subject) == Some(subject)
    &&& r.valid_from matches Some(v) && v == from
    &&& r.valid_until matches Some(v) && v == until
    &&& r.days_remaining matches Some(v) && v == (until - now) / (clock::DAY_SECONDS as int)
    &&& r.hostname_match == names_cover(known(names), cn, host)
    &&& r.self_signed == (issuer == subject || chain_len == 1)
    &&& r.chain_ok == trusted
    &&& r.is_valid == (from <= now <= until && trusted && names_cover(known(names), cn, host))
    &&& r.error is None
}

/// Assesses a leaf certificate. The days remaining are rounded down, so a certificate that expired
/// within the last day has a negative number of them.
pub fn assess(leaf: &LeafFacts, chain_len: usize, chain_ok: bool, host: &str, now: i64) -> (r:
    SslResult)
    ensures
        assessed(r, leaf@, chain_len as int, chain_ok, host@, now as int),
{
    let sans = known_names(&leaf.alternative_names);
    let hostname_match = match &leaf.common_name {
        Some(c) => hostname_matches(sans.as_slice(), Some(c.as_str()), host),
        None => hostname_matches(sans.as_slice(), None, host),
    };
    let self_signed = text::same(leaf.issuer.as_str(), leaf.subject.as_str()) || chain_len == 1;
    let days_remaining = clock::days_until(leaf.valid_until, now);
    let is_valid = now >= leaf.valid_from && now <= leaf.valid_until && chain_ok && hostname_match;
    SslResult {
        issuer: Some(text::own(leaf.issuer.as_str())),
        subject: Some(text::own(leaf.subject.as_str())),
        valid_from: Some(leaf.valid_from),
        valid_until: Some(leaf.valid_until),
        days_remaining: Some(days_remaining),
        is_valid,
        chain_ok,
        hostname_match,
        self_signed,
        error: None,
    }
}

/// `r` is what a captured chain says of a host at a time.
pub open spec fn checked(r: SslResult, chain: Seq<Seq<u8>>, host: Seq<char>, now: int) -> bool {
    if chain.len() == 0 {
        r.failed_with("server presented an empty certificate chain"@)
    } else {
        match leaf_of(chain[0]) {
            Err(e) => r.failed_with("failed to parse leaf certificate: "@ + e),
            Ok(f) => assessed(
                r,
                f,
                chain.len() as int,
                chain_trusted(
                    chain[0],
                    chain.subrange(1, chain.len() as int),
                    if now > 0 {
                        now
                    } else {
                        0
                    },
                ),
                host,
                now,
            ),
        }
    }
}

/// Checks the chain that a server presented, leaf first, for a host as of `now`.
pub fn check(host: &str, chain: &Vec<Vec<u8>>, now: i64) -> (r: SslResult)
    ensures
        checked(r, ders(chain@), host@, now as int),
{
    let n: usize = chain.len();
    if n == 0 {
        return SslResult::error("server presented an empty certificate chain");
    }
    let ghost all = ders(chain@);
    assert(all[0] == chain@[0]@);
    let leaf = match parse_leaf(chain[0].as_slice()) {
        Ok(f) => f,
        Err(e) => {
            let mut msg = text::own("failed to parse leaf certificate: ");
            msg.append(e.as_str());
            return SslResult::error(msg.as_str());
        },
    };
    let mut rest: Vec<Vec<u8>> = Vec::new();
    let mut i: usize = 1;
    while i < n
        invariant
            n == chain@.len(),
            1 <= i <= n,
            all == ders(chain@),
            ders(rest@) == all.subrange(1, i as int),
        decreases n - i,
    {
        let ghost before = ders(rest@);
        let piece = copy_bytes(&chain[i]);
        let ghost view = piece@;
        rest.push(piece);
        assert(ders(rest@) =~= before.push(view));
        assert(all.subrange(1, i + 1) =~= before.push(view));
        i += 1;
    }
    let at: u64 = if now > 0 {
        now as u64
    } else {
        0
    };
    let trusted = verify_chain(chain[0].as_slice(), &rest, at);
    assess(&leaf, n, trusted, host, now)
}

fn copy_bytes(v: &Vec<u8>) -> (r: Vec<u8>)
    ensures
        r@ == v@,
{
    let mut out: Vec<u8> = Vec::new();
    let mut i: usize = 0;
    while i < v.len()
        invariant
            i <= v@.len(),
            out@ == v@.take(i as int),
        decreases v@.len() - i,
    {
        out.push(v[i]);
        i += 1;
    }
    assert(v@.take(v@.len() as int) =~= v@);
    out
}

/// `r` is what a certificate check says of its monitor.
pub open spec fn is_verdict(r: ProbeOutcome, check: SslResult, elapsed: i64) -> bool {
    &&& r.wf()
    &&& r.ok == check.is_valid
    &&& r.response_time_ms == Some(elapsed)
    &&& r.status_code is None
    &&& r.resolved_ip is None
    &&& text::view_opt(r.error_message) == (if check.is_valid {
        None
    } else {
        Some(notify::text_or(check.error, "certificate is not valid"@))
    })
    &&& r.cause == (if check.is_valid {
        None
    } else {
        Some(Cause::Ssl)
    })
}

/// Judges a certificate monitor by its check: it is up where the certificate is valid.
pub fn ssl_probe(check: &SslResult, elapsed: i64) -> (r: ProbeOutcome)
    ensures
        is_verdict(r, *check, elapsed),
{
    if check.is_valid {
        ProbeOutcome {
            ok: true,
            response_time_ms: Some(elapsed),
            status_code: None,
            error_message: None,
            resolved_ip: None,
            cause: None,
        }
    } else {
        failure(Some(elapsed), own_or(&check.error, "certificate is not valid"), Cause::Ssl)
    }
}

/// Validity means all of it: inside the validity period, trusted, and for this host.
pub proof fn law_valid_means_trusted_current_and_named(
    r: SslResult,
    f: LeafView,
    chain_len: int,
    trusted: bool,
    host: Seq<char>,
    now: int,
)
    requires
        assessed(r, f, chain_len, trusted, host, now),
    ensures
        r.is_valid ==> r.chain_ok && r.hostname_match && r.days_remaining is Some
            && r.days_remaining->0 >= 0,
{
}

/// What a check says of a certificate is what the certificate states: who issued it and to whom, from
/// when until when, the whole days that are left, whether it is its own issuer or came alone, and
/// whether it is trusted; and it is valid exactly where it is current, trusted and for the host.
pub proof fn law_assessment_follows_the_certificate(
    r: SslResult,
    f: LeafView,
    chain_len: int,
    trusted: bool,
    host: Seq<char>,
    now: int,
)
    requires
        assessed(r, f, chain_len, trusted, host, now),
    ensures
        r.issuer is Some && r.issuer->0@ == f.0,
        r.subject is Some && r.subject->0@ == f.1,
        r.valid_from is Some && r.valid_from->0 == f.2,
        r.valid_until is Some && r.valid_until->0 == f.3,
        r.days_remaining is Some && r.days_remaining->0 * 86400 <= f.3 - now < (r.days_remaining->0
            + 1) * 86400,
        f.3 < now ==> r.days_remaining->0 < 0,
        r.self_signed <==> f.0 == f.1 || chain_len == 1,
        r.chain_ok <==> trusted,
        r.hostname_match <==> names_cover(known(f.4), f.5, host),
        r.is_valid <==> f.2 <= now && now <= f.3 && r.chain_ok && r.hostname_match,
        r.error is None,
{
}

/// Names that are no DNS names do not count, and the rest keep their order.
pub proof fn law_known_names(a: Seq<Option<Seq<char>>>, b: Seq<Option<Seq<char>>>, n: Seq<char>)
    ensures
        known(a + b) == known(a) + known(b),
        known(seq![Some(n)]) == seq![n],
        known(seq![None]).len() == 0,
    decreases b.len(),
{
    reveal_with_fuel(known, 2);
    let one = seq![Some(n)];
    assert(one.drop_last() =~= Seq::<Option<Seq<char>>>::empty());
    assert(known(one) =~= seq![n]);
    assert(seq![None::<Seq<char>>].drop_last() =~= Seq::<Option<Seq<char>>>::empty());
    if b.len() == 0 {
        assert(a + b =~= a);
        assert(known(a) + known(b) =~= known(a));
    } else {
        law_known_names(a, b.drop_last(), n);
        assert((a + b).drop_last() =~= a + b.drop_last());
        assert(known(a + b) =~= known(a) + known(b));
    }
}

/// The alternative names decide where there are any, each by itself; the common name is asked only
/// where there are none. Case does not matter, and a plain name covers itself alone.
pub proof fn law_names_of_a_host(
    sans: Seq<Seq<char>>,
    one: Seq<char>,
    cn: Option<Seq<char>>,
    host: Seq<char>,
)
    ensures
        names_cover(sans.push(one), cn, host) <==> covers(one, text::lower(host)) || (sans.len() > 0
            && names_cover(sans, cn, host)),
        sans.len() > 0 ==> names_cover(sans, cn, host) == names_cover(sans, None, host),
        names_cover(Seq::empty(), None, host) == false,
        cn matches Some(c) ==> (names_cover(Seq::empty(), cn, host) <==> covers(
            c,
            text::lower(host),
        )),
        text::after(text::lower(one), "*."@) is None ==> (covers(one, text::lower(host))
            <==> text::lower(one) == text::lower(host)),
{
    let h = text::lower(host);
    let all = sans.push(one);
    if names_cover(all, cn, host) {
        let k = choose|k: int| 0 <= k < all.len() && covers(#[trigger] all[k], h);
        if k < sans.len() {
            assert(covers(sans[k], h));
        }
    }
    if covers(one, h) {
        assert(covers(all[sans.len() as int], h));
    }
    if sans.len() > 0 && names_cover(sans, cn, host) {
        let k = choose|k: int| 0 <= k < sans.len() && covers(#[trigger] sans[k], h);
        assert(covers(all[k], h));
    }
}

/// A chain that is empty or whose leaf cannot be read says why and nothing else; any other is judged
/// by its leaf, with the rest of the chain as what vouches for it.
pub proof fn law_checked_chain(r: SslResult, chain: Seq<Seq<u8>>, host: Seq<char>, now: int)
    requires
        checked(r, chain, host, now),
    ensures
        chain.len() == 0 || leaf_of(chain[0]) is Err ==> r.error is Some && !r.is_valid && !r.chain_ok
            && !r.hostname_match && !r.self_signed && r.days_remaining is None && r.issuer is None,
        chain.len() > 0 && leaf_of(chain[0]) is Ok ==> r.error is None && r.issuer is Some,
        chain.len() > 0 && leaf_of(chain[0]) is Ok && now > 0 ==> r.chain_ok == chain_trusted(
            chain[0],
            chain.subrange(1, chain.len() as int),
            now,
        ),
{
}

/// A certificate monitor is up exactly while its certificate is valid; where it is not, its failure is
/// one of the certificate and says what the check said.
pub proof fn law_certificate_verdict(r: ProbeOutcome, check: SslResult, elapsed: i64)
    requires
        is_verdict(r, check, elapsed),
    ensures
        r.ok <==> check.is_valid,
        r.response_time_ms == Some(elapsed),
        r.status_code is None && r.resolved_ip is None,
        check.is_valid ==> r.cause is None && r.error_message is None,
        !check.is_valid ==> r.cause == Some(Cause::Ssl) && r.error_message is Some,
        !check.is_valid ==> (check.error matches Some(e) ==> r.error_message->0@ == e@),
{
}

/// A check that met an obstacle says which, and where: what the other side said is passed on, and a
/// timeout names the host and the port.
pub proof fn law_obstacles_are_told(o: Obstacle, host: Seq<char>, port: u16)
    ensures
        o matches Obstacle::Connect(e) ==> complaint(o, host, port) == "connect failed: "@ + e@,
        o matches Obstacle::Config(e) ==> complaint(o, host, port) == "tls config error: "@ + e@,
        o matches Obstacle::Handshake(e) ==> complaint(o, host, port) == "tls handshake failed: "@ + e@,
        o matches Obstacle::ServerName(h, e) ==> complaint(o, host, port) == "invalid server name "@
            + h@ + ": "@ + e@,
        o is ConnectTimeout ==> complaint(o, host, port) == "timed out connecting to "@ + host + ":"@
            + text::dec(port as int),
        o is HandshakeTimeout ==> complaint(o, host, port) == "timed out during tls handshake to "@
            + host + ":"@ + text::dec(port as int),
        o is NothingCaptured ==> complaint(o, host, port)
            == "tls handshake completed but no certificate chain was captured"@,
{
}

} // verus!
