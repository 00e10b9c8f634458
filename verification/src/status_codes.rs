//! Parser for HTTP status-code specifications such as `200-299,301,418`, whose ranges include
//! both ends.

use vstd::prelude::*;

use crate::text;

verus! {

/// A number as a status code.
pub open spec fn code(s: Seq<char>) -> Option<u16> {
    match text::unsigned(s, 65535) {
        Some(n) => Some(n as u16),
        None => None,
    }
}

/// The range that one token writes, or why it writes none.
pub open spec fn token_range(token: Seq<char>) -> Result<(u16, u16), Seq<char>> {
    let t = text::trimmed(token);
    if t.contains('-') {
        let parts = text::split(t, '-');
        if parts.len() != 2 {
            Err("Invalid range: "@ + t)
        } else {
            match (code(parts[0]), code(parts[1])) {
                (None, _) => Err("Invalid start in range: "@ + t),
                (Some(_), None) => Err("Invalid end in range: "@ + t),
                (Some(a), Some(b)) => if a > b {
                    Err("Invalid range (start > end): "@ + t)
                } else {
                    Ok((a, b))
                },
            }
        }
    } else {
        match code(t) {
            Some(c) => Ok((c, c)),
            None => Err("Invalid status code: "@ + t),
        }
    }
}

/// The ranges of every token, or the complaint about the first bad one.
pub open spec fn token_ranges(tokens: Seq<Seq<char>>) -> Result<Seq<(u16, u16)>, Seq<char>>
    decreases tokens.len(),
{
    if tokens.len() == 0 {
        Ok(Seq::empty())
    } else {
        match token_ranges(tokens.drop_last()) {
            Err(e) => Err(e),
            Ok(v) => match token_range(tokens.last()) {
                Err(e) => Err(e),
                Ok(p) => Ok(v.push(p)),
            },
        }
    }
}

/// The ranges that a specification writes.
pub open spec fn expected(spec: Seq<char>) -> Result<Seq<(u16, u16)>, Seq<char>> {
    token_ranges(text::split(spec, ','))
}

fn complaint(what: &str, token: &str) -> (r: String)
    ensures
        r@ == what@ + token@,
{
    let mut s = text::own(what);
    s.append(token);
    s
}

fn holds_char(s: &str, c: char) -> (r: bool)
    ensures
        r == s@.contains(c),
{
    text::split_once(s, c).is_some()
}

fn parse_token(token: &str) -> (r: Result<(u16, u16), String>)
    ensures
        match r {
            Ok(p) => token_range(token@) == Ok::<(u16, u16), Seq<char>>(p),
            Err(e) => token_range(token@) == Err::<(u16, u16), Seq<char>>(e@),
        },
{
    let t = text::trim(token);
    if holds_char(t.as_str(), '-') {
        let parts = text::split_on(t.as_str(), '-');
        assert(text::views(parts@).len() == parts@.len());
        if parts.len() != 2 {
            return Err(complaint("Invalid range: ", t.as_str()));
        }
        assert(text::views(parts@)[0] == parts@[0]@);
        assert(text::views(parts@)[1] == parts@[1]@);
        let start: u16 = match text::parse_u16(parts[0].as_str()) {
            Some(n) => n,
            None => {
                return Err(complaint("Invalid start in range: ", t.as_str()));
            },
        };
        let end: u16 = match text::parse_u16(parts[1].as_str()) {
            Some(n) => n,
            None => {
                return Err(complaint("Invalid end in range: ", t.as_str()));
            },
        };
        if start > end {
            return Err(complaint("Invalid range (start > end): ", t.as_str()));
        }
        Ok((start, end))
    } else {
        match text::parse_u16(t.as_str()) {
            Some(c) => Ok((c, c)),
            None => Err(complaint("Invalid status code: ", t.as_str())),
        }
    }
}

/// Parses a comma-separated list of status codes and ranges.
pub fn parse_expected(spec: &str) -> (r: Result<Vec<(u16, u16)>, String>)
    ensures
        match r {
            Ok(v) => expected(spec@) == Ok::<Seq<(u16, u16)>, Seq<char>>(v@),
            Err(e) => expected(spec@) == Err::<Seq<(u16, u16)>, Seq<char>>(e@),
        },
{
    let tokens = text::split_on(spec, ',');
    let mut out: Vec<(u16, u16)> = Vec::new();
    let mut i: usize = 0;
    let ghost all = text::split(spec@, ',');
    assert(all.take(0) =~= Seq::<Seq<char>>::empty());
    while i < tokens.len()
        invariant
            i <= tokens@.len(),
            text::views(tokens@) == all,
            all == text::split(spec@, ','),
            token_ranges(all.take(i as int)) == Ok::<Seq<(u16, u16)>, Seq<char>>(out@),
        decreases tokens@.len() - i,
    {
        assert(all.take(i + 1).drop_last() =~= all.take(i as int));
        assert(all.take(i + 1).last() == tokens@[i as int]@);
        match parse_token(tokens[i].as_str()) {
            Ok(p) => {
                out.push(p);
            },
            Err(e) => {
                proof {
                    lemma_error_sticks(all, i + 1);
                }
                return Err(e);
            },
        }
        i += 1;
    }
    assert(all.take(tokens@.len() as int) =~= all);
    Ok(out)
}

proof fn lemma_error_sticks(tokens: Seq<Seq<char>>, n: int)
    requires
        0 <= n <= tokens.len(),
        token_ranges(tokens.take(n)) is Err,
    ensures
        token_ranges(tokens) == token_ranges(tokens.take(n)),
    decreases tokens.len(),
{
    if n < tokens.len() {
        assert(tokens.drop_last().take(n) =~= tokens.take(n));
        lemma_error_sticks(tokens.drop_last(), n);
    } else {
        assert(tokens.take(n) =~= tokens);
    }
}

/// A code lies in one of the ranges.
pub open spec fn accepted(ranges: Seq<(u16, u16)>, code: u16) -> bool {
    exists|k: int| 0 <= k < ranges.len() && (#[trigger] ranges[k]).0 <= code <= ranges[k].1
}

/// Whether a status code lies in any of the ranges.
pub fn matches(ranges: &[(u16, u16)], code: u16) -> (r: bool)
    ensures
        r == accepted(ranges@, code),
{
    let mut i: usize = 0;
    while i < ranges.len()
        invariant
            i <= ranges@.len(),
            forall|k: int|
                0 <= k < i ==> !((#[trigger] ranges@[k]).0 <= code <= ranges@[k].1),
        decreases ranges@.len() - i,
    {
        let (start, end) = ranges[i];
        if code >= start && code <= end {
            assert(ranges@[i as int].0 <= code <= ranges@[i as int].1);
            return true;
        }
        i += 1;
    }
    false
}

/// Every range that parses is in order, so both its ends match it.
pub proof fn law_parsed_ranges_are_ordered(tokens: Seq<Seq<char>>)
    ensures
        token_ranges(tokens) matches Ok(v) ==> v.len() == tokens.len() && forall|k: int|
            0 <= k < v.len() ==> (#[trigger] v[k]).0 <= v[k].1,
    decreases tokens.len(),
{
    if tokens.len() > 0 {
        law_parsed_ranges_are_ordered(tokens.drop_last());
        if let Ok(v) = token_ranges(tokens) {
            let w = token_ranges(tokens.drop_last())->Ok_0;
            assert forall|k: int| 0 <= k < v.len() implies (#[trigger] v[k]).0 <= v[k].1 by {
                if k < w.len() {
                    assert(v[k] == w[k]);
                }
            }
        }
    }
}

/// A token is one code or a range from one to another, with white space around it: a code stands for
/// itself alone, a range for what lies between its ends, and a range that ends before it starts is
/// refused.
pub proof fn law_tokens_are_read(token: Seq<char>, from: Seq<char>, to: Seq<char>)
    requires
        !from.contains('-'),
        !to.contains('-'),
    ensures
        text::trimmed(token) == from && text::unsigned(from, 65535) is Some ==> (token_range(
            token,
        ) matches Ok(p) && p.0 == text::unsigned(from, 65535)->0 && p.1 == p.0),
        text::trimmed(token) == from && text::unsigned(from, 65535) is None ==> token_range(token)
            == Err::<(u16, u16), Seq<char>>("Invalid status code: "@ + from),
        text::trimmed(token) == from + seq!['-'] + to && text::unsigned(from, 65535) is Some
            && text::unsigned(to, 65535) is Some && text::unsigned(from, 65535)->0
            <= text::unsigned(to, 65535)->0 ==> (token_range(token) matches Ok(p) && p.0
            == text::unsigned(from, 65535)->0 && p.1 == text::unsigned(to, 65535)->0),
        text::trimmed(token) == from + seq!['-'] + to && (text::unsigned(from, 65535) is None
            || text::unsigned(to, 65535) is None || text::unsigned(from, 65535)->0
            > text::unsigned(to, 65535)->0) ==> token_range(token) is Err,
{
    let t = from + seq!['-'] + to;
    assert(t[from.len() as int] == '-');
    text::law_split_at(from, to, '-');
    text::law_split_alone(from, '-');
    text::law_split_alone(to, '-');
}

/// A list is good exactly where each of its tokens is; its ranges are those of the tokens, in their
/// order, and a code is accepted exactly where a token's range holds it.
pub proof fn law_every_token_counts(tokens: Seq<Seq<char>>, code: u16)
    ensures
        token_ranges(tokens) is Ok <==> forall|k: int|
            0 <= k < tokens.len() ==> token_range(#[trigger] tokens[k]) is Ok,
        token_ranges(tokens) matches Ok(v) ==> v.len() == tokens.len() && (forall|k: int|
            0 <= k < v.len() ==> Ok::<(u16, u16), Seq<char>>(#[trigger] v[k]) == token_range(
                tokens[k],
            )),
        token_ranges(tokens) matches Ok(v) ==> (accepted(v, code) <==> exists|k: int|
            0 <= k < tokens.len() && token_range(#[trigger] tokens[k])->Ok_0.0 <= code
                <= token_range(tokens[k])->Ok_0.1),
    decreases tokens.len(),
{
    if tokens.len() > 0 {
        let rest = tokens.drop_last();
        law_every_token_counts(rest, code);
        assert forall|k: int| 0 <= k < rest.len() implies rest[k] == tokens[k] by {}
        assert(tokens[tokens.len() - 1] == tokens.last());
        if token_ranges(rest) is Err {
            let k = choose|k: int|
                0 <= k < rest.len() && !(token_range(#[trigger] rest[k]) is Ok);
            assert(token_range(tokens[k]) is Err);
        } else if token_range(tokens.last()) is Ok {
            let v = token_ranges(tokens)->Ok_0;
            assert forall|k: int| 0 <= k < v.len() implies Ok::<(u16, u16), Seq<char>>(
                #[trigger] v[k],
            ) == token_range(tokens[k]) by {
                if k < rest.len() {
                    assert(v[k] == token_ranges(rest)->Ok_0[k]);
                    assert(rest[k] == tokens[k]);
                }
            }
            assert forall|k: int| 0 <= k < tokens.len() implies token_range(#[trigger] tokens[k])
                is Ok by {
                if k < rest.len() {
                    assert(token_range(rest[k]) is Ok);
                }
            }
            if accepted(v, code) {
                let k = choose|k: int| 0 <= k < v.len() && (#[trigger] v[k]).0 <= code <= v[k].1;
                assert(token_range(tokens[k])->Ok_0 == v[k]);
            }
            if exists|k: int|
                0 <= k < tokens.len() && token_range(#[trigger] tokens[k])->Ok_0.0 <= code
                    <= token_range(tokens[k])->Ok_0.1 {
                let k = choose|k: int|
                    0 <= k < tokens.len() && token_range(#[trigger] tokens[k])->Ok_0.0 <= code
                        <= token_range(tokens[k])->Ok_0.1;
                assert(v[k].0 <= code <= v[k].1);
            }
        }
    }
}

} // verus!
