//! Heartbeat monitors: the secret that a push address carries.

use rand::distributions::Alphanumeric;
use rand::Rng;
use vstd::prelude::*;

verus! {

/// An ASCII letter or digit.
pub open spec fn alphanumeric(c: char) -> bool {
    ('a' <= c && c <= 'z') || ('A' <= c && c <= 'Z') || ('0' <= c && c <= '9')
}

/// `rand`'s `Alphanumeric` distribution, sampled from the thread's generator: some ASCII letter or
/// digit, by chance.
#[verifier::external_body]
fn random_alphanumeric() -> (c: char)
    ensures
        alphanumeric(c),
{
    char::from(rand::thread_rng().sample(Alphanumeric))
}

/// How long a token is.
pub const TOKEN_LENGTH: usize = 32;

/// A text has the shape of a token.
pub open spec fn is_token(s: Seq<char>) -> bool {
    s.len() == TOKEN_LENGTH && forall|i: int| 0 <= i < s.len() ==> alphanumeric(#[trigger] s[i])
}

/// A secret of 32 random letters and digits. It is all that decides who may report for a monitor.
pub fn generate_token() -> (r: String)
    ensures
        is_token(r@),
{
    let mut r = String::new();
    let mut n: usize = 0;
    while n < TOKEN_LENGTH
        invariant
            n <= TOKEN_LENGTH,
            r@.len() == n,
            forall|i: int| 0 <= i < r@.len() ==> alphanumeric(#[trigger] r@[i]),
        decreases TOKEN_LENGTH - n,
    {
        r.push(random_alphanumeric());
        n += 1;
    }
    r
}

/// A token is thirty-two letters and digits of ASCII, so that it can stand in an address as it is.
pub proof fn law_tokens_are_letters_and_digits(s: Seq<char>, i: int)
    requires
        is_token(s),
        0 <= i < s.len(),
    ensures
        s.len() == 32,
        ('a' <= s[i] && s[i] <= 'z') || ('A' <= s[i] && s[i] <= 'Z') || ('0' <= s[i] && s[i] <= '9'),
{
    assert(alphanumeric(s[i]));
}

} // verus!
