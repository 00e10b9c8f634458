//! Runtime configuration from the values of environment variables.

use vstd::prelude::*;

use crate::notify;
use crate::notify::own_or;
use crate::text;

verus! {

/// The default bind address.
pub const DEFAULT_BIND: &'static str = "0.0.0.0:8080";

/// The default database path.
pub const DEFAULT_DB_PATH: &'static str = "/data/vigil.db";

/// The default cap on probes in flight.
pub const DEFAULT_MAX_CONCURRENCY: usize = 25;

#[derive(Clone, Debug)]
pub struct Config {
    pub bind: String,
    pub db_path: String,
    pub max_concurrency: usize,
}

impl Default for Config {
    fn default() -> (r: Self)
        ensures
            r.bind@ == DEFAULT_BIND@,
            r.db_path@ == DEFAULT_DB_PATH@,
            r.max_concurrency == DEFAULT_MAX_CONCURRENCY,
    {
        Config {
            bind: text::own(DEFAULT_BIND),
            db_path: text::own(DEFAULT_DB_PATH),
            max_concurrency: DEFAULT_MAX_CONCURRENCY,
        }
    }
}

/// `c` is the configuration that the variables give.
pub open spec fn is_config(
    bind: Option<String>,
    db_path: Option<String>,
    max_concurrency: Option<String>,
    c: Config,
) -> bool {
    &&& c.bind@ == notify::text_or(bind, DEFAULT_BIND@)
    &&& c.db_path@ == notify::text_or(db_path, DEFAULT_DB_PATH@)
    &&& c.max_concurrency == match max_concurrency {
        Some(s) => match text::unsigned(s@, usize::MAX as int) {
            Some(n) => n,
            None => DEFAULT_MAX_CONCURRENCY as int,
        },
        None => DEFAULT_MAX_CONCURRENCY as int,
    }
}

impl Config {
    /// The configuration that the variables `VIGIL_BIND`, `VIGIL_DB` and `VIGIL_MAX_CONCURRENCY`
    /// give, with the default for what is unset or no number.
    pub fn from_env(
        bind: &Option<String>,
        db_path: &Option<String>,
        max_concurrency: &Option<String>,
    ) -> (r: Self)
        ensures
            is_config(*bind, *db_path, *max_concurrency, r),
    {
        let cap: usize = match max_concurrency {
            Some(s) => match text::parse_usize(s.as_str()) {
                Some(n) => n,
                None => DEFAULT_MAX_CONCURRENCY,
            },
            None => DEFAULT_MAX_CONCURRENCY,
        };
        Config {
            bind: own_or(bind, DEFAULT_BIND),
            db_path: own_or(db_path, DEFAULT_DB_PATH),
            max_concurrency: cap,
        }
    }
}

/// What follows the last colon of a text; all of it where it has none.
pub open spec fn after_colon(s: Seq<char>) -> Seq<char>
    decreases s.len(),
{
    if s.len() == 0 {
        Seq::empty()
    } else if s.last() == ':' {
        Seq::empty()
    } else {
        after_colon(s.drop_last()).push(s.last())
    }
}

/// The port of a bind address: what follows its last colon, or all of it where it has none.
pub fn port_from_bind(bind: &str) -> (r: String)
    ensures
        r@ == after_colon(bind@),
{
    let v = text::chars(bind);
    let n: usize = v.len();
    let mut i: usize = n;
    assert(v@.take(n as int) =~= v@);
    assert(v@.subrange(n as int, n as int) =~= Seq::<char>::empty());
    while i > 0 && v[i - 1] != ':'
        invariant
            i <= n,
            n == v@.len(),
            after_colon(v@) == after_colon(v@.take(i as int)) + v@.subrange(i as int, n as int),
        decreases i,
    {
        assert(v@.take(i as int).drop_last() =~= v@.take(i - 1));
        assert(v@.subrange(i - 1, n as int) =~= seq![v@[i - 1]] + v@.subrange(i as int, n as int));
        assert(after_colon(v@.take(i as int)) =~= after_colon(v@.take(i - 1)).push(v@[i - 1]));
        assert(after_colon(v@) =~= after_colon(v@.take(i - 1)) + v@.subrange(i - 1, n as int));
        i -= 1;
    }
    assert(after_colon(v@.take(i as int)) =~= Seq::<char>::empty());
    assert(after_colon(v@) =~= v@.subrange(i as int, n as int));
    text::collect(&v, i, n)
}

/// Every variable that is set takes effect, and every other leaves the default: port 8080 on every
/// address, a database under `/data`, and twenty-five probes at a time. A cap that is no number
/// counts as unset.
pub proof fn law_set_variables_take_effect(
    bind: Option<String>,
    db_path: Option<String>,
    max_concurrency: Option<String>,
    c: Config,
)
    requires
        is_config(bind, db_path, max_concurrency, c),
    ensures
        bind matches Some(b) ==> c.bind@ == b@,
        bind is None ==> c.bind@ == "0.0.0.0:8080"@,
        db_path matches Some(d) ==> c.db_path@ == d@,
        db_path is None ==> c.db_path@ == "/data/vigil.db"@,
        max_concurrency matches Some(m) ==> (text::unsigned(m@, usize::MAX as int) matches Some(n)
            ==> c.max_concurrency == n),
        max_concurrency matches Some(m) ==> (text::unsigned(m@, usize::MAX as int) is None
            ==> c.max_concurrency == 25),
        max_concurrency is None ==> c.max_concurrency == 25,
{
}

/// The port is what follows the last colon of a bind address; an address without one is its own port.
pub proof fn law_port_follows_the_last_colon(front: Seq<char>, port: Seq<char>)
    requires
        !port.contains(':'),
    ensures
        after_colon(front + seq![':'] + port) == port,
        after_colon(port) == port,
    decreases port.len(),
{
    let s = front + seq![':'] + port;
    if port.len() > 0 {
        let rest = port.drop_last();
        assert(port[port.len() - 1] == port.last());
        if rest.contains(':') {
            let k = choose|k: int| 0 <= k < rest.len() && rest[k] == ':';
            assert(port[k] == ':');
        }
        law_port_follows_the_last_colon(front, rest);
        assert(s.drop_last() =~= front + seq![':'] + rest);
        assert(s.last() == port.last());
        assert(rest.push(port.last()) =~= port);
    } else {
        assert(s.last() == ':');
        assert(port =~= Seq::empty());
    }
}

} // verus!
