//! Runtime knobs, all overridable from the environment so the server can be
//! configured from an MCP client's `env` block.
use vstd::prelude::*;

use crate::text::{
    append_chars, append_str, chars_of, decimal, owned, parse_unsigned, string_from, trim_chars,
    trim_seq, u64_text, unsigned_text,
};

verus! {

/// Where the Remote Script listens.
pub const HOST_VAR: &'static str = "ABLETON_HOST";
/// Port the Remote Script listens on.
pub const PORT_VAR: &'static str = "ABLETON_PORT";
/// Concurrent sockets, 1 to 16.
pub const POOL_SIZE_VAR: &'static str = "CRABLETON_POOL_SIZE";
/// Default per-command budget, in milliseconds.
pub const TIMEOUT_VAR: &'static str = "CRABLETON_TIMEOUT_MS";
/// Browser cache lifetime, in seconds.
pub const BROWSER_CACHE_VAR: &'static str = "CRABLETON_BROWSER_CACHE_SECS";

/// The raw values of the variables named above, as the process environment
/// holds them (`None` where a variable is unset).
#[derive(Debug, Clone)]
pub struct Environment {
    pub host: Option<String>,
    pub port: Option<String>,
    pub pool_size: Option<String>,
    pub timeout_ms: Option<String>,
    pub browser_cache_secs: Option<String>,
}

#[derive(Debug, Clone)]
pub struct Config {
    pub host: String,
    pub port: u16,
    /// How many sockets we keep open to the Remote Script. The script handles
    /// one command at a time per connection, so this is what lets a slow
    /// read (a browser scan) run alongside a quick `set_tempo`.
    pub pool_size: usize,
    /// Default per-command budget in milliseconds; some commands override it
    /// upwards.
    pub timeout_ms: u64,
    /// How long a browser listing stays fresh, in seconds. Scanning Live's
    /// browser is by far the slowest call in the protocol and its content only
    /// changes when the user installs packs.
    pub browser_cache_ttl_secs: u64,
}

/// The bundled Crableton script listens on this port. Set `ABLETON_PORT=9877`
/// to drive the upstream ableton-mcp script instead.
pub const DEFAULT_PORT: u16 = 9878;
pub const DEFAULT_POOL_SIZE: usize = 4;
pub const DEFAULT_TIMEOUT_MS: u64 = 15000;
pub const DEFAULT_BROWSER_CACHE_SECS: u64 = 120;

/// The value of a variable, unless it is unset or blank.
pub open spec fn present(v: Option<String>) -> Option<Seq<char>> {
    match v {
        Some(s) => if trim_seq(s@).len() > 0 {
            Some(s@)
        } else {
            None
        },
        None => None,
    }
}

/// A variable read as an unsigned number no larger than `max`, after
/// trimming; `None` when it is unset, blank or not such a number.
pub open spec fn number_in(v: Option<String>, max: nat) -> Option<nat> {
    match present(v) {
        Some(s) => match unsigned_text(trim_seq(s)) {
            Some(n) => if n <= max {
                Some(n)
            } else {
                None
            },
            None => None,
        },
        None => None,
    }
}

/// `n` clamped to the range `lo..=hi`.
pub open spec fn clamped(n: nat, lo: nat, hi: nat) -> nat {
    if n < lo {
        lo
    } else if n > hi {
        hi
    } else {
        n
    }
}

impl Default for Config {
    fn default() -> (r: Self)
        ensures
            r.host@ == "127.0.0.1"@,
            r.port == DEFAULT_PORT,
            r.pool_size == DEFAULT_POOL_SIZE,
            r.timeout_ms == DEFAULT_TIMEOUT_MS,
            r.browser_cache_ttl_secs == DEFAULT_BROWSER_CACHE_SECS,
    {
        Config {
            host: owned("127.0.0.1"),
            port: DEFAULT_PORT,
            pool_size: DEFAULT_POOL_SIZE,
            timeout_ms: DEFAULT_TIMEOUT_MS,
            browser_cache_ttl_secs: DEFAULT_BROWSER_CACHE_SECS,
        }
    }
}

/// The value of a variable, unless it is unset or blank.
fn env_str(v: &Option<String>) -> (r: Option<String>)
    ensures
        match r {
            Some(s) => present(*v) == Some(s@),
            None => present(*v) is None,
        },
{
    match v {
        Some(s) => {
            let cs = chars_of(s.as_str());
            if trim_chars(&cs).len() > 0 {
                Some(s.clone())
            } else {
                None
            }
        },
        None => None,
    }
}

/// A variable parsed as an unsigned number no larger than `max`.
fn env_parse(v: &Option<String>, max: u64) -> (r: Option<u64>)
    ensures
        match r {
            Some(n) => number_in(*v, max as nat) == Some(n as nat),
            None => number_in(*v, max as nat) is None,
        },
{
    match env_str(v) {
        Some(s) => {
            let t = trim_chars(&chars_of(s.as_str()));
            parse_unsigned(&t, max)
        },
        None => None,
    }
}

impl Config {
    /// The configuration the environment `env` asks for: each variable that
    /// is set, not blank and readable replaces its default; the pool size is
    /// kept within 1 to 16.
    pub fn from_env(env: &Environment) -> (r: Self)
        ensures
            r.host@ == (match present(env.host) {
                Some(h) => h,
                None => "127.0.0.1"@,
            }),
            r.port as nat == (match number_in(env.port, u16::MAX as nat) {
                Some(p) => p,
                None => DEFAULT_PORT as nat,
            }),
            r.pool_size as nat == clamped(
                match number_in(env.pool_size, usize::MAX as nat) {
                    Some(n) => n,
                    None => DEFAULT_POOL_SIZE as nat,
                },
                1,
                16,
            ),
            r.timeout_ms as nat == (match number_in(env.timeout_ms, u64::MAX as nat) {
                Some(t) => t,
                None => DEFAULT_TIMEOUT_MS as nat,
            }),
            r.browser_cache_ttl_secs as nat == (match number_in(env.browser_cache_secs, u64::MAX as nat) {
                Some(t) => t,
                None => DEFAULT_BROWSER_CACHE_SECS as nat,
            }),
            1 <= r.pool_size <= 16,
    {
        let d = Config::default();
        let host = match env_str(&env.host) {
            Some(h) => h,
            None => d.host,
        };
        let port: u16 = match env_parse(&env.port, 65535) {
            Some(p) => p as u16,
            None => d.port,
        };
        let wanted: usize = match env_parse(&env.pool_size, usize::MAX as u64) {
            Some(n) => n as usize,
            None => d.pool_size,
        };
        let pool_size: usize = if wanted < 1 {
            1
        } else if wanted > 16 {
            16
        } else {
            wanted
        };
        let timeout_ms: u64 = match env_parse(&env.timeout_ms, u64::MAX) {
            Some(t) => t,
            None => d.timeout_ms,
        };
        let browser_cache_ttl_secs: u64 = match env_parse(&env.browser_cache_secs, u64::MAX) {
            Some(t) => t,
            None => d.browser_cache_ttl_secs,
        };
        Config { host, port, pool_size, timeout_ms, browser_cache_ttl_secs }
    }

    /// `host:port`, the address the Remote Script listens on.
    pub fn addr(&self) -> (r: String)
        ensures
            r@ == self.host@ + ":"@ + decimal(self.port as nat),
    {
        let mut v: Vec<char> = Vec::new();
        append_str(&mut v, self.host.as_str());
        append_str(&mut v, ":");
        let p = u64_text(self.port as u64);
        append_chars(&mut v, &p);
        string_from(&v)
    }
}

} // verus!
