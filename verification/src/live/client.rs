//! The decisions of the pooled client: what a reply means, whether a failed
//! attempt is retried, which sockets go back to the pool, what the browser
//! cache still holds, and which commands the script advertises.
//!
//! The sockets, the clock and the waiting live with the caller, which hands
//! each outcome and the current time in and performs what comes back.
use vstd::prelude::*;

use crate::error::{connection_level, Error};
use crate::json::{compact_text, copy_json, field, lemma_array_view, values_view, write_compact, Json, JsonV};
use crate::live::protocol::Response;
use crate::text::{append_chars, append_str, owned, str_eq, string_from};

verus! {

broadcast use vstd::std_specs::vec::group_vec_axioms;

/// What a reply read off the socket means for the command that is waiting.
pub enum Reply {
    /// A reply to a request we already gave up on; skip it.
    Stale,
    /// The answer to the waiting command.
    Answer(Result<Json, Error>),
}

/// What `response` means for the command sent with id `expected`: a reply
/// carrying another id is stale; an error reply fails the command with the
/// script's message; anything else answers it with its result.
pub fn judge(response: Response, expected: u64) -> (r: Reply)
    ensures
        match response.id {
            Some(got) if got != expected => r is Stale,
            _ => if response.status@ == "error"@ {
                r matches Reply::Answer(Err(Error::Live(m))) && m@ == (match response.message {
                    Some(m) => m@,
                    None => "unknown error from Ableton Live"@,
                })
            } else {
                r == Reply::Answer(Ok(response.result))
            },
        },
{
    if let Some(got) = response.id {
        if got != expected {
            return Reply::Stale;
        }
    }
    if response.is_error() {
        return Reply::Answer(Err(Error::Live(response.error_message())));
    }
    Reply::Answer(Ok(response.result))
}

/// What came of one attempt at a command on one socket.
pub enum Attempt {
    /// The script answered (possibly with a refusal of its own).
    Done(Result<Json, Error>),
    /// No reply within the budget, which reads `seconds` as an `f32` count
    /// of seconds.
    TimedOut { seconds: String },
}

/// What the client does after an attempt.
pub enum Next {
    /// Hand `result` to the caller; the socket goes back to the pool only
    /// when `keep` says so.
    Finish { result: Result<Json, Error>, keep: bool },
    /// Try once more on another socket, dropping this one.
    Retry,
}

/// What follows attempt number `round` (0 or 1) of `command`, made on a
/// socket that `was_fresh` or was reused, with a budget of `timeout_ms`.
///
/// One retry, and only when a reused socket failed at the connection level:
/// that is the stale-socket case. A fresh socket failing the same way means
/// Live is genuinely unreachable. A socket whose reply may still be in
/// flight is never reused.
pub fn after_attempt(attempt: Attempt, was_fresh: bool, round: u32, command: &str, timeout_ms: u64) -> (r: Next)
    requires
        round <= 1,
    ensures
        match attempt {
            Attempt::Done(Ok(v)) => r == Next::Finish { result: Ok(v), keep: true },
            Attempt::Done(Err(e)) => if !connection_level(e) {
                r == Next::Finish { result: Err(e), keep: true }
            } else if was_fresh || round == 1 {
                r == Next::Finish { result: Err(e), keep: false }
            } else {
                r is Retry
            },
            Attempt::TimedOut { seconds } => r matches Next::Finish {
                result: Err(Error::Timeout { command: c, timeout_ms: t, seconds: s }),
                keep: false,
            } && c@ == command@ && t == timeout_ms && s == seconds,
        },
        round == 1 ==> !(r is Retry),
{
    match attempt {
        Attempt::Done(Ok(v)) => Next::Finish { result: Ok(v), keep: true },
        Attempt::Done(Err(e)) => {
            if !e.is_connection_level() {
                Next::Finish { result: Err(e), keep: true }
            } else if was_fresh || round == 1 {
                Next::Finish { result: Err(e), keep: false }
            } else {
                Next::Retry
            }
        },
        Attempt::TimedOut { seconds } => Next::Finish {
            result: Err(Error::Timeout { command: owned(command), timeout_ms, seconds }),
            keep: false,
        },
    }
}

/// The idle sockets, at most `capacity` of them.
pub struct IdlePool<T> {
    idle: Vec<T>,
    capacity: usize,
}

/// The idle sockets after one is offered back: kept when there is room.
pub open spec fn after_put<T>(items: Seq<T>, capacity: nat, item: T) -> Seq<T> {
    if items.len() < capacity {
        items.push(item)
    } else {
        items
    }
}

impl<T> IdlePool<T> {
    #[verifier::type_invariant]
    closed spec fn within_capacity(self) -> bool {
        self.idle@.len() <= self.capacity
    }

    /// The idle sockets, the most recently returned last.
    pub closed spec fn items(&self) -> Seq<T> {
        self.idle@
    }

    pub closed spec fn capacity(&self) -> nat {
        self.capacity as nat
    }

    pub fn new(capacity: usize) -> (r: Self)
        ensures
            r.items() == Seq::<T>::empty(),
            r.capacity() == capacity,
    {
        IdlePool { idle: Vec::new(), capacity }
    }

    /// Take the most recently returned socket, if any.
    pub fn take(&mut self) -> (r: Option<T>)
        ensures
            final(self).capacity() == old(self).capacity(),
            old(self).items().len() == 0 ==> r is None && final(self).items() == old(self).items(),
            old(self).items().len() > 0 ==> r == Some(old(self).items().last())
                && final(self).items() == old(self).items().drop_last(),
    {
        proof {
            use_type_invariant(&*self);
        }
        let mut idle = Vec::new();
        std::mem::swap(&mut idle, &mut self.idle);
        let r = idle.pop();
        self.idle = idle;
        r
    }

    /// Offer a socket back; it is kept only while the pool is below its
    /// capacity, so the pool never holds more than it was sized for.
    pub fn put(&mut self, item: T) -> (kept: bool)
        ensures
            final(self).capacity() == old(self).capacity(),
            kept == (old(self).items().len() < old(self).capacity()),
            final(self).items() == after_put(old(self).items(), old(self).capacity(), item),
    {
        proof {
            use_type_invariant(&*self);
        }
        if self.idle.len() < self.capacity {
            let mut idle = Vec::new();
            std::mem::swap(&mut idle, &mut self.idle);
            idle.push(item);
            self.idle = idle;
            true
        } else {
            false
        }
    }

    /// Drop every idle socket.
    pub fn clear(&mut self)
        ensures
            final(self).capacity() == old(self).capacity(),
            final(self).items() == Seq::<T>::empty(),
    {
        self.idle = Vec::new();
    }

    /// How many sockets are idle; never more than the capacity.
    pub fn len(&self) -> (r: usize)
        ensures
            r == self.items().len(),
            r <= self.capacity(),
    {
        proof {
            use_type_invariant(self);
        }
        self.idle.len()
    }
}

/// Offering a socket back never takes the pool past its capacity, and
/// keeps every socket that was already idle.
pub proof fn lemma_put_keeps_capacity<T>(items: Seq<T>, capacity: nat, item: T)
    requires
        items.len() <= capacity,
    ensures
        after_put(items, capacity, item).len() <= capacity,
        after_put(items, capacity, item).take(items.len() as int) == items,
{
    assert(items.push(item).take(items.len() as int) =~= items);
    assert(items.take(items.len() as int) =~= items);
}

/// A socket offered back to a pool with room is the next one taken.
pub proof fn lemma_put_then_take<T>(items: Seq<T>, capacity: nat, item: T)
    requires
        items.len() < capacity,
    ensures
        after_put(items, capacity, item).len() > 0,
        after_put(items, capacity, item).last() == item,
        after_put(items, capacity, item).drop_last() == items,
{
    assert(items.push(item).drop_last() =~= items);
}

/// Whether an entry stored at `stored_ms` is still fresh at `now_ms` when
/// entries live for `ttl_secs` seconds. A clock that went backwards counts
/// as no time elapsed.
pub open spec fn fresh(stored_ms: u64, now_ms: u64, ttl_secs: u64) -> bool {
    let elapsed: int = if now_ms >= stored_ms {
        now_ms - stored_ms
    } else {
        0
    };
    elapsed < ttl_secs * 1000
}

/// A copy of the entries, each the same key, time and value.
fn copy_entries(v: &Vec<(String, u64, Json)>) -> (r: Vec<(String, u64, Json)>)
    ensures
        r@.len() == v@.len(),
        forall|i: int|
            0 <= i < v@.len() ==> (#[trigger] r@[i]).0@ == v@[i].0@ && r@[i].1 == v@[i].1 && r@[i].2@
                == v@[i].2@,
{
    let mut r: Vec<(String, u64, Json)> = Vec::new();
    let mut i: usize = 0;
    while i < v.len()
        invariant
            i <= v@.len(),
            r@.len() == i,
            forall|j: int|
                0 <= j < i ==> (#[trigger] r@[j]).0@ == v@[j].0@ && r@[j].1 == v@[j].1 && r@[j].2@
                    == v@[j].2@,
        decreases v.len() - i,
    {
        let k = v[i].0.clone();
        let t = v[i].1;
        let j = copy_json(&v[i].2);
        r.push((k, t, j));
        i += 1;
    }
    r
}

/// The entries hold each key once, and exactly the keys of `held`, with the
/// time and value `held` gives them.
pub open spec fn entries_match(entries: Seq<(String, u64, Json)>, held: Map<Seq<char>, (u64, JsonV)>) -> bool {
    &&& forall|i: int, j: int| 0 <= i < j < entries.len() ==> entries[i].0@ != entries[j].0@
    &&& forall|i: int|
        0 <= i < entries.len() ==> held.contains_key(#[trigger] entries[i].0@) && held[entries[i].0@] == (
            entries[i].1,
            entries[i].2@,
        )
    &&& forall|k: Seq<char>|
        #[trigger] held.contains_key(k) ==> exists|i: int| 0 <= i < entries.len() && entries[i].0@ == k
}

/// Browser listings, keyed by command and parameters, with the time each
/// was stored.
pub struct BrowserCache {
    entries: Vec<(String, u64, Json)>,
    ttl_secs: u64,
    held: Ghost<Map<Seq<char>, (u64, JsonV)>>,
}

impl BrowserCache {
    #[verifier::type_invariant]
    closed spec fn consistent(self) -> bool {
        entries_match(self.entries@, self.held@)
    }

    /// What the cache holds: for each key, when it was stored and the value.
    pub closed spec fn view(&self) -> Map<Seq<char>, (u64, JsonV)> {
        self.held@
    }

    /// How long entries stay fresh, in seconds.
    pub closed spec fn ttl(&self) -> u64 {
        self.ttl_secs
    }

    pub fn new(ttl_secs: u64) -> (r: Self)
        ensures
            r.view() == Map::<Seq<char>, (u64, JsonV)>::empty(),
            r.ttl() == ttl_secs,
    {
        BrowserCache { entries: Vec::new(), ttl_secs, held: Ghost(Map::empty()) }
    }

    fn position(&self, key: &str) -> (r: Option<usize>)
        ensures
            match r {
                Some(i) => i < self.entries@.len() && self.entries@[i as int].0@ == key@,
                None => forall|i: int| 0 <= i < self.entries@.len() ==> self.entries@[i].0@ != key@,
            },
    {
        let mut i: usize = 0;
        while i < self.entries.len()
            invariant
                i <= self.entries@.len(),
                forall|j: int| 0 <= j < i ==> self.entries@[j].0@ != key@,
            decreases self.entries.len() - i,
        {
            if str_eq(self.entries[i].0.as_str(), key) {
                return Some(i);
            }
            i += 1;
        }
        None
    }

    /// The value stored under `key` when it is still fresh at `now_ms`. A
    /// stale entry is dropped.
    pub fn get(&mut self, key: &str, now_ms: u64) -> (r: Option<Json>)
        ensures
            final(self).ttl() == old(self).ttl(),
            match old(self).view().get(key@) {
                Some((stored, v)) => if fresh(stored, now_ms, old(self).ttl()) {
                    r matches Some(j) && j@ == v && final(self).view() == old(self).view()
                } else {
                    r is None && final(self).view() == old(self).view().remove(key@)
                },
                None => r is None && final(self).view() == old(self).view(),
            },
    {
        proof {
            use_type_invariant(&*self);
        }
        match self.position(key) {
            None => {
                proof {
                    if self.held@.contains_key(key@) {
                        let i = choose|i: int| 0 <= i < self.entries@.len() && self.entries@[i].0@ == key@;
                        assert(self.entries@[i].0@ == key@);
                    }
                }
                None
            },
            Some(i) => {
                let stored = self.entries[i].1;
                let elapsed: u64 = if now_ms >= stored {
                    now_ms - stored
                } else {
                    0
                };
                if elapsed / 1000 < self.ttl_secs {
                    assert(elapsed < self.ttl_secs * 1000) by (nonlinear_arith)
                        requires
                            elapsed / 1000 < self.ttl_secs,
                    ;
                    Some(copy_json(&self.entries[i].2))
                } else {
                    assert(elapsed >= self.ttl_secs * 1000) by (nonlinear_arith)
                        requires
                            elapsed / 1000 >= self.ttl_secs,
                    ;
                    let ghost before = self.entries@;
                    let ghost held = self.held@.remove(key@);
                    let mut entries = copy_entries(&self.entries);
                    entries.remove(i);
                    proof {
                        assert forall|a: int, b: int|
                            0 <= a < b < entries@.len() implies entries@[a].0@ != entries@[b].0@ by {
                            let a2 = if a < i { a } else { a + 1 };
                            let b2 = if b < i { b } else { b + 1 };
                            assert(entries@[a].0@ == before[a2].0@);
                            assert(entries@[b].0@ == before[b2].0@);
                        }
                        assert forall|a: int|
                            0 <= a < entries@.len() implies held.contains_key(#[trigger] entries@[a].0@)
                                && held[entries@[a].0@] == (entries@[a].1, entries@[a].2@) by {
                            let a2 = if a < i { a } else { a + 1 };
                            assert(entries@[a].0@ == before[a2].0@ && entries@[a].1 == before[a2].1 && entries@[a].2@ == before[a2].2@);
                            assert(a2 != i);
                        }
                        assert forall|k: Seq<char>| #[trigger] held.contains_key(k) implies exists|a: int|
                            0 <= a < entries@.len() && entries@[a].0@ == k by {
                            let a2 = choose|a2: int| 0 <= a2 < before.len() && before[a2].0@ == k;
                            assert(a2 != i);
                            let a = if a2 < i { a2 } else { a2 - 1 };
                            assert(entries@[a].0@ == before[a2].0@);
                        }
                    }
                    assert(entries_match(entries@, held));
                    *self = BrowserCache { entries, ttl_secs: self.ttl_secs, held: Ghost(held) };
                    None
                }
            },
        }
    }

    /// Store `value` under `key` at `now_ms`, replacing what was there.
    pub fn put(&mut self, key: String, now_ms: u64, value: Json)
        ensures
            final(self).ttl() == old(self).ttl(),
            final(self).view() == old(self).view().insert(key@, (now_ms, value@)),
    {
        proof {
            use_type_invariant(&*self);
        }
        let ghost before = self.entries@;
        let ghost held = self.held@.insert(key@, (now_ms, value@));
        let ghost k = key@;
        let ghost v = value@;
        let mut entries = copy_entries(&self.entries);
        match self.position(key.as_str()) {
            Some(i) => {
                entries.set(i, (key, now_ms, value));
                proof {
                    assert forall|a: int, b: int|
                        0 <= a < b < entries@.len() implies entries@[a].0@ != entries@[b].0@ by {
                        if a != i && b != i {
                            assert(entries@[a].0@ == before[a].0@ && entries@[a].1 == before[a].1 && entries@[a].2@ == before[a].2@);
                            assert(entries@[b].0@ == before[b].0@ && entries@[b].1 == before[b].1 && entries@[b].2@ == before[b].2@);
                        } else if a == i {
                            assert(entries@[b].0@ == before[b].0@ && entries@[b].1 == before[b].1 && entries@[b].2@ == before[b].2@);
                            assert(before[i as int].0@ == k);
                        } else {
                            assert(entries@[a].0@ == before[a].0@ && entries@[a].1 == before[a].1 && entries@[a].2@ == before[a].2@);
                            assert(before[i as int].0@ == k);
                        }
                    }
                    assert forall|a: int|
                        0 <= a < entries@.len() implies held.contains_key(#[trigger] entries@[a].0@)
                            && held[entries@[a].0@] == (entries@[a].1, entries@[a].2@) by {
                        if a != i {
                            assert(entries@[a].0@ == before[a].0@ && entries@[a].1 == before[a].1 && entries@[a].2@ == before[a].2@);
                            assert(before[a].0@ != before[i as int].0@);
                        }
                    }
                    assert forall|q: Seq<char>| #[trigger] held.contains_key(q) implies exists|a: int|
                        0 <= a < entries@.len() && entries@[a].0@ == q by {
                        if q == k {
                            assert(entries@[i as int].0@ == q);
                        } else {
                            let a = choose|a: int| 0 <= a < before.len() && before[a].0@ == q;
                            assert(entries@[a].0@ == before[a].0@ && entries@[a].1 == before[a].1 && entries@[a].2@ == before[a].2@);
                        }
                    }
                }
            },
            None => {
                entries.push((key, now_ms, value));
                proof {
                    let n = before.len() as int;
                    assert forall|a: int, b: int|
                        0 <= a < b < entries@.len() implies entries@[a].0@ != entries@[b].0@ by {
                        assert(entries@[a].0@ == before[a].0@ && entries@[a].1 == before[a].1 && entries@[a].2@ == before[a].2@);
                        if b < n {
                            assert(entries@[b].0@ == before[b].0@ && entries@[b].1 == before[b].1 && entries@[b].2@ == before[b].2@);
                        }
                    }
                    assert forall|a: int|
                        0 <= a < entries@.len() implies held.contains_key(#[trigger] entries@[a].0@)
                            && held[entries@[a].0@] == (entries@[a].1, entries@[a].2@) by {
                        if a < n {
                            assert(entries@[a].0@ == before[a].0@ && entries@[a].1 == before[a].1 && entries@[a].2@ == before[a].2@);
                        }
                    }
                    assert forall|q: Seq<char>| #[trigger] held.contains_key(q) implies exists|a: int|
                        0 <= a < entries@.len() && entries@[a].0@ == q by {
                        if q == k {
                            assert(entries@[n].0@ == q);
                        } else {
                            let a = choose|a: int| 0 <= a < before.len() && before[a].0@ == q;
                            assert(entries@[a].0@ == before[a].0@ && entries@[a].1 == before[a].1 && entries@[a].2@ == before[a].2@);
                        }
                    }
                }
            },
        }
        assert(entries_match(entries@, held));
        *self = BrowserCache { entries, ttl_secs: self.ttl_secs, held: Ghost(held) };
    }

    /// Forget every listing.
    pub fn clear(&mut self)
        ensures
            final(self).ttl() == old(self).ttl(),
            final(self).view() == Map::<Seq<char>, (u64, JsonV)>::empty(),
    {
        *self = BrowserCache::new(self.ttl_secs);
    }
}

/// A listing read back within its lifetime is the listing that was stored.
pub proof fn lemma_cache_read_after_write(
    view: Map<Seq<char>, (u64, JsonV)>,
    key: Seq<char>,
    stored_ms: u64,
    value: JsonV,
    now_ms: u64,
    ttl_secs: u64,
)
    requires
        fresh(stored_ms, now_ms, ttl_secs),
    ensures
        view.insert(key, (stored_ms, value)).get(key) == Some((stored_ms, value)),
{
}

/// The cache key of a command: its name, a separator no command name
/// holds, and its parameters as compact JSON.
pub fn cache_key(command: &str, params: &Json) -> (r: String)
    ensures
        r@ == command@ + seq!['\u{1}'] + compact_text(params@),
{
    let mut v: Vec<char> = Vec::new();
    append_str(&mut v, command);
    v.push('\u{1}');
    let ghost head = v@;
    let mut p: Vec<char> = Vec::new();
    write_compact(&mut p, params);
    append_chars(&mut v, &p);
    assert(v@ =~= command@ + seq!['\u{1}'] + compact_text(params@));
    string_from(&v)
}

/// Whether the script described by `info` advertises `name`. When the
/// handshake failed (`None`) or the script predates the capability list,
/// the call is let through and the script's own answer decides.
pub open spec fn advertises(info: Option<JsonV>, name: Seq<char>) -> bool {
    match info {
        None => true,
        Some(i) => match field(i, "capabilities"@) {
            Some(JsonV::Array(caps)) => exists|k: int| 0 <= k < caps.len() && caps[k] == JsonV::Str(name),
            _ => true,
        },
    }
}

/// Whether the connected script, as its handshake `info` describes it,
/// advertises the command `name`.
pub fn has_capability(info: Option<&Json>, name: &str) -> (r: bool)
    ensures
        r == advertises(
            match info {
                Some(j) => Some(j@),
                None => None,
            },
            name@,
        ),
{
    let i = match info {
        Some(i) => i,
        None => {
            return true;
        },
    };
    match i.get("capabilities") {
        Some(c) => match c {
            Json::Array(caps) => {
                proof {
                    lemma_array_view(*caps);
                }
                let ghost cv = values_view(caps@);
                let mut k: usize = 0;
                while k < caps.len()
                    invariant
                        k <= caps@.len(),
                        cv == values_view(caps@),
                        info == Some(i),
                        field(i@, "capabilities"@) == Some(JsonV::Array(cv)),
                        forall|m: int| 0 <= m < k ==> cv[m] != JsonV::Str(name@),
                    decreases caps.len() - k,
                {
                    match caps[k].as_str() {
                        Some(s) => {
                            if str_eq(s.as_str(), name) {
                                assert(cv[k as int] == JsonV::Str(name@));
                                return true;
                            }
                        },
                        None => {},
                    }
                    k += 1;
                }
                false
            },
            _ => true,
        },
        None => true,
    }
}

} // verus!
