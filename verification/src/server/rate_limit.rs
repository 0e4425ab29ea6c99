//! Token-bucket throttling of API requests, one bucket per caller.
//!
//! Token amounts are kept exactly as integers: one token is `TOKEN_UNITS` units, and a
//! bucket of capacity `c` tokens a minute regains `c` units each nanosecond, that is `c`
//! tokens each minute.
use vstd::prelude::*;

use crate::clock::{instant_now, nanos_since};
use crate::keyed::{has_key, lemma_filter_unique_keys, lookup, unique_keys, upsert, upserted, Keyed};
use crate::server::auth::{bearer_in, extract_bearer};
use crate::server::config::{lookup_value, value_of};
use crate::text::{
    before_char, before_char_vec, chars_of_string, push_all, push_str, string_from_chars, string_of,
    trim, trim_vec,
};

verus! {

/// Units in one token: the nanoseconds in a minute.
pub const TOKEN_UNITS: u128 = 60_000_000_000;

/// Nanoseconds after which an idle bucket is forgotten (ten minutes).
pub const IDLE_NANOS: u64 = 600_000_000_000;

/// The bucket of one caller.
#[derive(Debug)]
pub struct Bucket {
    pub key: String,
    pub tokens: u128,
    pub last_refill: u64,
}

impl Clone for Bucket {
    fn clone(&self) -> (r: Self)
        ensures
            r == *self,
    {
        Bucket { key: self.key.clone(), tokens: self.tokens, last_refill: self.last_refill }
    }
}

impl Keyed for Bucket {
    open spec fn key(&self) -> Seq<char> {
        self.key@
    }

    fn key_ref(&self) -> (r: &String) {
        &self.key
    }
}

/// Throttles each caller to a number of requests a minute.
#[derive(Debug)]
pub struct RateLimiter {
    capacity: u64,
    origin: std::time::Instant,
    buckets: Vec<Bucket>,
}

/// A bucket unused for ten minutes or more at `now`.
pub open spec fn stale(b: Bucket, now: u64) -> bool {
    now >= b.last_refill && now - b.last_refill >= IDLE_NANOS
}

/// A bucket after refilling it at `now`: the time since its last refill adds `capacity`
/// units a nanosecond, up to a full bucket.
pub open spec fn refilled(b: Bucket, now: u64, capacity: nat) -> Bucket {
    if now > b.last_refill {
        let t = b.tokens + (now - b.last_refill) * capacity;
        let full = capacity * TOKEN_UNITS;
        Bucket { key: b.key, tokens: (if t > full { full } else { t }) as u128, last_refill: now }
    } else {
        b
    }
}

/// The outcome of a request by `key` at `now`: whether it passes, and the tokens and last
/// refill of the caller's bucket afterwards. A caller without a bucket starts with a full one.
pub open spec fn charge(buckets: Seq<Bucket>, key: Seq<char>, now: u64, capacity: nat) -> (bool, nat, u64) {
    let (tokens, last) = match lookup(buckets, key) {
        Some(e) => {
            let b = refilled(e, now, capacity);
            (b.tokens as nat, b.last_refill)
        },
        None => ((capacity * TOKEN_UNITS) as nat, now),
    };
    if tokens >= TOKEN_UNITS {
        (true, (tokens - TOKEN_UNITS) as nat, last)
    } else {
        (false, tokens, last)
    }
}

impl RateLimiter {
    pub closed spec fn capacity_spec(&self) -> nat {
        self.capacity as nat
    }

    pub closed spec fn buckets_view(&self) -> Seq<Bucket> {
        self.buckets@
    }

    pub open spec fn wf(&self) -> bool {
        &&& unique_keys(self.buckets_view())
        &&& 1 <= self.capacity_spec() <= u32::MAX
    }

    /// A limiter that lets each caller make `requests_per_minute` requests a minute (at
    /// least one), in bursts of as many.
    pub fn new(requests_per_minute: u32) -> (r: Self)
        ensures
            r.wf(),
            r.capacity_spec() == if requests_per_minute < 1 { 1 } else { requests_per_minute as nat },
            r.buckets_view().len() == 0,
    {
        let capacity: u64 = if requests_per_minute < 1 { 1 } else { requests_per_minute as u64 };
        RateLimiter { capacity, origin: instant_now(), buckets: Vec::new() }
    }

    /// The limiter that the server uses by default: 120 requests a minute.
    pub fn default_limiter() -> (r: Self)
        ensures
            r.wf(),
            r.capacity_spec() == 120,
            r.buckets_view().len() == 0,
    {
        Self::new(120)
    }

    /// Decides a request by caller `key` at `now` nanoseconds: first forgets the buckets idle
    /// for ten minutes, then refills the caller's bucket and takes one token from it if it
    /// holds one.
    pub fn check_at(&mut self, key: String, now: u64) -> (allowed: bool)
        requires
            old(self).wf(),
        ensures
            final(self).wf(),
            final(self).capacity_spec() == old(self).capacity_spec(),
            allowed == old(self).admits(key@, now),
            old(self).charged_to(key@, now, *final(self)),
    {
        let ghost pred = |b: Bucket| !stale(b, now);
        let mut kept: Vec<Bucket> = Vec::new();
        let mut i: usize = 0;
        while i < self.buckets.len()
            invariant
                i <= self.buckets@.len(),
                pred == (|b: Bucket| !stale(b, now)),
                kept@ == self.buckets@.subrange(0, i as int).filter(pred),
                self.wf(),
            decreases self.buckets@.len() - i,
        {
            proof {
                assert(self.buckets@.subrange(0, i + 1).drop_last() =~= self.buckets@.subrange(0, i as int));
                reveal_with_fuel(Seq::filter, 1);
            }
            let b = &self.buckets[i];
            let is_stale = now >= b.last_refill && now - b.last_refill >= IDLE_NANOS;
            if !is_stale {
                kept.push(b.clone());
            }
            i += 1;
        }
        proof {
            assert(self.buckets@.subrange(0, i as int) =~= self.buckets@);
            lemma_filter_unique_keys(self.buckets@, pred);
        }
        let ghost kept_view = kept@;
        let cap = self.capacity;
        let full: u128 = (cap as u128) * TOKEN_UNITS;
        let mut found: Option<usize> = None;
        let mut j: usize = 0;
        while j < kept.len()
            invariant
                j <= kept@.len(),
                found is None ==> forall|m: int| 0 <= m < j ==> (#[trigger] kept@[m]).key@ != key@,
                found matches Some(f) ==> f < kept@.len() && kept@[f as int].key@ == key@,
            decreases kept@.len() - j,
        {
            if found.is_none() {
                let kc = chars_of_string(&kept[j].key);
                let want = chars_of_string(&key);
                if crate::text::eq_vec(&kc, &want) {
                    found = Some(j);
                }
            }
            j += 1;
        }
        let entry: Bucket = match found {
            Some(f) => kept[f].clone(),
            None => Bucket { key: key.clone(), tokens: full, last_refill: now },
        };
        proof {
            match found {
                Some(f) => {
                    crate::keyed::lemma_lookup_at(kept@, f as int);
                },
                None => {
                    assert(!has_key(kept@, key@));
                },
            }
        }
        let mut b = entry;
        if now > b.last_refill {
            let elapsed: u128 = (now - b.last_refill) as u128;
            assert(elapsed * (cap as u128) <= u64::MAX * u32::MAX) by (nonlinear_arith)
                requires elapsed <= u64::MAX, cap <= u32::MAX;
            let add: u128 = elapsed * (cap as u128);
            let base: u128 = if b.tokens > full { full } else { b.tokens };
            let t: u128 = base + add;
            b.tokens = if t > full { full } else { t };
            b.last_refill = now;
        }
        let allowed = b.tokens >= TOKEN_UNITS;
        if allowed {
            b.tokens = b.tokens - TOKEN_UNITS;
        }
        let ghost after = b;
        upsert(&mut kept, b);
        self.buckets = kept;
        proof {
            assert(self.buckets_view() == self.buckets@);
            let kept2 = kept_view;
            let (ok, tokens, last) = charge(kept2, key@, now, cap as nat);
            assert(ok == allowed);
            assert(tokens == after.tokens);
            assert(last == after.last_refill);
        }
        allowed
    }

    /// What a request by caller `key` at `now` does to the buckets, from `self` to `new`:
    /// the buckets idle for ten minutes are forgotten, the caller's bucket holds the
    /// tokens and refill time that [`charge`] gives, and every other bucket is kept.
    pub open spec fn charged_to(&self, key: Seq<char>, now: u64, new: RateLimiter) -> bool {
        let kept = self.buckets_view().filter(|b: Bucket| !stale(b, now));
        let (ok, tokens, last) = charge(kept, key, now, self.capacity_spec());
        &&& lookup(new.buckets_view(), key) matches Some(b) && b.tokens == tokens && b.last_refill == last
        &&& forall|k: Seq<char>| k != key ==> #[trigger] lookup(new.buckets_view(), k) == lookup(kept, k)
        &&& new.capacity_spec() == self.capacity_spec()
        &&& (self.wf() ==> new.wf())
    }

    /// Whether a request by caller `key` at `now` passes: the caller's bucket, refilled,
    /// holds a whole token once the buckets idle for ten minutes are forgotten.
    pub open spec fn admits(&self, key: Seq<char>, now: u64) -> bool {
        charge(self.buckets_view().filter(|b: Bucket| !stale(b, now)), key, now, self.capacity_spec()).0
    }

    /// Nanoseconds since the limiter was made: the clock that `check` reads.
    pub fn clock(&self) -> (t: u64) {
        nanos_since(&self.origin)
    }

    /// Decides a request that carries `headers` at `now` nanoseconds of the limiter's clock.
    pub fn check_headers_at(&mut self, headers: &Vec<(String, String)>, now: u64) -> (allowed: bool)
        requires
            old(self).wf(),
        ensures
            final(self).wf(),
            final(self).capacity_spec() == old(self).capacity_spec(),
            allowed == old(self).admits(rate_key(headers@), now),
            old(self).charged_to(rate_key(headers@), now, *final(self)),
    {
        let key = rate_limit_key(headers);
        self.check_at(key, now)
    }

    /// Decides a request that carries `headers`, now.
    pub fn check(&mut self, headers: &Vec<(String, String)>) -> (allowed: bool)
        requires
            old(self).wf(),
        ensures
            final(self).wf(),
            final(self).capacity_spec() == old(self).capacity_spec(),
            exists|now: u64| allowed == #[trigger] old(self).admits(rate_key(headers@), now)
                && old(self).charged_to(rate_key(headers@), now, *final(self)),
    {
        let now = nanos_since(&self.origin);
        self.check_headers_at(headers, now)
    }
}

/// Tokens left to a caller after `i` requests at one moment, starting from a full bucket
/// of `capacity` tokens.
pub open spec fn burst_tokens(capacity: nat, i: nat) -> nat {
    if i < capacity { ((capacity - i) * TOKEN_UNITS) as nat } else { 0 }
}

proof fn lemma_lookup_kept(s: Seq<Bucket>, key: Seq<char>, now: u64)
    requires
        unique_keys(s),
    ensures
        lookup(s, key) is Some && !stale(lookup(s, key)->0, now)
            ==> lookup(s.filter(|b: Bucket| !stale(b, now)), key) == lookup(s, key),
        lookup(s, key) is None ==> lookup(s.filter(|b: Bucket| !stale(b, now)), key) is None,
        lookup(s, key) is Some && stale(lookup(s, key)->0, now)
            ==> lookup(s.filter(|b: Bucket| !stale(b, now)), key) is None,
{
    let pred = |b: Bucket| !stale(b, now);
    let f = s.filter(pred);
    lemma_filter_unique_keys(s, pred);
    if has_key(s, key) {
        let i = crate::keyed::key_index(s, key);
        let b = s[i];
        if !stale(b, now) {
            s.lemma_filter_contains(pred, i);
            assert(f.contains(b));
            let j = choose|j: int| 0 <= j < f.len() && f[j] == b;
            crate::keyed::lemma_lookup_at(f, j);
        } else if has_key(f, key) {
            let j = crate::keyed::key_index(f, key);
            s.lemma_filter_pred(pred, j);
            s.lemma_filter_contains_rev(pred, f[j]);
            let m = choose|m: int| 0 <= m < s.len() && s[m] == f[j];
            crate::keyed::lemma_lookup_at(s, m);
            assert(false);
        }
    } else {
        if has_key(f, key) {
            let j = crate::keyed::key_index(f, key);
            s.lemma_filter_contains_rev(pred, f[j]);
            let m = choose|m: int| 0 <= m < s.len() && s[m] == f[j];
            assert(s[m].key() == key);
        }
    }
}

proof fn lemma_burst_state(states: Seq<RateLimiter>, key: Seq<char>, now: u64, i: int)
    requires
        states.len() >= 1,
        states[0].wf(),
        full_by(states[0], key, now),
        forall|j: int| 0 <= j < states.len() - 1 ==> #[trigger] states[j].charged_to(key, now, states[j + 1]),
        0 <= i < states.len(),
    ensures
        states[i].wf(),
        states[i].capacity_spec() == states[0].capacity_spec(),
        i >= 1 ==> (lookup(states[i].buckets_view(), key) matches Some(b)
            && b.last_refill == now && b.tokens == burst_tokens(states[0].capacity_spec(), i as nat)),
    decreases i,
{
    if i >= 1 {
        let p = i - 1;
        lemma_burst_state(states, key, now, p);
        assert(states[p].charged_to(key, now, states[p + 1]));
        let cur = states[p];
        let cap = cur.capacity_spec();
        lemma_lookup_kept(cur.buckets_view(), key, now);
        let kept = cur.buckets_view().filter(|b: Bucket| !stale(b, now));
        if p == 0 {
            lemma_first_charge(cur, key, now);
        } else {
            let b = lookup(cur.buckets_view(), key)->0;
            assert(!stale(b, now));
            assert(lookup(kept, key) == Some(b));
            assert(refilled(b, now, cap) == b);
        }
    }
}

/// The caller `key` has a full bucket at `now`: none yet, or one last refilled at least a
/// minute before.
pub open spec fn full_by(s: RateLimiter, key: Seq<char>, now: u64) -> bool {
    lookup(s.buckets_view(), key) matches Some(b) ==> b.last_refill + 60_000_000_000 <= now
}

proof fn lemma_first_charge(s: RateLimiter, key: Seq<char>, now: u64)
    requires
        s.wf(),
        full_by(s, key, now),
    ensures
        charge(s.buckets_view().filter(|b: Bucket| !stale(b, now)), key, now, s.capacity_spec())
            == (true, ((s.capacity_spec() - 1) * TOKEN_UNITS) as nat, now),
{
    let cap = s.capacity_spec();
    lemma_lookup_kept(s.buckets_view(), key, now);
    let kept = s.buckets_view().filter(|b: Bucket| !stale(b, now));
    match lookup(s.buckets_view(), key) {
        None => {},
        Some(b) => {
            if !stale(b, now) {
                assert(lookup(kept, key) == Some(b));
                let d: int = now - b.last_refill;
                assert(d * cap >= 60_000_000_000 * cap) by (nonlinear_arith)
                    requires d >= 60_000_000_000, cap >= 1;
                assert(refilled(b, now, cap).tokens == cap * TOKEN_UNITS);
                assert(refilled(b, now, cap).last_refill == now);
            }
        },
    }
}

/// Requests at one moment from a caller whose bucket is full (none yet, or last refilled
/// a minute or more before): exactly the first `capacity` pass, whatever the other
/// callers did before. A bucket emptied at `t` is full again at `t` plus one minute, since
/// it regains `capacity` tokens a minute.
pub proof fn law_full_bucket_admits_capacity(states: Seq<RateLimiter>, key: Seq<char>, now: u64)
    requires
        states.len() >= 1,
        states[0].wf(),
        full_by(states[0], key, now),
        forall|j: int| 0 <= j < states.len() - 1 ==> #[trigger] states[j].charged_to(key, now, states[j + 1]),
    ensures
        forall|i: int| 0 <= i < states.len() ==> (#[trigger] states[i].admits(key, now) <==> i < states[0].capacity_spec()),
{
    assert forall|i: int| 0 <= i < states.len() implies (#[trigger] states[i].admits(key, now) <==> i < states[0].capacity_spec()) by {
        lemma_burst_state(states, key, now, i);
        let cur = states[i];
        let cap = cur.capacity_spec();
        lemma_lookup_kept(cur.buckets_view(), key, now);
        let kept = cur.buckets_view().filter(|b: Bucket| !stale(b, now));
        if i == 0 {
            lemma_first_charge(cur, key, now);
        } else {
            let b = lookup(cur.buckets_view(), key)->0;
            assert(!stale(b, now));
            assert(lookup(kept, key) == Some(b));
            assert(refilled(b, now, cap) == b);
        }
    }
}

/// Tokens left after `i` requests at one moment from `start` tokens: each request that
/// finds a whole token takes it.
pub open spec fn drained(start: nat, i: nat) -> nat {
    let whole = start / (TOKEN_UNITS as nat);
    if i <= whole { (start - i * TOKEN_UNITS) as nat } else { (start - whole * TOKEN_UNITS) as nat }
}

proof fn lemma_drained_step(start: nat, i: nat)
    ensures
        drained(start, i) >= TOKEN_UNITS <==> i < start / (TOKEN_UNITS as nat),
        drained(start, i) >= TOKEN_UNITS ==> drained(start, i + 1) == drained(start, i) - TOKEN_UNITS,
        drained(start, i) < TOKEN_UNITS ==> drained(start, i + 1) == drained(start, i),
{
    let u: int = TOKEN_UNITS as int;
    let whole: int = (start / (TOKEN_UNITS as nat)) as int;
    let st: int = start as int;
    assert(whole * u <= st < whole * u + u) by (nonlinear_arith)
        requires u > 0, whole == st / u;
    if i <= whole {
        assert(i * u <= whole * u) by (nonlinear_arith) requires i <= whole, u > 0;
        if i < whole {
            assert((i + 1) * u <= whole * u) by (nonlinear_arith) requires i + 1 <= whole, u > 0;
            assert((i + 1) * u == i * u + u) by (nonlinear_arith);
        } else {
            assert(i * u == whole * u);
        }
    }
}

proof fn lemma_drain_state(states: Seq<RateLimiter>, key: Seq<char>, now: u64, start: nat, i: int)
    requires
        states.len() >= 1,
        states[0].wf(),
        lookup(states[0].buckets_view(), key) matches Some(b) && !stale(b, now)
            && refilled(b, now, states[0].capacity_spec()).tokens == start
            && refilled(b, now, states[0].capacity_spec()).last_refill == now,
        forall|j: int| 0 <= j < states.len() - 1 ==> #[trigger] states[j].charged_to(key, now, states[j + 1]),
        0 <= i < states.len(),
    ensures
        states[i].wf(),
        states[i].capacity_spec() == states[0].capacity_spec(),
        i >= 1 ==> (lookup(states[i].buckets_view(), key) matches Some(b)
            && b.last_refill == now && b.tokens == drained(start, i as nat)),
        charge(states[i].buckets_view().filter(|b: Bucket| !stale(b, now)), key, now, states[i].capacity_spec()).0
            == (drained(start, i as nat) >= TOKEN_UNITS),
    decreases i,
{
    let cur = states[i];
    let cap = cur.capacity_spec();
    if i >= 1 {
        let p = i - 1;
        lemma_drain_state(states, key, now, start, p);
        assert(states[p].charged_to(key, now, states[p + 1]));
        let prev = states[p];
        lemma_lookup_kept(prev.buckets_view(), key, now);
        lemma_drained_step(start, p as nat);
        if p >= 1 {
            let b = lookup(prev.buckets_view(), key)->0;
            assert(!stale(b, now));
            assert(refilled(b, now, cap) == b);
        }
        lemma_lookup_kept(cur.buckets_view(), key, now);
        let b = lookup(cur.buckets_view(), key)->0;
        assert(!stale(b, now));
        assert(refilled(b, now, cap) == b);
    } else {
        lemma_lookup_kept(cur.buckets_view(), key, now);
    }
}

/// Requests at one moment from a caller whose bucket was last refilled at `last` with
/// `tokens` units (at most a full bucket) and has not been idle ten minutes: the bucket
/// regains `capacity` units a nanosecond, `capacity` tokens a minute, up to a full one, and
/// exactly as many requests pass as it then holds whole tokens.
pub proof fn law_admits_tokens_regained(states: Seq<RateLimiter>, key: Seq<char>, now: u64)
    requires
        states.len() >= 1,
        states[0].wf(),
        lookup(states[0].buckets_view(), key) matches Some(b) && b.last_refill < now
            && now - b.last_refill < IDLE_NANOS && b.tokens <= states[0].capacity_spec() * TOKEN_UNITS,
        forall|j: int| 0 <= j < states.len() - 1 ==> #[trigger] states[j].charged_to(key, now, states[j + 1]),
    ensures
        ({
            let b = lookup(states[0].buckets_view(), key)->0;
            let cap = states[0].capacity_spec();
            let gained = b.tokens + (now - b.last_refill) * cap;
            let held: int = if gained < cap * TOKEN_UNITS { gained } else { cap * TOKEN_UNITS };
            forall|i: int| 0 <= i < states.len()
                ==> (#[trigger] states[i].admits(key, now) <==> i < held / (TOKEN_UNITS as int))
        }),
{
    let b = lookup(states[0].buckets_view(), key)->0;
    let cap = states[0].capacity_spec();
    let r = refilled(b, now, cap);
    let start: nat = r.tokens as nat;
    assert forall|i: int| 0 <= i < states.len() implies (#[trigger] states[i].admits(key, now) <==> i < (start as int) / (TOKEN_UNITS as int)) by {
        lemma_drain_state(states, key, now, start, i);
        lemma_drained_step(start, i as nat);
    }
}

/// A caller that made requests at `t` (from a full bucket) is let through `capacity`
/// times again one minute later: the bucket regains `capacity` tokens a minute.
pub proof fn law_bucket_full_again_a_minute_later(first: Seq<RateLimiter>, second: Seq<RateLimiter>, key: Seq<char>, t: u64)
    requires
        first.len() >= 2,
        first[0].wf(),
        full_by(first[0], key, t),
        forall|j: int| 0 <= j < first.len() - 1 ==> #[trigger] first[j].charged_to(key, t, first[j + 1]),
        t + 60_000_000_000 <= u64::MAX,
        second.len() >= 1,
        second[0] == first.last(),
        forall|j: int| 0 <= j < second.len() - 1
            ==> #[trigger] second[j].charged_to(key, (t + 60_000_000_000) as u64, second[j + 1]),
    ensures
        forall|i: int| 0 <= i < second.len()
            ==> (#[trigger] second[i].admits(key, (t + 60_000_000_000) as u64) <==> i < first[0].capacity_spec()),
{
    lemma_burst_state(first, key, t, first.len() - 1);
    law_full_bucket_admits_capacity(second, key, (t + 60_000_000_000) as u64);
}

/// Requests at one moment from a caller that has no bucket yet: the first `capacity`
/// pass and every one after them is refused, whatever the other callers did before.
pub proof fn law_burst_then_refused(states: Seq<RateLimiter>, key: Seq<char>, now: u64)
    requires
        states.len() >= 1,
        states[0].wf(),
        lookup(states[0].buckets_view(), key) is None,
        forall|j: int| 0 <= j < states.len() - 1 ==> #[trigger] states[j].charged_to(key, now, states[j + 1]),
    ensures
        forall|i: int| 0 <= i < states.len() ==> (#[trigger] states[i].admits(key, now) <==> i < states[0].capacity_spec()),
{
    law_full_bucket_admits_capacity(states, key, now);
}

/// The first non-blank value of `x-forwarded-for`, else of `x-real-ip`.
pub open spec fn client_ip(headers: Seq<(String, String)>) -> Option<Seq<char>> {
    let fwd = match value_of(headers, "x-forwarded-for"@) {
        Some(v) => if trim(v).len() > 0 { Some(trim(v)) } else { None },
        None => None,
    };
    match fwd {
        Some(v) => Some(v),
        None => match value_of(headers, "x-real-ip"@) {
            Some(v) => if trim(v).len() > 0 { Some(trim(v)) } else { None },
            None => None,
        },
    }
}

/// The bucket of a request: `token:<bearer token>`, else `ip:<first address>`, else
/// `anonymous`.
pub open spec fn rate_key(headers: Seq<(String, String)>) -> Seq<char> {
    match bearer_in(headers) {
        Some(t) => "token:"@ + t,
        None => match client_ip(headers) {
            Some(v) => "ip:"@ + trim(before_char(v, ',')),
            None => "anonymous"@,
        },
    }
}

fn non_blank_header(headers: &Vec<(String, String)>, name: &str) -> (r: Option<Vec<char>>)
    ensures
        (match r {
            Some(v) => Some(v@),
            None => None,
        }) == (match value_of(headers@, name@) {
            Some(v) => if trim(v).len() > 0 { Some(trim(v)) } else { None },
            None => None,
        }),
{
    match lookup_value(headers, name) {
        Some(v) => {
            let t = trim_vec(&v);
            if t.len() > 0 {
                Some(t)
            } else {
                None
            }
        },
        None => None,
    }
}

pub fn rate_limit_key(headers: &Vec<(String, String)>) -> (r: String)
    ensures
        r@ == rate_key(headers@),
{
    if let Some(token) = extract_bearer(headers) {
        let mut out: Vec<char> = Vec::new();
        push_str(&mut out, "token:");
        let tc = chars_of_string(&token);
        push_all(&mut out, &tc);
        return string_from_chars(&out);
    }
    let ip = match non_blank_header(headers, "x-forwarded-for") {
        Some(v) => Some(v),
        None => non_blank_header(headers, "x-real-ip"),
    };
    match ip {
        Some(v) => {
            let first = before_char_vec(&v, ',');
            let first = trim_vec(&first);
            let mut out: Vec<char> = Vec::new();
            push_str(&mut out, "ip:");
            push_all(&mut out, &first);
            string_from_chars(&out)
        },
        None => string_of("anonymous"),
    }
}

/// A request passes only on a whole token and spends it; a bucket never holds more than
/// a full burst. So after a passed request the caller's bucket is at least one token short
/// of full, and within one instant at most `capacity` requests of a caller pass.
pub proof fn law_passing_costs_a_token(buckets: Seq<Bucket>, key: Seq<char>, now: u64, capacity: nat)
    requires
        forall|i: int| 0 <= i < buckets.len() ==> #[trigger] buckets[i].tokens <= capacity * TOKEN_UNITS,
    ensures
        ({
            let (ok, tokens, last) = charge(buckets, key, now, capacity);
            &&& tokens + (if ok { TOKEN_UNITS as nat } else { 0nat }) <= capacity * TOKEN_UNITS
            &&& !ok ==> tokens < TOKEN_UNITS
        }),
{
    match lookup(buckets, key) {
        Some(e) => {
            let j = crate::keyed::key_index(buckets, key);
            assert(buckets[j] == e);
        },
        None => {},
    }
}

} // verus!
