//! Reliable job queue held in memory: FIFO pending messages, leased
//! in-flight messages keyed by claim token, and lease expiry.
//!
//! Times are nanoseconds on the queue's own monotonic clock, counted from the
//! moment the queue was created.
use vstd::prelude::*;

use crate::clock::{instant_now, nanos_since, now_unix};
use crate::server::error::StoreError;
use crate::text::{chars_of, chars_of_string, decimal, parse_unsigned, parse_unsigned_vec, push_all, push_decimal, push_str, string_from_chars, string_of};

verus! {

/// One enqueued job.
#[derive(Debug)]
pub struct QueueMessage {
    pub job_id: String,
    pub attempt: u32,
    /// Queue-clock time of enqueueing, in nanoseconds.
    pub enqueued_at: u64,
}

impl Clone for QueueMessage {
    fn clone(&self) -> (r: Self)
        ensures
            r == *self,
    {
        QueueMessage {
            job_id: self.job_id.clone(),
            attempt: self.attempt,
            enqueued_at: self.enqueued_at,
        }
    }
}

/// The lease handed to the worker that claimed a message.
#[derive(Debug)]
pub struct WorkerLease {
    pub job_id: String,
    pub worker_id: String,
    pub claim_token: String,
    /// Unix seconds at which the lease runs out.
    pub lease_expires_at: u64,
    pub attempt: u32,
}

/// A message together with the lease under which it was claimed.
#[derive(Debug)]
pub struct ClaimedMessage {
    pub message: QueueMessage,
    pub lease: WorkerLease,
}

/// A claimed message awaiting acknowledgement.
#[derive(Debug)]
pub struct Inflight {
    pub message: QueueMessage,
    pub worker_id: String,
    /// Queue-clock time at which the lease expires, in nanoseconds.
    pub lease_expires: u64,
}

/// In-memory queue.
pub struct InMemoryQueue {
    origin: std::time::Instant,
    pending: std::collections::VecDeque<QueueMessage>,
    inflight: Vec<(String, Inflight)>,
}

/// The claim token of a message: `"{worker}:{job}:{nanos since enqueue}"`.
pub open spec fn claim_token_of(worker: Seq<char>, job: Seq<char>, waited: nat) -> Seq<char> {
    worker + ":"@ + job + ":"@ + decimal(waited)
}

/// Lease length in nanoseconds: at least one second.
pub open spec fn lease_nanos(lease_secs: u64) -> int {
    (if lease_secs < 1 { 1 } else { lease_secs as int }) * 1_000_000_000
}

/// `a + b`, saturating at `u64::MAX`.
pub open spec fn sat_add(a: int, b: int) -> u64 {
    if a + b > u64::MAX {
        u64::MAX
    } else {
        (a + b) as u64
    }
}

/// `a - b`, saturating at zero.
pub open spec fn sat_sub(a: u64, b: u64) -> u64 {
    if a >= b {
        (a - b) as u64
    } else {
        0
    }
}

/// Index of `token` among the in-flight entries, if present.
pub open spec fn token_index(inflight: Seq<(String, Inflight)>, token: Seq<char>) -> int {
    choose|i: int| 0 <= i < inflight.len() && inflight[i].0@ == token
}

pub open spec fn has_token(inflight: Seq<(String, Inflight)>, token: Seq<char>) -> bool {
    exists|i: int| 0 <= i < inflight.len() && inflight[i].0@ == token
}

/// No two in-flight entries share a token.
pub open spec fn tokens_unique(inflight: Seq<(String, Inflight)>) -> bool {
    forall|i: int, j: int|
        0 <= i < inflight.len() && 0 <= j < inflight.len() && i != j ==> inflight[i].0@
            != inflight[j].0@
}

/// The entries whose lease has expired at `now`.
pub open spec fn expired(inflight: Seq<(String, Inflight)>, now: u64) -> Seq<(String, Inflight)>
    decreases inflight.len(),
{
    if inflight.len() == 0 {
        Seq::empty()
    } else {
        let rest = expired(inflight.drop_last(), now);
        if inflight.last().1.lease_expires <= now {
            rest.push(inflight.last())
        } else {
            rest
        }
    }
}

/// The entries whose lease is still running at `now`.
pub open spec fn live(inflight: Seq<(String, Inflight)>, now: u64) -> Seq<(String, Inflight)>
    decreases inflight.len(),
{
    if inflight.len() == 0 {
        Seq::empty()
    } else {
        let rest = live(inflight.drop_last(), now);
        if inflight.last().1.lease_expires <= now {
            rest
        } else {
            rest.push(inflight.last())
        }
    }
}

/// An expired entry put back on the queue: same job, one more attempt, enqueued now.
pub open spec fn requeued(e: (String, Inflight), now: u64) -> QueueMessage {
    QueueMessage {
        job_id: e.1.message.job_id,
        attempt: if e.1.message.attempt == u32::MAX {
            u32::MAX
        } else {
            (e.1.message.attempt + 1) as u32
        },
        enqueued_at: now,
    }
}

/// What enqueueing `job_id` at `now` does to queue `old`, giving `new`.
pub open spec fn enqueue_post(old: InMemoryQueue, job_id: Seq<char>, attempt: u32, now: u64, new: InMemoryQueue) -> bool {
    &&& (new.pending_view().len() == old.pending_view().len() + 1)
    &&& (new.pending_view().drop_last() == old.pending_view())
    &&& (new.pending_view().last().job_id@ == job_id)
    &&& (new.pending_view().last().attempt == attempt)
    &&& (new.pending_view().last().enqueued_at == now)
    &&& (new.inflight_view() == old.inflight_view())
}

/// What a claim by `worker_id` at `now` does to queue `old`, giving `new` and `r`.
pub open spec fn claim_post(old: InMemoryQueue, worker_id: Seq<char>, lease_secs: u64, now: u64, now_unix: u64, new: InMemoryQueue, r: Option<ClaimedMessage>) -> bool {
    &&& (old.pending_view().len() == 0 ==> r is None && new == old)
    &&& (old.pending_view().len() > 0 ==> {
                let m = old.pending_view()[0];
                let token = claim_token_of(worker_id, m.job_id@, sat_sub(now, m.enqueued_at) as nat);
                &&& r matches Some(c)
                &&& c.message == m
                &&& c.lease.job_id == m.job_id
                &&& c.lease.worker_id@ == worker_id
                &&& c.lease.claim_token@ == token
                &&& c.lease.lease_expires_at == sat_add(now_unix as int, lease_secs as int)
                &&& c.lease.attempt == m.attempt
                &&& new.pending_view() == old.pending_view().drop_first()
                &&& has_token(new.inflight_view(), token)
                &&& {
                    let e = new.inflight_view()[token_index(new.inflight_view(), token)];
                    &&& e.1.message == m
                    &&& e.1.worker_id@ == worker_id
                    &&& e.1.lease_expires == sat_add(now as int, lease_nanos(lease_secs))
                }
                &&& forall|t: Seq<char>| t != token ==> (has_token(new.inflight_view(), t)
                    == has_token(old.inflight_view(), t))
                &&& forall|t: Seq<char>| t != token && has_token(old.inflight_view(), t)
                    ==> new.inflight_view()[token_index(new.inflight_view(), t)]
                    == old.inflight_view()[token_index(old.inflight_view(), t)]
    })
}

/// What acknowledging `claim_token` does to queue `old`, giving `new`.
pub open spec fn ack_post(old: InMemoryQueue, claim_token: Seq<char>, new: InMemoryQueue) -> bool {
    &&& (new.pending_view() == old.pending_view())
    &&& (!has_token(new.inflight_view(), claim_token))
    &&& (!has_token(old.inflight_view(), claim_token) ==> new.inflight_view()
                == old.inflight_view())
    &&& (has_token(old.inflight_view(), claim_token) ==> new.inflight_view()
                == old.inflight_view().remove(
                token_index(old.inflight_view(), claim_token)))
}

/// What a heartbeat on `claim_token` at `now` does to queue `old`, giving `new` and `r`:
/// without such a claim, `NotFound` carrying the token and nothing changes; with it, the
/// claim's lease runs to `now` plus `lease_secs` seconds (at least one, saturating) and
/// everything else stays.
pub open spec fn heartbeat_post(old: InMemoryQueue, claim_token: Seq<char>, lease_secs: u64, now: u64, new: InMemoryQueue, r: Result<(), StoreError>) -> bool {
    &&& !has_token(old.inflight_view(), claim_token) ==> {
        &&& r matches Err(StoreError::NotFound(m))
        &&& m@ == claim_token
        &&& new == old
    }
    &&& has_token(old.inflight_view(), claim_token) ==> {
        let i = token_index(old.inflight_view(), claim_token);
        &&& r is Ok
        &&& new.pending_view() == old.pending_view()
        &&& new.inflight_view().len() == old.inflight_view().len()
        &&& forall|j: int| 0 <= j < old.inflight_view().len() && j != i
            ==> new.inflight_view()[j] == old.inflight_view()[j]
        &&& new.inflight_view()[i].0 == old.inflight_view()[i].0
        &&& new.inflight_view()[i].1.message == old.inflight_view()[i].1.message
        &&& new.inflight_view()[i].1.worker_id == old.inflight_view()[i].1.worker_id
        &&& new.inflight_view()[i].1.lease_expires == sat_add(now as int, lease_nanos(lease_secs))
    }
}

/// What reclaiming at `now` does: the claims whose lease has expired leave the in-flight
/// set and go back to the end of the queue, one attempt further, in the order they were
/// made; `ids` are their jobs.
pub open spec fn reclaim_post(old: InMemoryQueue, now: u64, new: InMemoryQueue, ids: Seq<String>) -> bool {
    let ex = expired(old.inflight_view(), now);
    &&& ids.len() == ex.len()
    &&& forall|k: int| 0 <= k < ex.len() ==> ids[k] == ex[k].1.message.job_id
    &&& new.inflight_view() == live(old.inflight_view(), now)
    &&& new.pending_view() == old.pending_view() + Seq::new(ex.len(), |k: int| requeued(ex[k], now))
}

impl InMemoryQueue {
    /// The pending messages, oldest first.
    pub closed spec fn pending_view(&self) -> Seq<QueueMessage> {
        self.pending@
    }

    /// The in-flight entries with their claim tokens.
    pub closed spec fn inflight_view(&self) -> Seq<(String, Inflight)> {
        self.inflight@
    }

    /// Well-formedness: claim tokens are unique.
    pub open spec fn wf_view(&self) -> bool {
        tokens_unique(self.inflight_view())
    }

    /// An empty queue whose clock starts now.
    pub fn new() -> (q: Self)
        ensures
            q.wf_view(),
            q.pending_view().len() == 0,
            q.inflight_view().len() == 0,
    {
        InMemoryQueue {
            origin: instant_now(),
            pending: std::collections::VecDeque::new(),
            inflight: Vec::new(),
        }
    }

    /// Reads the queue's clock.
    pub fn now(&self) -> (t: u64) {
        nanos_since(&self.origin)
    }

    /// Appends a message for `job_id` at the back of the queue, stamped `now`.
    pub fn enqueue_at(&mut self, job_id: &str, attempt: u32, now: u64)
        requires
            old(self).wf_view(),
        ensures
            final(self).wf_view(),
            enqueue_post(*old(self), job_id@, attempt, now, *final(self)),

    {
        self.pending.push_back(QueueMessage { job_id: string_of(job_id), attempt, enqueued_at: now });
        assert(self.pending@.drop_last() =~= old(self).pending@);
    }

    /// Appends a message for `job_id`, stamped with the current queue time.
    pub fn enqueue(&mut self, job_id: &str, attempt: u32) -> (r: Result<(), StoreError>)
        requires
            old(self).wf_view(),
        ensures
            r is Ok,
            final(self).wf_view(),
            final(self).pending_view().len() == old(self).pending_view().len() + 1,
            final(self).pending_view().drop_last() == old(self).pending_view(),
            final(self).pending_view().last().job_id@ == job_id@,
            final(self).pending_view().last().attempt == attempt,
            final(self).inflight_view() == old(self).inflight_view(),
            exists|now: u64| #[trigger] enqueue_post(*old(self), job_id@, attempt, now, *final(self)),
    {
        let now = self.now();
        self.enqueue_at(job_id, attempt, now);
        assert(enqueue_post(*old(self), job_id@, attempt, now, *self));
        Ok(())
    }

    fn find_token(&self, token: &String) -> (r: Option<usize>)
        ensures
            match r {
                Some(i) => i < self.inflight@.len() && self.inflight@[i as int].0@ == token@,
                None => !has_token(self.inflight@, token@),
            },
    {
        let mut i: usize = 0;
        while i < self.inflight.len()
            invariant
                i <= self.inflight@.len(),
                forall|j: int| 0 <= j < i ==> self.inflight@[j].0@ != token@,
            decreases self.inflight@.len() - i,
        {
            if self.inflight[i].0 == *token {
                return Some(i);
            }
            i += 1;
        }
        None
    }

    /// Takes the oldest pending message and leases it to `worker_id` until
    /// `now` plus `lease_secs` seconds (at least one); `None` when nothing is pending.
    /// `now_unix` is the wall-clock time used for the lease handed to the worker.
    pub fn claim_at(&mut self, worker_id: &str, lease_secs: u64, now: u64, now_unix: u64) -> (r:
        Option<ClaimedMessage>)
        requires
            old(self).wf_view(),
        ensures
            final(self).wf_view(),
            claim_post(*old(self), worker_id@, lease_secs, now, now_unix, *final(self), r),

    {
        if self.pending.len() == 0 {
            return None;
        }
        let message = self.pending.pop_front().unwrap();
        let waited = if now >= message.enqueued_at { now - message.enqueued_at } else { 0 };
        let mut tok: Vec<char> = chars_of(worker_id);
        tok.push(':');
        let job = chars_of(message.job_id.as_str());
        push_all(&mut tok, &job);
        tok.push(':');
        push_decimal(&mut tok, waited);
        let claim_token = string_from_chars(&tok);
        proof {
            reveal_strlit(":");
        }
        assert(claim_token@ =~= claim_token_of(worker_id@, message.job_id@, waited as nat));
        let lease_expires_at = if now_unix > u64::MAX - lease_secs {
            u64::MAX
        } else {
            now_unix + lease_secs
        };
        let secs = if lease_secs < 1 { 1 } else { lease_secs };
        let lease_expires = if secs > (u64::MAX - now) / 1_000_000_000 {
            u64::MAX
        } else {
            now + secs * 1_000_000_000
        };
        proof {
            if secs <= (u64::MAX - now) / 1_000_000_000 {
                assert(secs * 1_000_000_000 <= u64::MAX - now) by (nonlinear_arith)
                    requires secs <= (u64::MAX - now) / 1_000_000_000;
            } else {
                assert(secs * 1_000_000_000 > u64::MAX - now) by (nonlinear_arith)
                    requires secs > (u64::MAX - now) / 1_000_000_000;
            }
        }
        let lease = WorkerLease {
            job_id: message.job_id.clone(),
            worker_id: string_of(worker_id),
            claim_token: claim_token.clone(),
            lease_expires_at,
            attempt: message.attempt,
        };
        let entry = Inflight {
            message: message.clone(),
            worker_id: string_of(worker_id),
            lease_expires,
        };
        let ghost old_inflight = self.inflight@;
        match self.find_token(&claim_token) {
            Some(i) => {
                self.inflight.set(i, (claim_token, entry));
                proof {
                    assert forall|t: Seq<char>| t != tok@ implies has_token(self.inflight@, t)
                        == has_token(old_inflight, t) by {
                        if has_token(old_inflight, t) {
                            let k = choose|k: int| 0 <= k < old_inflight.len() && old_inflight[k].0@ == t;
                            assert(self.inflight@[k].0@ == t);
                        }
                        if has_token(self.inflight@, t) {
                            let k = choose|k: int| 0 <= k < self.inflight@.len() && self.inflight@[k].0@ == t;
                            assert(old_inflight[k].0@ == t);
                        }
                    }
                    assert(self.inflight@[i as int].0@ == tok@);
                    assert forall|t: Seq<char>| t != tok@ && has_token(old_inflight, t) implies
                        self.inflight@[token_index(self.inflight@, t)] == old_inflight[token_index(old_inflight, t)] by {
                        let a = token_index(self.inflight@, t);
                        let b = token_index(old_inflight, t);
                        assert(has_token(self.inflight@, t));
                        assert(a != i);
                        assert(b != i);
                        assert(self.inflight@[a] == old_inflight[a]);
                        assert(a == b);
                    }
                    assert(token_index(self.inflight@, tok@) == i);
                }
            },
            None => {
                self.inflight.push((claim_token, entry));
                proof {
                    let n = old_inflight.len() as int;
                    assert(self.inflight@[n].0@ == tok@);
                    assert forall|t: Seq<char>| t != tok@ implies has_token(self.inflight@, t)
                        == has_token(old_inflight, t) by {
                        if has_token(old_inflight, t) {
                            let k = choose|k: int| 0 <= k < old_inflight.len() && old_inflight[k].0@ == t;
                            assert(self.inflight@[k].0@ == t);
                        }
                        if has_token(self.inflight@, t) {
                            let k = choose|k: int| 0 <= k < self.inflight@.len() && self.inflight@[k].0@ == t;
                            assert(k != n);
                            assert(old_inflight[k].0@ == t);
                        }
                    }
                    assert forall|t: Seq<char>| t != tok@ && has_token(old_inflight, t) implies
                        self.inflight@[token_index(self.inflight@, t)] == old_inflight[token_index(old_inflight, t)] by {
                        let a = token_index(self.inflight@, t);
                        let b = token_index(old_inflight, t);
                        assert(has_token(self.inflight@, t));
                        assert(a != n);
                        assert(self.inflight@[a] == old_inflight[a]);
                        assert(a == b);
                    }
                    assert(token_index(self.inflight@, tok@) == n);
                }
            },
        }
        Some(ClaimedMessage { message, lease })
    }

    /// Claims the oldest pending message with the current clocks.
    pub fn claim(&mut self, worker_id: &str, lease_secs: u64) -> (r: Result<
        Option<ClaimedMessage>,
        StoreError,
    >)
        requires
            old(self).wf_view(),
        ensures
            final(self).wf_view(),
            r is Ok,
            old(self).pending_view().len() == 0 ==> r == Ok::<Option<ClaimedMessage>, StoreError>(None),
            old(self).pending_view().len() > 0 ==> {
                &&& r matches Ok(Some(c))
                &&& c.message == old(self).pending_view()[0]
                &&& c.lease.job_id == c.message.job_id
                &&& c.lease.attempt == c.message.attempt
                &&& c.lease.worker_id@ == worker_id@
                &&& final(self).pending_view() == old(self).pending_view().drop_first()
                &&& has_token(final(self).inflight_view(), c.lease.claim_token@)
            },
            r matches Ok(o) && exists|now: u64, unix: u64| #[trigger] claim_post(*old(self), worker_id@, lease_secs, now, unix, *final(self), o),
    {
        let now = self.now();
        let unix = now_unix();
        let o = self.claim_at(worker_id, lease_secs, now, unix);
        assert(claim_post(*old(self), worker_id@, lease_secs, now, unix, *self, o));
        Ok(o)
    }

    /// Extends the lease of `claim_token` to `now` plus `lease_secs` seconds (at
    /// least one); `NotFound` carrying the token when no such claim is in flight.
    pub fn heartbeat_at(&mut self, claim_token: &str, lease_secs: u64, now: u64) -> (r: Result<
        (),
        StoreError,
    >)
        requires
            old(self).wf_view(),
        ensures
            final(self).wf_view(),
            heartbeat_post(*old(self), claim_token@, lease_secs, now, *final(self), r),
    {
        let token = string_of(claim_token);
        match self.find_token(&token) {
            None => Err(StoreError::NotFound(token)),
            Some(i) => {
                let secs = if lease_secs < 1 { 1 } else { lease_secs };
                let lease_expires = if secs > (u64::MAX - now) / 1_000_000_000 {
                    u64::MAX
                } else {
                    now + secs * 1_000_000_000
                };
                proof {
                    if secs <= (u64::MAX - now) / 1_000_000_000 {
                        assert(secs * 1_000_000_000 <= u64::MAX - now) by (nonlinear_arith)
                            requires secs <= (u64::MAX - now) / 1_000_000_000;
                    } else {
                        assert(secs * 1_000_000_000 > u64::MAX - now) by (nonlinear_arith)
                            requires secs > (u64::MAX - now) / 1_000_000_000;
                    }
                    assert(tokens_unique(self.inflight@));
                    assert(token_index(self.inflight@, claim_token@) == i);
                }
                let (t, old_entry) = self.inflight.remove(i);
                let entry = Inflight { message: old_entry.message, worker_id: old_entry.worker_id, lease_expires };
                self.inflight.insert(i, (t, entry));
                proof {
                    assert forall|a: int, b: int|
                        0 <= a < self.inflight@.len() && 0 <= b < self.inflight@.len() && a != b
                        implies self.inflight@[a].0@ != self.inflight@[b].0@ by {
                        assert(self.inflight@[a].0 == old(self).inflight@[a].0);
                        assert(self.inflight@[b].0 == old(self).inflight@[b].0);
                    }
                }
                Ok(())
            },
        }
    }

    /// Extends the lease of `claim_token`, reading the queue's clock.
    pub fn heartbeat(&mut self, claim_token: &str, lease_secs: u64) -> (r: Result<(), StoreError>)
        requires
            old(self).wf_view(),
        ensures
            final(self).wf_view(),
            r is Ok <==> has_token(old(self).inflight_view(), claim_token@),
            final(self).pending_view() == old(self).pending_view(),
            exists|now: u64| #[trigger] heartbeat_post(*old(self), claim_token@, lease_secs, now, *final(self), r),
    {
        let now = self.now();
        let r = self.heartbeat_at(claim_token, lease_secs, now);
        assert(heartbeat_post(*old(self), claim_token@, lease_secs, now, *self, r));
        r
    }

    /// Acknowledges a claim: its in-flight entry, if any, is dropped.
    pub fn ack(&mut self, claim_token: &str) -> (r: Result<(), StoreError>)
        requires
            old(self).wf_view(),
        ensures
            r is Ok,
            final(self).wf_view(),
            ack_post(*old(self), claim_token@, *final(self)),

    {
        let token = string_of(claim_token);
        match self.find_token(&token) {
            None => {},
            Some(i) => {
                proof {
                    assert(token_index(self.inflight@, claim_token@) == i);
                }
                let _ = self.inflight.remove(i);
                proof {
                    let o = old(self).inflight@;
                    assert forall|a: int, b: int|
                        0 <= a < self.inflight@.len() && 0 <= b < self.inflight@.len() && a != b
                        implies self.inflight@[a].0@ != self.inflight@[b].0@ by {
                        let a2 = if a < i { a } else { a + 1 };
                        let b2 = if b < i { b } else { b + 1 };
                        assert(self.inflight@[a] == o[a2]);
                        assert(self.inflight@[b] == o[b2]);
                    }
                    if has_token(self.inflight@, claim_token@) {
                        let k = choose|k: int| 0 <= k < self.inflight@.len() && self.inflight@[k].0@ == claim_token@;
                        let k2 = if k < i { k } else { k + 1 };
                        assert(self.inflight@[k] == o[k2]);
                    }
                }
            },
        }
        Ok(())
    }

    /// Puts every claim whose lease has expired at `now` back on the queue (one
    /// more attempt, enqueued at `now`) and returns their job ids, in the order in
    /// which the claims were made.
    pub fn reclaim_expired_at(&mut self, now: u64) -> (r: Result<Vec<String>, StoreError>)
        requires
            old(self).wf_view(),
        ensures
            final(self).wf_view(),
            r matches Ok(ids) && reclaim_post(*old(self), now, *final(self), ids@),
    {
        let ghost o = self.inflight@;
        let ghost p0 = self.pending@;
        let mut kept: Vec<(String, Inflight)> = Vec::new();
        let mut ids: Vec<String> = Vec::new();
        let mut rest: Vec<(String, Inflight)> = Vec::new();
        std::mem::swap(&mut rest, &mut self.inflight);
        let mut i: usize = 0;
        let n = rest.len();
        while rest.len() > 0
            invariant
                rest@ =~= o.subrange(i as int, o.len() as int),
                i <= o.len(),
                n == o.len(),
                kept@ == live(o.subrange(0, i as int), now),
                ids@.len() == expired(o.subrange(0, i as int), now).len(),
                forall|k: int| 0 <= k < ids@.len() ==> ids@[k] == expired(o.subrange(0, i as int), now)[k].1.message.job_id,
                self.pending@ == p0 + Seq::new(
                    expired(o.subrange(0, i as int), now).len(),
                    |k: int| requeued(expired(o.subrange(0, i as int), now)[k], now),
                ),
            decreases rest.len(),
        {
            let e = rest.remove(0);
            let ghost pre = o.subrange(0, i as int);
            proof {
                assert(o.subrange(0, i + 1).drop_last() =~= pre);
                assert(o.subrange(0, i + 1).last() == e);
            }
            if e.1.lease_expires <= now {
                let attempt = if e.1.message.attempt == u32::MAX { u32::MAX } else { e.1.message.attempt + 1 };
                let id = e.1.message.job_id.clone();
                self.pending.push_back(QueueMessage { job_id: e.1.message.job_id.clone(), attempt, enqueued_at: now });
                ids.push(id);
                proof {
                    let ex1 = expired(o.subrange(0, i + 1), now);
                    assert(ex1 == expired(pre, now).push(e));
                    assert(self.pending@ =~= p0 + Seq::new(ex1.len(), |k: int| requeued(ex1[k], now)));
                }
            } else {
                kept.push(e);
                proof {
                    assert(live(o.subrange(0, i + 1), now) == live(pre, now).push(e));
                    assert(expired(o.subrange(0, i + 1), now) == expired(pre, now));
                }
            }
            i += 1;
        }
        proof {
            assert(o.subrange(0, o.len() as int) =~= o);
        }
        self.inflight = kept;
        proof {
            assert forall|a: int, b: int|
                0 <= a < self.inflight@.len() && 0 <= b < self.inflight@.len() && a != b
                implies self.inflight@[a].0@ != self.inflight@[b].0@ by {
                let (a2, b2) = lemma_live_index_pair(o, now, a, b);
            }
        }
        Ok(ids)
    }

    /// Reclaims expired claims, reading the queue's clock.
    pub fn reclaim_expired(&mut self) -> (r: Result<Vec<String>, StoreError>)
        requires
            old(self).wf_view(),
        ensures
            final(self).wf_view(),
            r matches Ok(ids) && exists|now: u64| #[trigger] reclaim_post(*old(self), now, *final(self), ids@),
    {
        let now = self.now();
        let r = self.reclaim_expired_at(now);
        proof {
            let ids = r->Ok_0;
            assert(reclaim_post(*old(self), now, *self, ids@));
        }
        r
    }

    /// Number of pending messages.
    pub fn pending_len(&self) -> (r: Result<usize, StoreError>)
        ensures
            r == Ok::<usize, StoreError>(self.pending_view().len() as usize),
    {
        Ok(self.pending.len())
    }
}

proof fn lemma_contains_push<T>(p: Seq<T>, a: T, x: T)
    ensures
        p.push(a).contains(x) <==> (p.contains(x) || x == a),
{
    let q = p.push(a);
    if q.contains(x) {
        let i = choose|i: int| 0 <= i < q.len() && q[i] == x;
        if i < p.len() {
            assert(p[i] == x);
        }
    }
    if p.contains(x) {
        let i = choose|i: int| 0 <= i < p.len() && p[i] == x;
        assert(q[i] == x);
    }
    if x == a {
        assert(q[p.len() as int] == x);
    }
}

proof fn lemma_live_members(s: Seq<(String, Inflight)>, now: u64)
    ensures
        forall|x: (String, Inflight)| #[trigger] live(s, now).contains(x) <==> (s.contains(x) && x.1.lease_expires > now),
    decreases s.len(),
{
    if s.len() > 0 {
        let p = s.drop_last();
        let a = s.last();
        lemma_live_members(p, now);
        assert(s =~= p.push(a));
        assert forall|x: (String, Inflight)| #[trigger] live(s, now).contains(x) <==> (s.contains(x) && x.1.lease_expires > now) by {
            lemma_contains_push(p, a, x);
            lemma_contains_push(live(p, now), a, x);
        }
    }
}

/// Reclaiming at `now` takes back exactly the claims whose lease has run out: a claim
/// token stays in flight if and only if it was in flight with a lease running past `now`
/// (so a heartbeat on a reclaimed token finds nothing), and each reclaimed job goes to the
/// back of the queue, in the order of `ids`, one attempt further (saturating), the
/// messages already pending staying ahead of them.
pub proof fn law_reclaim_requeues_expired(q0: InMemoryQueue, now: u64, q1: InMemoryQueue, ids: Seq<String>)
    requires
        q0.wf_view(),
        reclaim_post(q0, now, q1, ids),
    ensures
        forall|t: Seq<char>| #[trigger] has_token(q1.inflight_view(), t) <==> (has_token(q0.inflight_view(), t)
            && q0.inflight_view()[token_index(q0.inflight_view(), t)].1.lease_expires > now),
        q1.pending_view().len() == q0.pending_view().len() + ids.len(),
        q1.pending_view().subrange(0, q0.pending_view().len() as int) == q0.pending_view(),
        forall|k: int| 0 <= k < ids.len() ==> {
            let m = #[trigger] q1.pending_view()[q0.pending_view().len() + k];
            let e = expired(q0.inflight_view(), now)[k];
            &&& m.job_id == ids[k]
            &&& m.attempt == (if e.1.message.attempt == u32::MAX { u32::MAX } else { (e.1.message.attempt + 1) as u32 })
            &&& e.1.lease_expires <= now
            &&& q0.inflight_view().contains(e)
        },
{
    let s = q0.inflight_view();
    lemma_live_members(s, now);
    lemma_expired_members(s, now);
    let ex = expired(s, now);
    let tail = Seq::new(ex.len(), |k: int| requeued(ex[k], now));
    assert(q1.pending_view() == q0.pending_view() + tail);
    assert(q1.pending_view().subrange(0, q0.pending_view().len() as int) =~= q0.pending_view());
    assert forall|k: int| 0 <= k < ids.len() implies {
        let m = #[trigger] q1.pending_view()[q0.pending_view().len() + k];
        let e = expired(q0.inflight_view(), now)[k];
        &&& m.job_id == ids[k]
        &&& m.attempt == (if e.1.message.attempt == u32::MAX { u32::MAX } else { (e.1.message.attempt + 1) as u32 })
        &&& e.1.lease_expires <= now
        &&& q0.inflight_view().contains(e)
    } by {
        assert(q1.pending_view()[q0.pending_view().len() + k] == tail[k]);
        assert(ex.contains(ex[k]));
    }
    assert forall|t: Seq<char>| #[trigger] has_token(q1.inflight_view(), t) <==> (has_token(s, t)
        && s[token_index(s, t)].1.lease_expires > now) by {
        let l = live(s, now);
        if has_token(l, t) {
            let i = choose|i: int| 0 <= i < l.len() && l[i].0@ == t;
            assert(l.contains(l[i]));
            let j = choose|j: int| 0 <= j < s.len() && s[j] == l[i];
            assert(s[j].0@ == t);
            let ti = token_index(s, t);
            assert(ti == j);
        }
        if has_token(s, t) && s[token_index(s, t)].1.lease_expires > now {
            let ti = token_index(s, t);
            assert(s.contains(s[ti]));
            assert(l.contains(s[ti]));
            let i = choose|i: int| 0 <= i < l.len() && l[i] == s[ti];
            assert(l[i].0@ == t);
        }
    }
}

proof fn lemma_expired_members(s: Seq<(String, Inflight)>, now: u64)
    ensures
        forall|x: (String, Inflight)| #[trigger] expired(s, now).contains(x) ==> (s.contains(x) && x.1.lease_expires <= now),
    decreases s.len(),
{
    if s.len() > 0 {
        lemma_expired_members(s.drop_last(), now);
        assert forall|x: (String, Inflight)| #[trigger] expired(s, now).contains(x) implies (s.contains(x) && x.1.lease_expires <= now) by {
            let e = expired(s, now);
            let i = choose|i: int| 0 <= i < e.len() && e[i] == x;
            if i < expired(s.drop_last(), now).len() {
                assert(expired(s.drop_last(), now)[i] == x);
                assert(expired(s.drop_last(), now).contains(x));
                let j = choose|j: int| 0 <= j < s.drop_last().len() && s.drop_last()[j] == x;
                assert(s[j] == x);
            } else {
                assert(x == s.last());
                assert(s[s.len() - 1] == x);
            }
        }
    }
}

/// A claim renewed by a heartbeat at `t0` for `lease_secs` is still held after a reclaim
/// at any `t1` before the renewed deadline.
pub proof fn law_heartbeat_keeps_claim(
    q0: InMemoryQueue,
    token: Seq<char>,
    lease_secs: u64,
    t0: u64,
    q1: InMemoryQueue,
    r: Result<(), StoreError>,
    t1: u64,
    q2: InMemoryQueue,
    ids: Seq<String>,
)
    requires
        q0.wf_view(),
        q1.wf_view(),
        heartbeat_post(q0, token, lease_secs, t0, q1, r),
        r is Ok,
        reclaim_post(q1, t1, q2, ids),
        t1 < sat_add(t0 as int, lease_nanos(lease_secs)),
    ensures
        has_token(q2.inflight_view(), token),
{
    let s0 = q0.inflight_view();
    let s1 = q1.inflight_view();
    let i = token_index(s0, token);
    assert(s1[i].0@ == token);
    assert(has_token(s1, token));
    let k = token_index(s1, token);
    assert(k == i);
    law_reclaim_requeues_expired(q1, t1, q2, ids);
    assert(has_token(q2.inflight_view(), token));
}

/// A job enqueued on a queue with nothing pending is the next one claimed, and the
/// claim leaves nothing pending.
pub proof fn law_enqueued_job_is_claimed_next(
    q0: InMemoryQueue,
    job_id: Seq<char>,
    attempt: u32,
    t0: u64,
    q1: InMemoryQueue,
    worker_id: Seq<char>,
    lease_secs: u64,
    t1: u64,
    unix: u64,
    q2: InMemoryQueue,
    r: Option<ClaimedMessage>,
)
    requires
        q0.wf_view(),
        q0.pending_view().len() == 0,
        enqueue_post(q0, job_id, attempt, t0, q1),
        claim_post(q1, worker_id, lease_secs, t1, unix, q2, r),
    ensures
        r matches Some(c) && c.message.job_id@ == job_id && c.message.attempt == attempt && c.lease.worker_id@
            == worker_id,
        q2.pending_view().len() == 0,
{
    assert(q1.pending_view().len() == 1);
    assert(q1.pending_view()[0] == q1.pending_view().last());
}

/// Messages are claimed in the order they were enqueued: a claim takes the
/// oldest pending message and keeps the others in order.
pub proof fn law_claim_is_fifo(
    q0: InMemoryQueue,
    worker_id: Seq<char>,
    lease_secs: u64,
    now: u64,
    unix: u64,
    q1: InMemoryQueue,
    r: Option<ClaimedMessage>,
)
    requires
        q0.wf_view(),
        q0.pending_view().len() > 0,
        claim_post(q0, worker_id, lease_secs, now, unix, q1, r),
    ensures
        r matches Some(c) && c.message == q0.pending_view()[0],
        q1.pending_view() == q0.pending_view().subrange(1, q0.pending_view().len() as int),
{
}

/// Acknowledging a claim that was just made leaves the queue with no claim under
/// that token and every other claim as it was.
pub proof fn law_ack_releases_claim(
    q0: InMemoryQueue,
    worker_id: Seq<char>,
    lease_secs: u64,
    now: u64,
    unix: u64,
    q1: InMemoryQueue,
    r: Option<ClaimedMessage>,
    q2: InMemoryQueue,
)
    requires
        q0.wf_view(),
        claim_post(q0, worker_id, lease_secs, now, unix, q1, r),
        r is Some,
        ack_post(q1, r->Some_0.lease.claim_token@, q2),
    ensures
        !has_token(q2.inflight_view(), r->Some_0.lease.claim_token@),
        q2.pending_view() == q1.pending_view(),
        q2.inflight_view().len() + 1 == q1.inflight_view().len(),
{
}

/// Two distinct positions of the live entries come from two distinct original positions.
proof fn lemma_live_index_pair(o: Seq<(String, Inflight)>, now: u64, a: int, b: int) -> (r: (int, int))
    requires
        0 <= a < live(o, now).len(),
        0 <= b < live(o, now).len(),
        a != b,
    ensures
        0 <= r.0 < o.len(),
        0 <= r.1 < o.len(),
        r.0 != r.1,
        o[r.0] == live(o, now)[a],
        o[r.1] == live(o, now)[b],
    decreases o.len(),
{
    let l = live(o.drop_last(), now);
    let last_kept = !(o.last().1.lease_expires <= now);
    if last_kept && a == l.len() {
        let (x, _) = lemma_live_index_any(o.drop_last(), now, b);
        (o.len() - 1, x)
    } else if last_kept && b == l.len() {
        let (x, _) = lemma_live_index_any(o.drop_last(), now, a);
        (x, o.len() - 1)
    } else {
        let (x, y) = lemma_live_index_pair(o.drop_last(), now, a, b);
        (x, y)
    }
}

proof fn lemma_live_index_any(o: Seq<(String, Inflight)>, now: u64, a: int) -> (r: (int, int))
    requires
        0 <= a < live(o, now).len(),
    ensures
        0 <= r.0 < o.len(),
        o[r.0] == live(o, now)[a],
        r.1 == 0,
    decreases o.len(),
{
    let l = live(o.drop_last(), now);
    if !(o.last().1.lease_expires <= now) && a == l.len() {
        (o.len() - 1, 0)
    } else {
        let (x, _) = lemma_live_index_any(o.drop_last(), now, a);
        (x, 0)
    }
}


// ---------------------------------------------------------------------------
// Stream entries of an external queue
// ---------------------------------------------------------------------------

/// The value of the last field named `key`, if any.
pub open spec fn last_field(fields: Seq<(String, String)>, key: Seq<char>) -> Option<Seq<char>>
    decreases fields.len(),
{
    if fields.len() == 0 {
        None
    } else if fields.last().0@ == key {
        Some(fields.last().1@)
    } else {
        last_field(fields.drop_last(), key)
    }
}

/// The job of a stream entry: its `job_id` field, and its `attempt` field read as a
/// `u32` (0 when missing or unreadable). An entry without a job id carries no job.
pub open spec fn entry_job(fields: Seq<(String, String)>) -> Option<(Seq<char>, u32)> {
    let job = match last_field(fields, "job_id"@) {
        Some(j) => j,
        None => Seq::empty(),
    };
    let attempt: u32 = match last_field(fields, "attempt"@) {
        Some(a) => match parse_unsigned(a, u32::MAX as nat) {
            Some(n) => n as u32,
            None => 0,
        },
        None => 0,
    };
    if job.len() == 0 { None } else { Some((job, attempt)) }
}

/// Reads the job of a stream entry from its fields.
pub fn stream_entry_job(fields: &Vec<(String, String)>) -> (r: Option<(String, u32)>)
    ensures
        match r {
            Some((j, a)) => entry_job(fields@) == Some((j@, a)),
            None => entry_job(fields@) is None,
        },
{
    let mut job: Vec<char> = Vec::new();
    let mut attempt: u32 = 0;
    let mut i: usize = 0;
    while i < fields.len()
        invariant
            i <= fields@.len(),
            job@ == match last_field(fields@.subrange(0, i as int), "job_id"@) {
                Some(j) => j,
                None => Seq::<char>::empty(),
            },
            attempt == match last_field(fields@.subrange(0, i as int), "attempt"@) {
                Some(a) => match parse_unsigned(a, u32::MAX as nat) {
                    Some(n) => n as u32,
                    None => 0u32,
                },
                None => 0u32,
            },
        decreases fields@.len() - i,
    {
        proof {
            assert(fields@.subrange(0, i + 1).drop_last() =~= fields@.subrange(0, i as int));
            assert(fields@.subrange(0, i + 1).last() == fields@[i as int]);
            reveal_strlit("job_id");
            reveal_strlit("attempt");
            assert("job_id"@ != "attempt"@) by {
                assert("job_id"@[0] != "attempt"@[0]);
            }
        }
        let k = chars_of_string(&fields[i].0);
        if crate::text::eq_str(&k, "job_id") {
            job = chars_of_string(&fields[i].1);
        } else if crate::text::eq_str(&k, "attempt") {
            let v = chars_of_string(&fields[i].1);
            attempt = match parse_unsigned_vec(&v, u32::MAX as u64) {
                Some(n) => n as u32,
                None => 0,
            };
        }
        i += 1;
    }
    proof {
        assert(fields@.subrange(0, fields@.len() as int) =~= fields@);
        reveal_strlit("job_id");
        reveal_strlit("attempt");
    }
    if job.len() == 0 {
        None
    } else {
        Some((string_from_chars(&job), attempt))
    }
}

/// The claim token of a stream entry: `<entry id>:<nonce>`.
pub fn stream_claim_token(entry_id: &str, nonce: &str) -> (r: String)
    ensures
        r@ == entry_id@ + ":"@ + nonce@,
{
    let mut out: Vec<char> = Vec::new();
    push_str(&mut out, entry_id);
    push_str(&mut out, ":");
    push_str(&mut out, nonce);
    string_from_chars(&out)
}

} // verus!
