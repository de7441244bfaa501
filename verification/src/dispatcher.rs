//! The dispatcher: what happens to one request between the queue and the
//! reply.
//!
//! The call upstream is not made here. A worker asks `begin` for an attempt,
//! makes the call with the leased credential, and hands what came of it to
//! `settle`, which returns the credential to the pool and says what is next:
//! deliver, try again on a fresh lease, or fail.

use crate::config::Config;
use crate::models::{Credential, Failure, HandlerError, KeyStatus, KeyType, Reason};
use crate::policy::{
    after_acquire, after_release, distinct_ids, lemma_lru_pick_sound, lru_pick, promote_all,
    status_after,
};
use crate::pool::{CredentialPool, Lease};
use crate::queue::BoundedQueue;
use vstd::prelude::*;

verus! {

/// What came of one call upstream.
#[derive(Debug, Clone, Copy, PartialEq, Eq, Structural)]
pub enum Outcome {
    /// No response arrived: the connection failed or timed out.
    TransportFailure,
    /// A response arrived.
    Response {
        /// Its HTTP status code.
        status: u16,
        /// Whether it carried the provider's own rate-limit signal.
        rate_limit_signal: bool,
    },
    /// The caller went away while the call was under way.
    Cancelled,
}

/// The reason that an outcome is booked under.
pub open spec fn classified(outcome: Outcome) -> Reason {
    match outcome {
        Outcome::TransportFailure => Reason::NetworkError,
        Outcome::Cancelled => Reason::Unknown,
        Outcome::Response { status, rate_limit_signal } => if status == 401 || status == 403 {
            Reason::AuthError
        } else if status == 429 || rate_limit_signal {
            Reason::RateLimited
        } else if 200 <= status < 300 {
            Reason::Success
        } else {
            Reason::Unknown
        },
    }
}

/// Books an outcome under a reason: a transport failure is a network error,
/// 401 and 403 are rejections, 429 or the provider's signal is a rate limit,
/// another 2xx is a success, and everything else is unknown.
pub fn classify(outcome: Outcome) -> (reason: Reason)
    ensures
        reason == classified(outcome),
{
    match outcome {
        Outcome::TransportFailure => Reason::NetworkError,
        Outcome::Cancelled => Reason::Unknown,
        Outcome::Response { status, rate_limit_signal } => {
            if status == 401 || status == 403 {
                Reason::AuthError
            } else if status == 429 || rate_limit_signal {
                Reason::RateLimited
            } else if 200 <= status && status < 300 {
                Reason::Success
            } else {
                Reason::Unknown
            }
        },
    }
}

/// After `attempts` attempts, the last of which ended for `reason`, the
/// request gets another attempt.
pub open spec fn retries(reason: Reason, attempts: int, retry_limit: int) -> bool {
    reason != Reason::Success && attempts < retry_limit
}

/// Decides whether a request gets another attempt.
pub fn should_retry(reason: Reason, attempts: u32, retry_limit: u32) -> (again: bool)
    ensures
        again == retries(reason, attempts as int, retry_limit as int),
{
    reason != Reason::Success && attempts < retry_limit
}

/// The failure that a caller receives when no credential is to be had.
pub open spec fn exhausted_failure() -> Failure {
    Failure::BackendServiceError("no credential is available"@)
}

/// The failure that a caller receives when the last attempt ended for
/// `reason` and none is left.
pub open spec fn failure_of(reason: Reason) -> Failure {
    match reason {
        Reason::AuthError => Failure::BackendAuthError("credential rejected"@),
        Reason::RateLimited => Failure::BackendRateLimited("rate limit reached"@),
        Reason::NetworkError => Failure::BackendServiceError("transport failure"@),
        Reason::Success | Reason::Unknown => Failure::BackendServiceError("unexpected outcome"@),
    }
}

/// Makes the failure for an exhausted pool.
fn exhausted() -> (error: HandlerError)
    ensures
        error@ == exhausted_failure(),
{
    HandlerError::BackendServiceError("no credential is available".to_owned())
}

/// Makes the failure for a last attempt that ended for `reason`.
pub fn failure_for(reason: Reason) -> (error: HandlerError)
    ensures
        error@ == failure_of(reason),
{
    match reason {
        Reason::AuthError => HandlerError::BackendAuthError("credential rejected".to_owned()),
        Reason::RateLimited => HandlerError::BackendRateLimited("rate limit reached".to_owned()),
        Reason::NetworkError => HandlerError::BackendServiceError("transport failure".to_owned()),
        Reason::Success | Reason::Unknown => HandlerError::BackendServiceError(
            "unexpected outcome".to_owned(),
        ),
    }
}

/// Mathematical model of an attempt.
pub struct AttemptModel {
    /// Identifier of the leased credential.
    pub id: u128,
    /// Kind of credential that the request needs.
    pub kind: KeyType,
    /// Which attempt of its request this is, counted from 1.
    pub number: u32,
    /// The secret that authenticates the call.
    pub secret: Seq<char>,
}

/// One attempt of a request: the lease it runs on and its number.
#[must_use]
#[derive(Debug)]
pub struct Attempt {
    lease: Lease,
    kind: KeyType,
    number: u32,
    secret: String,
}

impl View for Attempt {
    type V = AttemptModel;

    closed spec fn view(&self) -> AttemptModel {
        AttemptModel {
            id: self.lease@,
            kind: self.kind,
            number: self.number,
            secret: self.secret@,
        }
    }
}

impl Attempt {
    /// Identifier of the leased credential.
    pub fn id(&self) -> (id: u128)
        ensures
            id == self@.id,
    {
        self.lease.id()
    }

    /// Kind of credential that the request needs.
    pub fn key_type(&self) -> (kind: KeyType)
        ensures
            kind == self@.kind,
    {
        self.kind
    }

    /// Which attempt of its request this is, counted from 1.
    pub fn number(&self) -> (number: u32)
        ensures
            number == self@.number,
    {
        self.number
    }

    /// The secret that authenticates the call.
    pub fn secret(&self) -> (secret: &String)
        ensures
            secret@ == self@.secret,
    {
        &self.secret
    }
}

/// Which credential an attempt ran on and how it ended.
#[derive(Debug, Clone, Copy, PartialEq, Eq, Structural)]
pub struct Report {
    /// Identifier of the credential.
    pub id: u128,
    /// How the attempt ended.
    pub reason: Reason,
}

/// What follows an attempt.
#[derive(Debug)]
pub enum Decision {
    /// The response goes to the caller.
    Deliver,
    /// The request gets this further attempt.
    Retry(Attempt),
    /// This failure goes to the caller.
    Fail(HandlerError),
    /// The caller is gone; nothing goes anywhere.
    Discard,
}

/// The dispatcher: the pool, the requests that wait, and the retry limit.
///
/// `R` is what waits in the queue: a `DispatchRequest`, or one together with
/// the channels on which its caller expects the reply.
#[derive(Debug)]
pub struct Dispatcher<R> {
    /// The credentials.
    pub pool: CredentialPool,
    /// Requests that wait for a worker.
    pub queue: BoundedQueue<R>,
    /// Attempts that one request may take; the first is always made.
    pub retry_limit: u32,
}

impl<R> Dispatcher<R> {
    /// A dispatcher over `pool` with room for `queue_capacity` waiting
    /// requests.
    pub fn new(pool: CredentialPool, queue_capacity: usize, retry_limit: u32) -> (dispatcher: Self)
        ensures
            dispatcher.pool == pool,
            dispatcher.queue@ == Seq::<R>::empty(),
            dispatcher.queue.spec_capacity() == queue_capacity,
            dispatcher.retry_limit == retry_limit,
    {
        Dispatcher { pool, queue: BoundedQueue::new(queue_capacity), retry_limit }
    }

    /// The dispatcher that `config` describes, with room for
    /// `queue_capacity` waiting requests. There is none if two of the random
    /// identifiers drawn for its credentials are the same.
    pub fn from_config(config: &Config, queue_capacity: usize) -> (made: Option<Self>)
        ensures
            config.keys@.len() <= 1 ==> made is Some,
            match made {
                Some(dispatcher) => {
                    &&& dispatcher.retry_limit == config.retry_limit
                    &&& dispatcher.queue@ == Seq::<R>::empty()
                    &&& dispatcher.queue.spec_capacity() == queue_capacity
                    &&& dispatcher.pool.spec_cooldown() == config.cooldown_seconds
                    &&& dispatcher.pool@.len() == config.keys@.len()
                    &&& forall|i: int|
                        0 <= i < dispatcher.pool@.len() ==> #[trigger] dispatcher.pool@[i]
                            == config.keys@[i].credential(dispatcher.pool@[i].id)
                },
                None => true,
            },
    {
        match CredentialPool::from_config(config) {
            Some(pool) => Some(Dispatcher::new(pool, queue_capacity, config.retry_limit)),
            None => None,
        }
    }

    /// Puts `request` behind the requests that wait. A full queue hands it
    /// back at once.
    pub fn submit(&mut self, request: R) -> (r: Result<(), R>)
        ensures
            final(self).pool == old(self).pool,
            final(self).retry_limit == old(self).retry_limit,
            final(self).queue.spec_capacity() == old(self).queue.spec_capacity(),
            old(self).queue@.len() < old(self).queue.spec_capacity() ==> {
                &&& r is Ok
                &&& final(self).queue@ == old(self).queue@.push(request)
            },
            old(self).queue@.len() >= old(self).queue.spec_capacity() ==> {
                &&& r == Err::<(), R>(request)
                &&& final(self).queue@ == old(self).queue@
            },
    {
        self.queue.try_push(request)
    }

    /// Takes the request that has waited longest.
    pub fn next_request(&mut self) -> (r: Option<R>)
        ensures
            final(self).pool == old(self).pool,
            final(self).retry_limit == old(self).retry_limit,
            final(self).queue.spec_capacity() == old(self).queue.spec_capacity(),
            old(self).queue@.len() > 0 ==> {
                &&& r == Some(old(self).queue@[0])
                &&& final(self).queue@ == old(self).queue@.subrange(
                    1,
                    old(self).queue@.len() as int,
                )
            },
            old(self).queue@.len() == 0 ==> {
                &&& r is None
                &&& final(self).queue@ == old(self).queue@
            },
    {
        self.queue.pop()
    }

    /// Leases a credential of `kind` for attempt `number`.
    fn lease_for(&mut self, kind: KeyType, number: u32, now: u64) -> (r: Result<
        Attempt,
        HandlerError,
    >)
        ensures
            final(self).queue == old(self).queue,
            final(self).retry_limit == old(self).retry_limit,
            final(self).pool.spec_cooldown() == old(self).pool.spec_cooldown(),
            final(self).pool@ == after_acquire(
                old(self).pool@,
                kind,
                now,
                old(self).pool.spec_cooldown(),
            ),
            match lru_pick(
                promote_all(old(self).pool@, now, old(self).pool.spec_cooldown()),
                kind,
            ) {
                Some(i) => r is Ok && r->Ok_0@ == (AttemptModel {
                    id: old(self).pool@[i].id,
                    kind: kind,
                    number: number,
                    secret: old(self).pool@[i].secret,
                }),
                None => r is Err && r->Err_0@ == exhausted_failure(),
            },
    {
        match self.pool.acquire(kind, now) {
            Ok(lease) => {
                let ghost p = promote_all(old(self).pool@, now, old(self).pool.spec_cooldown());
                let ghost i = lru_pick(p, kind)->0;
                proof {
                    lemma_lru_pick_sound(p, kind);
                    assert(self.pool@[i].id == lease@);
                }
                let secret = match self.pool.get(lease.id()) {
                    Some(key) => {
                        proof {
                            let j = choose|j: int|
                                0 <= j < self.pool@.len() && self.pool@[j] == key@;
                            assert(j == i);
                        }
                        key.get_secret().clone()
                    },
                    None => String::new(),
                };
                Ok(Attempt { lease, kind, number, secret })
            },
            Err(_) => Err(exhausted()),
        }
    }

    /// Starts a request: leases a credential of `kind` for its first
    /// attempt. Without one the request fails at once, as a service error,
    /// and no call is to be made.
    pub fn begin(&mut self, kind: KeyType, now: u64) -> (r: Result<Attempt, HandlerError>)
        ensures
            final(self).queue == old(self).queue,
            final(self).retry_limit == old(self).retry_limit,
            final(self).pool.spec_cooldown() == old(self).pool.spec_cooldown(),
            final(self).pool@ == after_acquire(
                old(self).pool@,
                kind,
                now,
                old(self).pool.spec_cooldown(),
            ),
            match lru_pick(
                promote_all(old(self).pool@, now, old(self).pool.spec_cooldown()),
                kind,
            ) {
                Some(i) => r is Ok && r->Ok_0@ == (AttemptModel {
                    id: old(self).pool@[i].id,
                    kind: kind,
                    number: 1,
                    secret: old(self).pool@[i].secret,
                }),
                None => r is Err && r->Err_0@ == exhausted_failure(),
            },
    {
        self.lease_for(kind, 1, now)
    }

    /// Ends an attempt. The credential goes back to the pool under the
    /// reason that `outcome` is booked under, whatever else happens. Then:
    /// a cancelled call is discarded; a success is delivered; a failure gets
    /// a further attempt on a fresh lease while the attempts made are fewer
    /// than the retry limit, and fails at once if no credential is to be had
    /// for it; a failure with no attempt left goes to the caller.
    pub fn settle(&mut self, attempt: Attempt, outcome: Outcome, now: u64) -> (done: (
        Report,
        Decision,
    ))
        ensures
            final(self).queue == old(self).queue,
            final(self).retry_limit == old(self).retry_limit,
            final(self).pool.spec_cooldown() == old(self).pool.spec_cooldown(),
            done.0 == (Report { id: attempt@.id, reason: classified(outcome) }),
            final(self).pool@ == settled_pool(
                old(self).pool@,
                old(self).pool.spec_cooldown(),
                old(self).retry_limit,
                attempt@,
                outcome,
                now,
            ),
            is_decision(
                done.1,
                old(self).pool@,
                old(self).pool.spec_cooldown(),
                old(self).retry_limit,
                attempt@,
                outcome,
                now,
            ),
    {
        let reason = classify(outcome);
        let report = Report { id: attempt.lease.id(), reason };
        let kind = attempt.kind;
        let number = attempt.number;
        self.pool.release(attempt.lease, reason, now);
        let decision = match outcome {
            Outcome::Cancelled => Decision::Discard,
            _ => {
                if reason == Reason::Success {
                    Decision::Deliver
                } else if should_retry(reason, number, self.retry_limit) {
                    match self.lease_for(kind, number + 1, now) {
                        Ok(next) => Decision::Retry(next),
                        Err(error) => Decision::Fail(error),
                    }
                } else {
                    Decision::Fail(failure_for(reason))
                }
            },
        };
        (report, decision)
    }
}

/// The attempt ends with a further one, if a credential is to be had.
pub open spec fn tries_again(outcome: Outcome, attempt: AttemptModel, retry_limit: u32) -> bool {
    outcome != Outcome::Cancelled && retries(
        classified(outcome),
        attempt.number as int,
        retry_limit as int,
    )
}

/// Pool state after `settle`: the credential is back, and leased again
/// where a further attempt is made.
pub open spec fn settled_pool(
    pool: Seq<Credential>,
    cooldown: u64,
    retry_limit: u32,
    attempt: AttemptModel,
    outcome: Outcome,
    now: u64,
) -> Seq<Credential> {
    let back = after_release(pool, attempt.id, classified(outcome), now);
    if tries_again(outcome, attempt, retry_limit) {
        after_acquire(back, attempt.kind, now, cooldown)
    } else {
        back
    }
}

/// `decision` is what `settle` says of an attempt that ended with `outcome`.
pub open spec fn is_decision(
    decision: Decision,
    pool: Seq<Credential>,
    cooldown: u64,
    retry_limit: u32,
    attempt: AttemptModel,
    outcome: Outcome,
    now: u64,
) -> bool {
    let reason = classified(outcome);
    let back = after_release(pool, attempt.id, reason, now);
    if outcome == Outcome::Cancelled {
        decision is Discard
    } else if reason == Reason::Success {
        decision is Deliver
    } else if retries(reason, attempt.number as int, retry_limit as int) {
        match lru_pick(promote_all(back, now, cooldown), attempt.kind) {
            Some(i) => decision is Retry && decision->Retry_0@ == (AttemptModel {
                id: back[i].id,
                kind: attempt.kind,
                number: (attempt.number + 1) as u32,
                secret: back[i].secret,
            }),
            None => decision is Fail && decision->Fail_0@ == exhausted_failure(),
        }
    } else {
        decision is Fail && decision->Fail_0@ == failure_of(reason)
    }
}

/// No credential is left stranded. After `settle` the credential that the
/// attempt ran on is back in the pool, whatever the outcome was; it is in
/// use again only where the further attempt runs on it, which takes a
/// cooldown interval of zero and a failure other than a rejection.
pub proof fn law_nothing_stranded(
    pool: Seq<Credential>,
    cooldown: u64,
    retry_limit: u32,
    attempt: AttemptModel,
    outcome: Outcome,
    now: u64,
    i: int,
)
    requires
        distinct_ids(pool),
        0 <= i < pool.len(),
        pool[i].id == attempt.id,
        pool[i].status == KeyStatus::InUse,
    ensures
        ({
            let reason = classified(outcome);
            let back = after_release(pool, attempt.id, reason, now);
            let after = settled_pool(pool, cooldown, retry_limit, attempt, outcome, now);
            &&& back[i].status == status_after(reason)
            &&& back[i].status != KeyStatus::InUse
            &&& after[i].status == KeyStatus::InUse ==> {
                &&& tries_again(outcome, attempt, retry_limit)
                &&& lru_pick(promote_all(back, now, cooldown), attempt.kind) == Some(i)
                &&& cooldown == 0
                &&& reason != Reason::AuthError
            }
        }),
{
    let reason = classified(outcome);
    let back = after_release(pool, attempt.id, reason, now);
    let p = promote_all(back, now, cooldown);
    if tries_again(outcome, attempt, retry_limit) && lru_pick(p, attempt.kind) is Some {
        lemma_lru_pick_sound(p, attempt.kind);
    }
}

/// A request is attempted at most `retry_limit + 1` times. Let `reasons`
/// hold how each attempt of one request ended, in order; every attempt but
/// the last was followed by another, so `retries` held after it. Then there
/// are at most `retry_limit` attempts, or one where the limit is zero.
pub proof fn law_attempts_bounded(reasons: Seq<Reason>, retry_limit: u32)
    requires
        forall|k: int|
            0 <= k < reasons.len() - 1 ==> retries(
                #[trigger] reasons[k],
                k + 1,
                retry_limit as int,
            ),
    ensures
        reasons.len() <= retry_limit + 1,
        reasons.len() <= retry_limit || reasons.len() <= 1,
{
    if reasons.len() >= 2 {
        assert(retries(reasons[reasons.len() - 2], reasons.len() - 1, retry_limit as int));
    }
}

} // verus!
