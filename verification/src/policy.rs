//! The pool's rules, stated over sequences of credential models.
//!
//! Everything here is mathematics: the executable pool promises that its
//! state moves exactly as these functions say.

use crate::models::{Credential, KeyStatus, KeyType, Reason};
use vstd::prelude::*;

verus! {

/// No identifier occurs twice.
pub open spec fn distinct_ids(s: Seq<Credential>) -> bool {
    forall|i: int, j: int|
        0 <= i < s.len() && 0 <= j < s.len() && i != j ==> #[trigger] s[i].id != #[trigger] s[j].id
}

/// Some credential of `s` carries the identifier `id`.
pub open spec fn has_id(s: Seq<Credential>, id: u128) -> bool {
    exists|i: int| 0 <= i < s.len() && #[trigger] s[i].id == id
}

/// The credential is cooling down and its cooldown is over at time `now`.
/// One that was never used has nothing left to wait for.
pub open spec fn cooled_down(c: Credential, now: u64, cooldown: u64) -> bool {
    c.status == KeyStatus::CoolingDown && match c.last_used {
        Some(since) => since + cooldown <= now,
        None => true,
    }
}

/// The credential as a query at time `now` sees it: a cooldown that is over
/// has turned into `Available`.
pub open spec fn promoted(c: Credential, now: u64, cooldown: u64) -> Credential {
    if cooled_down(c, now, cooldown) {
        Credential { status: KeyStatus::Available, ..c }
    } else {
        c
    }
}

/// Every credential promoted as of `now`.
pub open spec fn promote_all(s: Seq<Credential>, now: u64, cooldown: u64) -> Seq<Credential> {
    Seq::new(s.len(), |i: int| promoted(s[i], now, cooldown))
}

/// The credential may be leased to a request for `kind`.
pub open spec fn eligible(c: Credential, kind: KeyType) -> bool {
    c.kind == kind && c.status == KeyStatus::Available
}

/// Position of a credential in time: never used comes before every use.
pub open spec fn last_use_rank(c: Credential) -> int {
    match c.last_used {
        Some(t) => t as int,
        None => -1,
    }
}

/// `s[i]` is the least recently used eligible credential; among equally old
/// ones it is the first in pool order.
pub open spec fn is_lru(s: Seq<Credential>, kind: KeyType, i: int) -> bool {
    &&& 0 <= i < s.len()
    &&& eligible(s[i], kind)
    &&& forall|j: int|
        0 <= j < s.len() && eligible(#[trigger] s[j], kind) ==> {
            &&& last_use_rank(s[i]) <= last_use_rank(s[j])
            &&& j < i ==> last_use_rank(s[i]) < last_use_rank(s[j])
        }
}

/// The index that selection picks, if any credential is eligible.
pub open spec fn lru_pick(s: Seq<Credential>, kind: KeyType) -> Option<int> {
    if exists|i: int| is_lru(s, kind, i) {
        Some(choose|i: int| is_lru(s, kind, i))
    } else {
        None
    }
}

/// The credential while it is leased.
pub open spec fn leased(c: Credential) -> Credential {
    Credential { status: KeyStatus::InUse, ..c }
}

/// Pool state after an acquisition for `kind` at time `now`.
pub open spec fn after_acquire(s: Seq<Credential>, kind: KeyType, now: u64, cooldown: u64) -> Seq<
    Credential,
> {
    let p = promote_all(s, now, cooldown);
    match lru_pick(p, kind) {
        Some(i) => p.update(i, leased(p[i])),
        None => p,
    }
}

/// State that a returned credential moves to.
pub open spec fn status_after(reason: Reason) -> KeyStatus {
    match reason {
        Reason::Success => KeyStatus::Available,
        Reason::AuthError => KeyStatus::Invalid,
        Reason::RateLimited | Reason::NetworkError | Reason::Unknown => KeyStatus::CoolingDown,
    }
}

/// The credential after it came back at time `now` for `reason`. A rejected
/// credential keeps its last-use time; every other outcome counts as a use.
pub open spec fn returned(c: Credential, reason: Reason, now: u64) -> Credential {
    Credential {
        status: status_after(reason),
        last_used: if reason == Reason::AuthError {
            c.last_used
        } else {
            Some(now)
        },
        ..c
    }
}

/// Pool state after the lease on `id` came back at time `now` for `reason`.
pub open spec fn after_release(s: Seq<Credential>, id: u128, reason: Reason, now: u64) -> Seq<
    Credential,
> {
    Seq::new(
        s.len(),
        |i: int|
            if s[i].id == id && s[i].status == KeyStatus::InUse {
                returned(s[i], reason, now)
            } else {
                s[i]
            },
    )
}

/// Selection is a function: two indices that both qualify are the same.
pub proof fn lemma_lru_unique(s: Seq<Credential>, kind: KeyType, i: int, j: int)
    requires
        is_lru(s, kind, i),
        is_lru(s, kind, j),
    ensures
        i == j,
{
}

/// `lru_pick` returns the index that qualifies.
pub proof fn lemma_lru_pick_is(s: Seq<Credential>, kind: KeyType, i: int)
    requires
        is_lru(s, kind, i),
    ensures
        lru_pick(s, kind) == Some(i),
{
    let k = choose|k: int| is_lru(s, kind, k);
    lemma_lru_unique(s, kind, i, k);
}

/// `lru_pick` finds nothing where nothing is eligible.
pub proof fn lemma_lru_pick_none(s: Seq<Credential>, kind: KeyType)
    requires
        forall|j: int| 0 <= j < s.len() ==> !eligible(#[trigger] s[j], kind),
    ensures
        lru_pick(s, kind) == None::<int>,
{
}

/// What selection picks is eligible: of the requested kind and `Available`
/// at the moment of selection, and no eligible credential was used longer ago.
pub proof fn lemma_lru_pick_sound(s: Seq<Credential>, kind: KeyType)
    requires
        lru_pick(s, kind) is Some,
    ensures
        is_lru(s, kind, lru_pick(s, kind)->0),
{
}

/// Selection succeeds whenever some credential is eligible.
pub proof fn lemma_lru_pick_complete(s: Seq<Credential>, kind: KeyType, j: int)
    requires
        0 <= j < s.len(),
        eligible(s[j], kind),
    ensures
        lru_pick(s, kind) is Some,
    decreases s.len(),
{
    let n = s.len() - 1;
    let t = s.drop_last();
    if exists|k: int| 0 <= k < n && eligible(#[trigger] s[k], kind) {
        let k = choose|k: int| 0 <= k < n && eligible(#[trigger] s[k], kind);
        lemma_lru_pick_complete(t, kind, k);
        lemma_lru_pick_sound(t, kind);
        let b = lru_pick(t, kind)->0;
        assert(forall|k: int| 0 <= k < n ==> t[k] == s[k]);
        if eligible(s[n], kind) && last_use_rank(s[n]) < last_use_rank(s[b]) {
            assert(is_lru(s, kind, n));
        } else {
            assert(is_lru(s, kind, b));
        }
    } else {
        assert(is_lru(s, kind, n));
    }
}

/// One operation on a pool.
pub enum PoolOp {
    /// A credential is put into the pool.
    Add { credential: Credential },
    /// Cooldowns that are over at `now` end.
    Promote { now: u64 },
    /// A credential of `kind` is requested at time `now`.
    Acquire { kind: KeyType, now: u64 },
    /// The lease on `id` comes back at time `now` for `reason`.
    Release { id: u128, reason: Reason, now: u64 },
}

/// Pool state after one operation.
pub open spec fn step(s: Seq<Credential>, op: PoolOp, cooldown: u64) -> Seq<Credential> {
    match op {
        PoolOp::Add { credential } => if has_id(s, credential.id) {
            s
        } else {
            s.push(credential)
        },
        PoolOp::Promote { now } => promote_all(s, now, cooldown),
        PoolOp::Acquire { kind, now } => after_acquire(s, kind, now, cooldown),
        PoolOp::Release { id, reason, now } => after_release(s, id, reason, now),
    }
}

/// Pool state after the operations `ops`, first to last.
pub open spec fn run(s: Seq<Credential>, ops: Seq<PoolOp>, cooldown: u64) -> Seq<Credential>
    decreases ops.len(),
{
    if ops.len() == 0 {
        s
    } else {
        step(run(s, ops.drop_last(), cooldown), ops.last(), cooldown)
    }
}

/// None of the operations `ops` returns the lease on `id`.
pub open spec fn keeps_lease(ops: Seq<PoolOp>, id: u128) -> bool {
    forall|k: int|
        0 <= k < ops.len() ==> match #[trigger] ops[k] {
            PoolOp::Release { id: returned_id, .. } => returned_id != id,
            _ => true,
        }
}

/// No operation removes, reorders or renames a credential, and none lets an
/// identifier occur twice.
pub proof fn law_step_keeps_identity(s: Seq<Credential>, op: PoolOp, cooldown: u64)
    requires
        distinct_ids(s),
    ensures
        distinct_ids(step(s, op, cooldown)),
        step(s, op, cooldown).len() >= s.len(),
        forall|i: int|
            0 <= i < s.len() ==> {
                &&& (#[trigger] step(s, op, cooldown)[i]).id == s[i].id
                &&& step(s, op, cooldown)[i].kind == s[i].kind
                &&& step(s, op, cooldown)[i].secret == s[i].secret
            },
{
    let t = step(s, op, cooldown);
    match op {
        PoolOp::Add { credential } => {
            if !has_id(s, credential.id) {
                assert forall|i: int, j: int|
                    0 <= i < t.len() && 0 <= j < t.len() && i != j implies #[trigger] t[i].id
                    != #[trigger] t[j].id by {
                    if i == s.len() {
                        assert(s[j].id != credential.id);
                    } else if j == s.len() {
                        assert(s[i].id != credential.id);
                    }
                }
            }
        },
        _ => {},
    }
}

/// The same over any number of operations.
pub proof fn law_run_keeps_identity(s: Seq<Credential>, ops: Seq<PoolOp>, cooldown: u64)
    requires
        distinct_ids(s),
    ensures
        distinct_ids(run(s, ops, cooldown)),
        run(s, ops, cooldown).len() >= s.len(),
        forall|i: int|
            0 <= i < s.len() ==> {
                &&& (#[trigger] run(s, ops, cooldown)[i]).id == s[i].id
                &&& run(s, ops, cooldown)[i].kind == s[i].kind
                &&& run(s, ops, cooldown)[i].secret == s[i].secret
            },
    decreases ops.len(),
{
    if ops.len() > 0 {
        law_run_keeps_identity(s, ops.drop_last(), cooldown);
        law_step_keeps_identity(run(s, ops.drop_last(), cooldown), ops.last(), cooldown);
    }
}

/// A return touches the credential of the lease and no other.
pub proof fn law_release_touches_one(s: Seq<Credential>, i: int, reason: Reason, now: u64)
    requires
        distinct_ids(s),
        0 <= i < s.len(),
        s[i].status == KeyStatus::InUse,
    ensures
        after_release(s, s[i].id, reason, now) == s.update(i, returned(s[i], reason, now)),
{
    assert(after_release(s, s[i].id, reason, now) =~= s.update(i, returned(s[i], reason, now)));
}

/// After a lease comes back with `Success` its credential is `Available`
/// and its last use is the time of the return.
pub proof fn law_success_frees(s: Seq<Credential>, i: int, now: u64)
    requires
        0 <= i < s.len(),
        s[i].status == KeyStatus::InUse,
    ensures
        after_release(s, s[i].id, Reason::Success, now)[i].status == KeyStatus::Available,
        after_release(s, s[i].id, Reason::Success, now)[i].last_used == Some(now),
{
}

/// After a lease comes back with `AuthError` its credential is `Invalid`,
/// and its last-use time is what it was.
pub proof fn law_rejection_invalidates(s: Seq<Credential>, i: int, now: u64)
    requires
        0 <= i < s.len(),
        s[i].status == KeyStatus::InUse,
    ensures
        after_release(s, s[i].id, Reason::AuthError, now)[i].status == KeyStatus::Invalid,
        after_release(s, s[i].id, Reason::AuthError, now)[i].last_used == s[i].last_used,
{
}

/// `Invalid` is final: whatever is done to the pool afterwards, at whatever
/// times, an invalid credential stays invalid.
pub proof fn law_invalid_stays(s: Seq<Credential>, i: int, ops: Seq<PoolOp>, cooldown: u64)
    requires
        0 <= i < s.len(),
        s[i].status == KeyStatus::Invalid,
    ensures
        i < run(s, ops, cooldown).len(),
        run(s, ops, cooldown)[i].status == KeyStatus::Invalid,
    decreases ops.len(),
{
    if ops.len() > 0 {
        law_invalid_stays(s, i, ops.drop_last(), cooldown);
        let r = run(s, ops.drop_last(), cooldown);
        match ops.last() {
            PoolOp::Acquire { kind, now } => {
                let p = promote_all(r, now, cooldown);
                if lru_pick(p, kind) is Some {
                    lemma_lru_pick_sound(p, kind);
                }
            },
            _ => {},
        }
    }
}

/// An invalid credential is never leased again: no acquisition that follows
/// any run of operations picks it or returns its identifier.
pub proof fn law_invalid_never_leased(
    s: Seq<Credential>,
    i: int,
    ops: Seq<PoolOp>,
    kind: KeyType,
    now: u64,
    cooldown: u64,
)
    requires
        distinct_ids(s),
        0 <= i < s.len(),
        s[i].status == KeyStatus::Invalid,
    ensures
        ({
            let later = run(s, ops, cooldown);
            match lru_pick(promote_all(later, now, cooldown), kind) {
                Some(k) => k != i && later[k].id != s[i].id,
                None => true,
            }
        }),
{
    law_invalid_stays(s, i, ops, cooldown);
    law_run_keeps_identity(s, ops, cooldown);
    let p = promote_all(run(s, ops, cooldown), now, cooldown);
    if lru_pick(p, kind) is Some {
        lemma_lru_pick_sound(p, kind);
    }
}

/// A credential that came back for a reason that calls for a cooldown is
/// `CoolingDown` to every query before the return time plus the cooldown
/// interval, and `Available` to every query from then on.
pub proof fn law_cooldown_window(
    s: Seq<Credential>,
    i: int,
    reason: Reason,
    now: u64,
    cooldown: u64,
    query: u64,
)
    requires
        0 <= i < s.len(),
        s[i].status == KeyStatus::InUse,
        status_after(reason) == KeyStatus::CoolingDown,
    ensures
        query < now + cooldown ==> promoted(
            after_release(s, s[i].id, reason, now)[i],
            query,
            cooldown,
        ).status == KeyStatus::CoolingDown,
        query >= now + cooldown ==> promoted(
            after_release(s, s[i].id, reason, now)[i],
            query,
            cooldown,
        ).status == KeyStatus::Available,
{
}

/// An acquisition leases only what is of the requested kind and `Available`
/// at the moment of selection, and leaves it `InUse`.
pub proof fn law_leases_only_available(
    s: Seq<Credential>,
    kind: KeyType,
    now: u64,
    cooldown: u64,
)
    requires
        lru_pick(promote_all(s, now, cooldown), kind) is Some,
    ensures
        ({
            let p = promote_all(s, now, cooldown);
            let i = lru_pick(p, kind)->0;
            &&& 0 <= i < s.len()
            &&& p[i].kind == kind
            &&& p[i].status == KeyStatus::Available
            &&& after_acquire(s, kind, now, cooldown)[i] == leased(p[i])
            &&& after_acquire(s, kind, now, cooldown)[i].id == s[i].id
        }),
{
    lemma_lru_pick_sound(promote_all(s, now, cooldown), kind);
}

/// A credential stays `InUse` until its lease comes back, whatever else is
/// done to the pool.
pub proof fn law_lease_lasts(s: Seq<Credential>, i: int, ops: Seq<PoolOp>, cooldown: u64)
    requires
        distinct_ids(s),
        0 <= i < s.len(),
        s[i].status == KeyStatus::InUse,
        keeps_lease(ops, s[i].id),
    ensures
        i < run(s, ops, cooldown).len(),
        run(s, ops, cooldown)[i].status == KeyStatus::InUse,
    decreases ops.len(),
{
    if ops.len() > 0 {
        let earlier = ops.drop_last();
        assert(keeps_lease(earlier, s[i].id)) by {
            assert(forall|k: int| 0 <= k < earlier.len() ==> earlier[k] == ops[k]);
        }
        law_lease_lasts(s, i, earlier, cooldown);
        law_run_keeps_identity(s, earlier, cooldown);
        let r = run(s, earlier, cooldown);
        assert(ops[ops.len() - 1] == ops.last());
        match ops.last() {
            PoolOp::Acquire { kind, now } => {
                let p = promote_all(r, now, cooldown);
                if lru_pick(p, kind) is Some {
                    lemma_lru_pick_sound(p, kind);
                }
            },
            _ => {},
        }
    }
}

/// A lease is exclusive: while it is out, no acquisition, of any kind and at
/// any time, returns the same identifier.
pub proof fn law_lease_is_exclusive(
    s: Seq<Credential>,
    i: int,
    ops: Seq<PoolOp>,
    kind: KeyType,
    now: u64,
    cooldown: u64,
)
    requires
        distinct_ids(s),
        0 <= i < s.len(),
        s[i].status == KeyStatus::InUse,
        keeps_lease(ops, s[i].id),
    ensures
        ({
            let later = run(s, ops, cooldown);
            match lru_pick(promote_all(later, now, cooldown), kind) {
                Some(k) => k != i && later[k].id != s[i].id,
                None => true,
            }
        }),
{
    law_lease_lasts(s, i, ops, cooldown);
    law_run_keeps_identity(s, ops, cooldown);
    let p = promote_all(run(s, ops, cooldown), now, cooldown);
    if lru_pick(p, kind) is Some {
        lemma_lru_pick_sound(p, kind);
    }
}

} // verus!
