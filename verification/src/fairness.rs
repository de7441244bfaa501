//! Fairness of least-recently-used selection.
//!
//! When every request succeeds on its first attempt, selection cycles
//! through the credentials of a kind: none gets ahead of another by more
//! than one use.

use crate::models::{Credential, KeyStatus, KeyType, Reason};
use crate::policy::{
    after_acquire, after_release, distinct_ids, eligible, last_use_rank, leased,
    lemma_lru_pick_complete, lemma_lru_pick_sound, lru_pick, promote_all, returned,
};
use vstd::prelude::*;

verus! {

/// `i` is the index of a credential that may be leased for `kind`.
pub open spec fn member(s: Seq<Credential>, kind: KeyType, i: int) -> bool {
    0 <= i < s.len() && eligible(s[i], kind)
}

/// No credential of `kind` is cooling down, so none joins the eligible ones
/// later on.
pub open spec fn steady(s: Seq<Credential>, kind: KeyType) -> bool {
    forall|i: int|
        0 <= i < s.len() && (#[trigger] s[i]).kind == kind ==> s[i].status
            != KeyStatus::CoolingDown
}

/// How many of the first `n` credentials may be leased for `kind`.
pub open spec fn members(s: Seq<Credential>, kind: KeyType, n: int) -> nat
    decreases n,
{
    if n <= 0 {
        0
    } else {
        members(s, kind, n - 1) + if member(s, kind, n - 1) {
            1nat
        } else {
            0nat
        }
    }
}

/// Pool state after one request for `kind` that acquires at time `at.0` and
/// returns its credential with `Success` at time `at.1`.
pub open spec fn serve(s: Seq<Credential>, kind: KeyType, at: (u64, u64), cooldown: u64) -> Seq<
    Credential,
> {
    let p = promote_all(s, at.0, cooldown);
    let leased_out = after_acquire(s, kind, at.0, cooldown);
    match lru_pick(p, kind) {
        Some(i) => after_release(leased_out, p[i].id, Reason::Success, at.1),
        None => leased_out,
    }
}

/// Pool state after the requests `times`, one after the other.
pub open spec fn served(
    s: Seq<Credential>,
    kind: KeyType,
    times: Seq<(u64, u64)>,
    cooldown: u64,
) -> Seq<Credential>
    decreases times.len(),
{
    if times.len() == 0 {
        s
    } else {
        serve(served(s, kind, times.drop_last(), cooldown), kind, times.last(), cooldown)
    }
}

/// How many of the requests `times` were served by the credential at `i`.
pub open spec fn uses(
    s: Seq<Credential>,
    kind: KeyType,
    times: Seq<(u64, u64)>,
    cooldown: u64,
    i: int,
) -> nat
    decreases times.len(),
{
    if times.len() == 0 {
        0
    } else {
        let before = served(s, kind, times.drop_last(), cooldown);
        let pick = lru_pick(promote_all(before, times.last().0, cooldown), kind);
        uses(s, kind, times.drop_last(), cooldown, i) + if pick == Some(i) {
            1nat
        } else {
            0nat
        }
    }
}

/// Every return happens later than the one before it, and later than every
/// last use that the credentials of `kind` start with.
pub open spec fn returns_advance(
    s: Seq<Credential>,
    kind: KeyType,
    times: Seq<(u64, u64)>,
) -> bool {
    &&& forall|m: int, i: int|
        0 <= m < times.len() && member(s, kind, i) ==> last_use_rank(#[trigger] s[i])
            < (#[trigger] times[m]).1
    &&& forall|m: int, n: int|
        0 <= m < n < times.len() ==> (#[trigger] times[m]).1 < (#[trigger] times[n]).1
}

/// `i` comes before `j` in the order in which selection takes credentials.
spec fn precedes(s: Seq<Credential>, i: int, j: int) -> bool {
    ||| last_use_rank(s[i]) < last_use_rank(s[j])
    ||| last_use_rank(s[i]) == last_use_rank(s[j]) && i < j
}

/// What holds of the pool between any two requests of a run.
spec fn balanced(
    s: Seq<Credential>,
    kind: KeyType,
    times: Seq<(u64, u64)>,
    cooldown: u64,
) -> bool {
    let t = served(s, kind, times, cooldown);
    &&& t.len() == s.len()
    &&& distinct_ids(t)
    &&& forall|i: int| 0 <= i < s.len() ==> (#[trigger] t[i]).kind == s[i].kind
    &&& forall|i: int|
        0 <= i < s.len() && s[i].kind == kind ==> (#[trigger] t[i]).status == s[i].status
    &&& forall|i: int|
        member(s, kind, i) ==> {
            ||| last_use_rank(#[trigger] t[i]) == last_use_rank(s[i])
            ||| times.len() > 0 && last_use_rank(t[i]) <= times.last().1
        }
    &&& forall|i: int, j: int|
        member(s, kind, i) && member(s, kind, j) ==> #[trigger] uses(s, kind, times, cooldown, i)
            <= #[trigger] uses(s, kind, times, cooldown, j) + 1
    &&& forall|i: int, j: int|
        member(s, kind, i) && member(s, kind, j) && #[trigger] uses(s, kind, times, cooldown, i)
            > #[trigger] uses(s, kind, times, cooldown, j) ==> precedes(t, j, i)
}

proof fn lemma_balanced(s: Seq<Credential>, kind: KeyType, times: Seq<(u64, u64)>, cooldown: u64)
    requires
        distinct_ids(s),
        steady(s, kind),
        returns_advance(s, kind, times),
    ensures
        balanced(s, kind, times, cooldown),
    decreases times.len(),
{
    if times.len() > 0 {
        let earlier = times.drop_last();
        assert(returns_advance(s, kind, earlier)) by {
            assert(forall|m: int| 0 <= m < earlier.len() ==> earlier[m] == times[m]);
        }
        lemma_balanced(s, kind, earlier, cooldown);
        let t = served(s, kind, earlier, cooldown);
        let at = times.last();
        let p = promote_all(t, at.0, cooldown);
        let u = served(s, kind, times, cooldown);
        assert(forall|i: int| 0 <= i < s.len() && s[i].kind == kind ==> p[i] == t[i]);
        assert(forall|i: int| member(s, kind, i) ==> last_use_rank(#[trigger] t[i]) < at.1) by {
            assert forall|i: int| member(s, kind, i) implies last_use_rank(#[trigger] t[i])
                < at.1 by {
                assert(times[times.len() - 1] == at);
                if earlier.len() > 0 {
                    assert(earlier.last() == times[times.len() - 2]);
                }
            }
        }
        match lru_pick(p, kind) {
            Some(m) => {
                lemma_lru_pick_sound(p, kind);
                let leased_out = p.update(m, leased(p[m]));
                assert(u =~= leased_out.update(m, returned(leased(p[m]), Reason::Success, at.1)));
                assert forall|i: int, j: int|
                    member(s, kind, i) && member(s, kind, j) implies #[trigger] uses(
                    s,
                    kind,
                    times,
                    cooldown,
                    i,
                ) <= #[trigger] uses(s, kind, times, cooldown, j) + 1 by {
                    lemma_pick_is_least_used(s, kind, earlier, cooldown, at.0, i);
                    lemma_pick_is_least_used(s, kind, earlier, cooldown, at.0, j);
                }
                assert forall|i: int, j: int|
                    member(s, kind, i) && member(s, kind, j) && #[trigger] uses(
                        s,
                        kind,
                        times,
                        cooldown,
                        i,
                    ) > #[trigger] uses(s, kind, times, cooldown, j) implies precedes(u, j, i) by {
                    lemma_pick_is_least_used(s, kind, earlier, cooldown, at.0, i);
                    lemma_pick_is_least_used(s, kind, earlier, cooldown, at.0, j);
                }
            },
            None => {
                assert(u =~= p);
                assert forall|i: int| member(s, kind, i) implies false by {
                    lemma_lru_pick_complete(p, kind, i);
                }
            },
        }
    }
}

/// The credential that selection takes has been used no more often than any
/// other of its kind.
proof fn lemma_pick_is_least_used(
    s: Seq<Credential>,
    kind: KeyType,
    times: Seq<(u64, u64)>,
    cooldown: u64,
    now: u64,
    j: int,
)
    requires
        balanced(s, kind, times, cooldown),
        steady(s, kind),
        member(s, kind, j),
        lru_pick(promote_all(served(s, kind, times, cooldown), now, cooldown), kind) is Some,
    ensures
        ({
            let t = served(s, kind, times, cooldown);
            let m = lru_pick(promote_all(t, now, cooldown), kind)->0;
            &&& member(s, kind, m)
            &&& uses(s, kind, times, cooldown, m) <= uses(s, kind, times, cooldown, j)
        }),
{
    let t = served(s, kind, times, cooldown);
    let p = promote_all(t, now, cooldown);
    lemma_lru_pick_sound(p, kind);
    let m = lru_pick(p, kind)->0;
    assert(p[j] == t[j]);
    assert(p[m].kind == t[m].kind);
    assert(eligible(p[j], kind));
    if uses(s, kind, times, cooldown, m) > uses(s, kind, times, cooldown, j) {
        assert(precedes(t, j, m));
        assert(p[m] == t[m]);
    }
}

/// How many of the requests `times` were served by the first `n`
/// credentials together.
spec fn total_uses(
    s: Seq<Credential>,
    kind: KeyType,
    times: Seq<(u64, u64)>,
    cooldown: u64,
    n: int,
) -> nat
    decreases n,
{
    if n <= 0 {
        0
    } else {
        total_uses(s, kind, times, cooldown, n - 1) + if member(s, kind, n - 1) {
            uses(s, kind, times, cooldown, n - 1)
        } else {
            0nat
        }
    }
}

/// One more request adds one use to the total if it is served, and nothing
/// otherwise.
proof fn lemma_total_grows(
    s: Seq<Credential>,
    kind: KeyType,
    times: Seq<(u64, u64)>,
    cooldown: u64,
    n: int,
)
    requires
        times.len() > 0,
    ensures
        ({
            let before = served(s, kind, times.drop_last(), cooldown);
            let pick = lru_pick(promote_all(before, times.last().0, cooldown), kind);
            total_uses(s, kind, times, cooldown, n) == total_uses(
                s,
                kind,
                times.drop_last(),
                cooldown,
                n,
            ) + if pick is Some && pick->0 < n && member(s, kind, pick->0) {
                1nat
            } else {
                0nat
            }
        }),
    decreases n,
{
    if n > 0 {
        lemma_total_grows(s, kind, times, cooldown, n - 1);
    }
}

/// Every request is served while a credential is eligible, so the uses add
/// up to the number of requests.
proof fn lemma_total_is_requests(
    s: Seq<Credential>,
    kind: KeyType,
    times: Seq<(u64, u64)>,
    cooldown: u64,
)
    requires
        distinct_ids(s),
        steady(s, kind),
        returns_advance(s, kind, times),
        members(s, kind, s.len() as int) > 0,
    ensures
        total_uses(s, kind, times, cooldown, s.len() as int) == times.len(),
    decreases times.len(),
{
    if times.len() == 0 {
        lemma_no_uses_yet(s, kind, times, cooldown, s.len() as int);
    } else {
        let earlier = times.drop_last();
        assert(returns_advance(s, kind, earlier)) by {
            assert(forall|m: int| 0 <= m < earlier.len() ==> earlier[m] == times[m]);
        }
        lemma_total_is_requests(s, kind, earlier, cooldown);
        lemma_balanced(s, kind, earlier, cooldown);
        lemma_total_grows(s, kind, times, cooldown, s.len() as int);
        let t = served(s, kind, earlier, cooldown);
        let p = promote_all(t, times.last().0, cooldown);
        let j = lemma_some_member(s, kind, s.len() as int);
        assert(p[j] == t[j]);
        lemma_lru_pick_complete(p, kind, j);
        lemma_lru_pick_sound(p, kind);
        let m = lru_pick(p, kind)->0;
        assert(p[m].kind == t[m].kind);
        assert(p[m] == t[m]);
    }
}

proof fn lemma_no_uses_yet(
    s: Seq<Credential>,
    kind: KeyType,
    times: Seq<(u64, u64)>,
    cooldown: u64,
    n: int,
)
    requires
        times.len() == 0,
    ensures
        total_uses(s, kind, times, cooldown, n) == 0,
    decreases n,
{
    if n > 0 {
        lemma_no_uses_yet(s, kind, times, cooldown, n - 1);
    }
}

proof fn lemma_some_member(s: Seq<Credential>, kind: KeyType, n: int) -> (j: int)
    requires
        members(s, kind, n) > 0,
        n <= s.len(),
    ensures
        member(s, kind, j),
        j < n,
    decreases n,
{
    if member(s, kind, n - 1) {
        n - 1
    } else {
        lemma_some_member(s, kind, n - 1)
    }
}

/// If every eligible credential has served `low` to `high` requests, the
/// total lies between as many times `low` and as many times `high`; the
/// credential at `i`, which served `own`, narrows that by what it differs.
proof fn lemma_total_between(
    s: Seq<Credential>,
    kind: KeyType,
    times: Seq<(u64, u64)>,
    cooldown: u64,
    n: int,
    i: int,
    low: int,
    high: int,
)
    requires
        0 <= n <= s.len(),
        member(s, kind, i),
        forall|j: int|
            member(s, kind, j) ==> low <= #[trigger] uses(s, kind, times, cooldown, j) <= high,
    ensures
        ({
            let own = uses(s, kind, times, cooldown, i) as int;
            let count = members(s, kind, n) as int;
            let all = total_uses(s, kind, times, cooldown, n) as int;
            if i < n {
                count * low + (own - low) <= all <= count * high - (high - own)
            } else {
                count * low <= all <= count * high
            }
        }),
    decreases n,
{
    let count = members(s, kind, n) as int;
    if n <= 0 {
        assert(count * low == 0 && count * high == 0) by (nonlinear_arith)
            requires
                count == 0,
        ;
    } else {
        lemma_total_between(s, kind, times, cooldown, n - 1, i, low, high);
        let before = members(s, kind, n - 1) as int;
        if member(s, kind, n - 1) {
            assert(count == before + 1);
            assert(count * low == before * low + low && count * high == before * high + high)
                by (nonlinear_arith)
                requires
                    count == before + 1,
            ;
            assert(low <= uses(s, kind, times, cooldown, n - 1) <= high);
        } else {
            assert(count == before);
        }
    }
}

/// Least-recently-used selection is fair. Take a pool in which no
/// credential of `kind` is cooling down, and serve any number of requests
/// for that kind one after the other, each succeeding on its first attempt
/// and each returning its credential later than the one before. Then at the
/// end, and so after every request on the way, no eligible credential has
/// served more than one request more than any other. In particular none has
/// served more than `bound + 1` requests unless every other has served at
/// least `bound - 1`, whatever `bound` is.
pub proof fn law_lru_is_fair(
    s: Seq<Credential>,
    kind: KeyType,
    times: Seq<(u64, u64)>,
    cooldown: u64,
    i: int,
    j: int,
    bound: int,
)
    requires
        distinct_ids(s),
        steady(s, kind),
        returns_advance(s, kind, times),
        member(s, kind, i),
        member(s, kind, j),
    ensures
        uses(s, kind, times, cooldown, i) <= uses(s, kind, times, cooldown, j) + 1,
        uses(s, kind, times, cooldown, i) > bound + 1 ==> uses(s, kind, times, cooldown, j) >= bound
            - 1,
{
    lemma_balanced(s, kind, times, cooldown);
}

/// Least-recently-used selection shares the load evenly. Under the
/// conditions of `law_lru_is_fair`, with `n` eligible credentials and `m`
/// requests, each eligible credential has served `m / n` requests, rounded
/// down or up.
pub proof fn law_lru_shares_evenly(
    s: Seq<Credential>,
    kind: KeyType,
    times: Seq<(u64, u64)>,
    cooldown: u64,
    i: int,
)
    requires
        distinct_ids(s),
        steady(s, kind),
        returns_advance(s, kind, times),
        member(s, kind, i),
    ensures
        ({
            let n = members(s, kind, s.len() as int) as int;
            let m = times.len() as int;
            let own = uses(s, kind, times, cooldown, i) as int;
            &&& n > 0
            &&& m / n <= own <= (m + n - 1) / n
        }),
{
    let n = members(s, kind, s.len() as int) as int;
    let m = times.len() as int;
    let own = uses(s, kind, times, cooldown, i) as int;
    lemma_member_counts(s, kind, s.len() as int, i);
    lemma_total_is_requests(s, kind, times, cooldown);
    lemma_balanced(s, kind, times, cooldown);
    assert forall|j: int| member(s, kind, j) implies own - 1 <= #[trigger] uses(
        s,
        kind,
        times,
        cooldown,
        j,
    ) <= own + 1 by {
        assert(uses(s, kind, times, cooldown, i) <= uses(s, kind, times, cooldown, j) + 1);
        assert(uses(s, kind, times, cooldown, j) <= uses(s, kind, times, cooldown, i) + 1);
    }
    lemma_total_between(s, kind, times, cooldown, s.len() as int, i, own - 1, own + 1);
    assert(n * (own - 1) + 1 <= m <= n * (own + 1) - 1);
    assert(m / n <= own <= (m + n - 1) / n) by (nonlinear_arith)
        requires
            n > 0,
            n * (own - 1) + 1 <= m <= n * (own + 1) - 1,
    ;
}

proof fn lemma_member_counts(s: Seq<Credential>, kind: KeyType, n: int, i: int)
    requires
        member(s, kind, i),
        i < n <= s.len(),
    ensures
        members(s, kind, n) > 0,
    decreases n,
{
    if i < n - 1 {
        lemma_member_counts(s, kind, n - 1, i);
    }
}

} // verus!
