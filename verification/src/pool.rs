//! The credential pool: sole owner of the credentials and of their state.
//!
//! The pool keeps no clock. Every call that depends on time is handed the
//! time, in the unit of the cooldown interval, and the pool only compares
//! the times it is given. Two credentials that came back at the same time
//! are equally old; selection then goes by their order in the pool.
//!
//! One thread at a time works on a pool: every change goes through `&mut`,
//! so whoever shares a pool puts it behind a lock.

use crate::config::Config;
use crate::ident::is_random_uuid;
use crate::models::{Credential, Key, KeyStatus, KeyType, Reason};
use crate::policy::{
    after_acquire, after_release, cooled_down, distinct_ids, eligible, has_id, is_lru,
    last_use_rank, leased, lemma_lru_pick_is, lemma_lru_pick_none, lru_pick, promote_all,
    promoted, status_after,
};
use vstd::prelude::*;

verus! {

/// Exclusive, temporary claim on one credential. Only `acquire` makes one,
/// and `release` consumes it.
#[must_use]
#[derive(Debug)]
pub struct Lease {
    id: u128,
}

impl View for Lease {
    type V = u128;

    closed spec fn view(&self) -> u128 {
        self.id
    }
}

impl Lease {
    /// Identifier of the leased credential.
    pub fn id(&self) -> (id: u128)
        ensures
            id == self@,
    {
        self.id
    }
}

/// No credential of the requested kind can be leased right now.
#[derive(Debug, Clone, Copy, PartialEq, Eq, Structural)]
pub struct PoolExhausted;

/// The pool of credentials. No identifier occurs twice in it.
#[derive(Debug)]
pub struct CredentialPool {
    keys: Vec<Key>,
    cooldown: u64,
}

/// The models of the credentials that `keys` holds, in order.
spec fn models(keys: Seq<Key>) -> Seq<Credential> {
    Seq::new(keys.len(), |i: int| keys[i]@)
}

impl View for CredentialPool {
    type V = Seq<Credential>;

    closed spec fn view(&self) -> Seq<Credential> {
        models(self.keys@)
    }
}

/// `a` was last used strictly before `b`.
fn used_before(a: &Key, b: &Key) -> (r: bool)
    ensures
        r == (last_use_rank(a@) < last_use_rank(b@)),
{
    match (a.get_last_used(), b.get_last_used()) {
        (None, Some(_)) => true,
        (Some(x), Some(y)) => x < y,
        _ => false,
    }
}

/// The cooldown of `key` is over at `now`.
fn is_cooled_down(key: &Key, now: u64, cooldown: u64) -> (r: bool)
    ensures
        r == cooled_down(key@, now, cooldown),
{
    match key.get_status() {
        KeyStatus::CoolingDown => match key.get_last_used() {
            Some(since) => since <= now && now - since >= cooldown,
            None => true,
        },
        _ => false,
    }
}

impl CredentialPool {
    #[verifier::type_invariant]
    spec fn inv(self) -> bool {
        distinct_ids(self@)
    }

    /// Cooldown interval, in the unit of the times handed to the pool.
    pub closed spec fn spec_cooldown(&self) -> u64 {
        self.cooldown
    }

    /// Moves the keys out, to be worked on and put back. The pool is empty
    /// in between, so that what it promises of itself holds at every step.
    fn take_keys(&mut self) -> (keys: Vec<Key>)
        ensures
            keys@ == old(self).keys@,
            final(self).keys@.len() == 0,
            final(self).cooldown == old(self).cooldown,
    {
        let mut keys: Vec<Key> = Vec::new();
        std::mem::swap(&mut self.keys, &mut keys);
        keys
    }

    /// An empty pool with the given cooldown interval.
    pub fn new(cooldown: u64) -> (pool: Self)
        ensures
            pool@ == Seq::<Credential>::empty(),
            pool.spec_cooldown() == cooldown,
    {
        CredentialPool { keys: Vec::new(), cooldown }
    }

    /// The pool that `config` describes: its credentials in the order of the
    /// configuration, each under a fresh random identifier, never used, and
    /// `Invalid` from the start where its entry is disabled.
    ///
    /// The identifiers are drawn at random; should two of them ever be the
    /// same, there is no pool. With fewer than two credentials there is
    /// always one.
    pub fn from_config(config: &Config) -> (made: Option<Self>)
        ensures
            config.keys@.len() <= 1 ==> made is Some,
            match made {
                Some(pool) => {
                    &&& pool.spec_cooldown() == config.cooldown_seconds
                    &&& pool@.len() == config.keys@.len()
                    &&& distinct_ids(pool@)
                    &&& forall|i: int|
                        0 <= i < pool@.len() ==> {
                            &&& #[trigger] pool@[i] == config.keys@[i].credential(pool@[i].id)
                            &&& is_random_uuid(pool@[i].id)
                        }
                },
                None => true,
            },
    {
        let mut pool = CredentialPool::new(config.cooldown_seconds);
        let n = config.keys.len();
        let mut i: usize = 0;
        while i < n
            invariant
                i <= n,
                n == config.keys@.len(),
                pool.spec_cooldown() == config.cooldown_seconds,
                pool@.len() == i,
                distinct_ids(pool@),
                forall|j: int|
                    0 <= j < i ==> {
                        &&& #[trigger] pool@[j] == config.keys@[j].credential(pool@[j].id)
                        &&& is_random_uuid(pool@[j].id)
                    },
            decreases n - i,
        {
            let key = config.keys[i].to_key();
            if !pool.add(key) {
                assert(pool@.len() > 0);
                return None;
            }
            i += 1;
        }
        Some(pool)
    }

    /// Number of credentials in the pool, whatever their state.
    pub fn len(&self) -> (n: usize)
        ensures
            n == self@.len(),
    {
        self.keys.len()
    }

    /// Puts `key` into the pool, behind the ones already there, unless its
    /// identifier is taken: then the pool stays as it was.
    pub fn add(&mut self, key: Key) -> (added: bool)
        ensures
            added == !has_id(old(self)@, key@.id),
            final(self)@ == if added {
                old(self)@.push(key@)
            } else {
                old(self)@
            },
            final(self).spec_cooldown() == old(self).spec_cooldown(),
            distinct_ids(final(self)@),
    {
        proof {
            use_type_invariant(&*self);
        }
        if let Some(i) = find_id(&self.keys, key.get_id()) {
            assert(self@[i as int].id == key@.id);
            return false;
        }
        let mut keys = self.take_keys();
        keys.push(key);
        assert(models(keys@) =~= old(self)@.push(key@));
        self.keys = keys;
        true
    }

    /// The credential with the identifier `id`, if the pool has one.
    pub fn get(&self, id: u128) -> (found: Option<&Key>)
        ensures
            match found {
                Some(key) => key@.id == id && self@.contains(key@),
                None => !has_id(self@, id),
            },
    {
        match find_id(&self.keys, id) {
            Some(i) => {
                assert(self@[i as int] == self.keys@[i as int]@);
                Some(&self.keys[i])
            },
            None => None,
        }
    }

    /// State of the credential `id` as a query at time `now` sees it: a
    /// cooldown that is over counts as `Available`, though the pool records
    /// the promotion only at the next acquisition.
    pub fn status_at(&self, id: u128, now: u64) -> (status: Option<KeyStatus>)
        ensures
            match status {
                Some(st) => exists|i: int|
                    0 <= i < self@.len() && (#[trigger] self@[i]).id == id && st == promoted(
                        self@[i],
                        now,
                        self.spec_cooldown(),
                    ).status,
                None => !has_id(self@, id),
            },
    {
        match find_id(&self.keys, id) {
            Some(i) => {
                assert(self@[i as int] == self.keys@[i as int]@);
                if is_cooled_down(&self.keys[i], now, self.cooldown) {
                    Some(KeyStatus::Available)
                } else {
                    Some(self.keys[i].get_status())
                }
            },
            None => None,
        }
    }

    /// Leases the least recently used available credential of `kind`.
    ///
    /// Cooldowns that are over at `now` end first. Then the credential with
    /// the oldest last use is taken, a never used one before all others and
    /// the first in pool order among equals. Without an available credential
    /// of that kind the call fails at once; it never waits.
    pub fn acquire(&mut self, kind: KeyType, now: u64) -> (r: Result<Lease, PoolExhausted>)
        ensures
            final(self)@ == after_acquire(old(self)@, kind, now, old(self).spec_cooldown()),
            match lru_pick(promote_all(old(self)@, now, old(self).spec_cooldown()), kind) {
                Some(i) => r is Ok && r->Ok_0@ == old(self)@[i].id,
                None => r is Err,
            },
            r is Ok <==> exists|j: int|
                0 <= j < old(self)@.len() && eligible(
                    #[trigger] promote_all(old(self)@, now, old(self).spec_cooldown())[j],
                    kind,
                ),
            final(self).spec_cooldown() == old(self).spec_cooldown(),
            distinct_ids(final(self)@),
    {
        proof {
            use_type_invariant(&*self);
        }
        let mut keys = self.take_keys();
        promote_keys(&mut keys, now, self.cooldown);
        let ghost p = models(keys@);
        let r = match pick_lru(&keys, kind) {
            Some(i) => {
                proof {
                    lemma_lru_pick_is(p, kind, i as int);
                    assert(eligible(p[i as int], kind));
                }
                let id = keys[i].get_id();
                keys[i].set_status(KeyStatus::InUse);
                assert(models(keys@) =~= p.update(i as int, leased(p[i as int])));
                Ok(Lease { id })
            },
            None => {
                proof {
                    lemma_lru_pick_none(p, kind);
                }
                Err(PoolExhausted)
            },
        };
        self.keys = keys;
        r
    }

    /// Takes the leased credential back and moves it to the state that
    /// `reason` calls for: `Available` after a success, `Invalid` after a
    /// rejection, `CoolingDown` after anything else. Every outcome but a
    /// rejection sets the last-use time to `now`. A lease whose credential
    /// is not in use in this pool changes nothing.
    pub fn release(&mut self, lease: Lease, reason: Reason, now: u64)
        ensures
            final(self)@ == after_release(old(self)@, lease@, reason, now),
            final(self).spec_cooldown() == old(self).spec_cooldown(),
            distinct_ids(final(self)@),
    {
        proof {
            use_type_invariant(&*self);
        }
        let mut keys = self.take_keys();
        release_keys(&mut keys, lease.id, reason, now);
        self.keys = keys;
    }

    /// Cooldown interval.
    #[verifier::when_used_as_spec(spec_cooldown)]
    pub fn cooldown(&self) -> (cooldown: u64)
        ensures
            cooldown == self.spec_cooldown(),
    {
        self.cooldown
    }

    /// Turns every cooldown that is over at `now` into `Available`.
    pub fn promote(&mut self, now: u64)
        ensures
            final(self)@ == promote_all(old(self)@, now, old(self).spec_cooldown()),
            final(self).spec_cooldown() == old(self).spec_cooldown(),
            distinct_ids(final(self)@),
    {
        proof {
            use_type_invariant(&*self);
        }
        let mut keys = self.take_keys();
        promote_keys(&mut keys, now, self.cooldown);
        self.keys = keys;
    }
}

/// Promotes every key of `keys` whose cooldown is over at `now`.
fn promote_keys(keys: &mut Vec<Key>, now: u64, cooldown: u64)
    ensures
        models(final(keys)@) == promote_all(models(old(keys)@), now, cooldown),
{
    let n = keys.len();
    let mut i: usize = 0;
    while i < n
        invariant
            i <= n,
            n == keys.len(),
            n == old(keys).len(),
            forall|j: int|
                0 <= j < i ==> (#[trigger] keys@[j])@ == promoted(old(keys)@[j]@, now, cooldown),
            forall|j: int| i <= j < n ==> #[trigger] keys@[j] == old(keys)@[j],
        decreases n - i,
    {
        if is_cooled_down(&keys[i], now, cooldown) {
            keys[i].set_status(KeyStatus::Available);
        }
        i += 1;
    }
    assert(models(keys@) =~= promote_all(models(old(keys)@), now, cooldown));
}

/// First index in `keys` that carries the identifier `id`.
fn find_id(keys: &Vec<Key>, id: u128) -> (r: Option<usize>)
    ensures
        match r {
            Some(i) => i < keys.len() && keys@[i as int]@.id == id,
            None => !has_id(models(keys@), id),
        },
{
    let n = keys.len();
    let mut i: usize = 0;
    while i < n
        invariant
            i <= n,
            n == keys.len(),
            forall|j: int| 0 <= j < i ==> (#[trigger] models(keys@)[j]).id != id,
        decreases n - i,
    {
        if keys[i].get_id() == id {
            return Some(i);
        }
        i += 1;
    }
    None
}

/// Index that selection picks among `keys` for `kind`.
fn pick_lru(keys: &Vec<Key>, kind: KeyType) -> (r: Option<usize>)
    ensures
        match r {
            Some(i) => is_lru(models(keys@), kind, i as int),
            None => forall|j: int|
                0 <= j < keys.len() ==> !eligible(#[trigger] models(keys@)[j], kind),
        },
{
    let ghost s = models(keys@);
    let n = keys.len();
    let mut best: Option<usize> = None;
    let mut i: usize = 0;
    while i < n
        invariant
            i <= n,
            n == keys.len(),
            s == models(keys@),
            match best {
                Some(b) => {
                    &&& b < i
                    &&& eligible(s[b as int], kind)
                    &&& forall|j: int|
                        0 <= j < i && eligible(#[trigger] s[j], kind) ==> {
                            &&& last_use_rank(s[b as int]) <= last_use_rank(s[j])
                            &&& j < b ==> last_use_rank(s[b as int]) < last_use_rank(s[j])
                        }
                },
                None => forall|j: int| 0 <= j < i ==> !eligible(#[trigger] s[j], kind),
            },
        decreases n - i,
    {
        let key = &keys[i];
        if key.get_type() == kind && key.get_status() == KeyStatus::Available {
            match best {
                None => {
                    best = Some(i);
                },
                Some(b) => {
                    if used_before(key, &keys[b]) {
                        best = Some(i);
                    }
                },
            }
        }
        i += 1;
    }
    best
}

/// State that a credential returned for `reason` moves to.
pub fn next_status(reason: Reason) -> (status: KeyStatus)
    ensures
        status == status_after(reason),
{
    match reason {
        Reason::Success => KeyStatus::Available,
        Reason::AuthError => KeyStatus::Invalid,
        Reason::RateLimited | Reason::NetworkError | Reason::Unknown => KeyStatus::CoolingDown,
    }
}

/// Applies the return of the lease on `id` to `keys`.
fn release_keys(keys: &mut Vec<Key>, id: u128, reason: Reason, now: u64)
    ensures
        models(final(keys)@) == after_release(models(old(keys)@), id, reason, now),
{
    let n = keys.len();
    let mut i: usize = 0;
    while i < n
        invariant
            i <= n,
            n == keys.len(),
            n == old(keys).len(),
            forall|j: int|
                0 <= j < i ==> (#[trigger] keys@[j])@ == after_release(
                    models(old(keys)@),
                    id,
                    reason,
                    now,
                )[j],
            forall|j: int| i <= j < n ==> #[trigger] keys@[j] == old(keys)@[j],
        decreases n - i,
    {
        if keys[i].get_id() == id && keys[i].get_status() == KeyStatus::InUse {
            keys[i].set_status(next_status(reason));
            if reason != Reason::AuthError {
                keys[i].set_last_used(Some(now));
            }
        }
        i += 1;
    }
    assert(models(keys@) =~= after_release(models(old(keys)@), id, reason, now));
}

} // verus!
