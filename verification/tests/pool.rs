use gemini_proxy::models::{AIStudioCookieInfo, GeminiApiKeyInfo, Key, KeyStatus, KeyType, Reason};
use gemini_proxy::pool::{next_status, CredentialPool, PoolExhausted};

const A: u128 = 0xA;
const B: u128 = 0xB;

fn gemini(id: u128, secret: &str) -> Key {
    Key::Gemini(GeminiApiKeyInfo {
        id,
        key_value: secret.to_string(),
        last_used: None,
        status: KeyStatus::Available,
    })
}

fn cookie(id: u128, secret: &str) -> Key {
    Key::AIStudio(AIStudioCookieInfo {
        id,
        cookie_value: secret.to_string(),
        last_used: None,
        status: KeyStatus::Available,
    })
}

fn pool_of_two(cooldown: u64) -> CredentialPool {
    let mut pool = CredentialPool::new(cooldown);
    assert!(pool.add(gemini(A, "key-a")));
    assert!(pool.add(gemini(B, "key-b")));
    pool
}

#[test]
fn three_successes_take_a_then_b_then_a() {
    let mut pool = pool_of_two(60);
    let mut order = Vec::new();
    for t in 0..3u64 {
        let lease = pool.acquire(KeyType::Gemini, 10 * t).unwrap();
        order.push(lease.id());
        pool.release(lease, Reason::Success, 10 * t + 1);
    }
    assert_eq!(order, vec![A, B, A]);
}

#[test]
fn success_frees_and_stamps() {
    let mut pool = pool_of_two(60);
    let lease = pool.acquire(KeyType::Gemini, 5).unwrap();
    assert_eq!(lease.id(), A);
    assert_eq!(pool.get(A).unwrap().get_status(), KeyStatus::InUse);
    pool.release(lease, Reason::Success, 7);
    let a = pool.get(A).unwrap();
    assert_eq!(a.get_status(), KeyStatus::Available);
    assert_eq!(a.get_last_used(), Some(7));
    assert_eq!(pool.get(B).unwrap().get_last_used(), None);
}

#[test]
fn rejected_key_is_never_leased_again() {
    let mut pool = pool_of_two(60);
    let lease = pool.acquire(KeyType::Gemini, 0).unwrap();
    assert_eq!(lease.id(), A);
    pool.release(lease, Reason::AuthError, 1);
    assert_eq!(pool.get(A).unwrap().get_status(), KeyStatus::Invalid);
    assert_eq!(pool.get(A).unwrap().get_last_used(), None);
    for n in 0..100u64 {
        let lease = pool.acquire(KeyType::Gemini, 2 + 1000 * n).unwrap();
        assert_eq!(lease.id(), B);
        pool.release(lease, Reason::Success, 3 + 1000 * n);
    }
    assert_eq!(pool.get(A).unwrap().get_status(), KeyStatus::Invalid);
    assert_eq!(pool.status_at(A, u64::MAX), Some(KeyStatus::Invalid));
}

#[test]
fn rate_limited_key_rests_for_the_cooldown() {
    let t0 = 1_000;
    let mut pool = CredentialPool::new(60);
    assert!(pool.add(gemini(A, "key-a")));
    let lease = pool.acquire(KeyType::Gemini, t0).unwrap();
    pool.release(lease, Reason::RateLimited, t0);
    assert_eq!(pool.get(A).unwrap().get_status(), KeyStatus::CoolingDown);
    assert_eq!(pool.get(A).unwrap().get_last_used(), Some(t0));

    assert_eq!(pool.status_at(A, t0 + 30), Some(KeyStatus::CoolingDown));
    assert_eq!(pool.status_at(A, t0 + 59), Some(KeyStatus::CoolingDown));
    assert_eq!(pool.status_at(A, t0 + 60), Some(KeyStatus::Available));
    assert_eq!(pool.status_at(A, t0 + 61), Some(KeyStatus::Available));

    assert_eq!(pool.acquire(KeyType::Gemini, t0 + 30).unwrap_err(), PoolExhausted);
    let lease = pool.acquire(KeyType::Gemini, t0 + 61).unwrap();
    assert_eq!(lease.id(), A);
}

#[test]
fn kinds_do_not_mix() {
    let mut pool = CredentialPool::new(60);
    assert!(pool.add(gemini(A, "key-a")));
    assert!(pool.add(cookie(B, "cookie-b")));
    assert_eq!(pool.acquire(KeyType::AIStudio, 0).unwrap().id(), B);
    assert_eq!(pool.acquire(KeyType::AIStudio, 0).unwrap_err(), PoolExhausted);
    assert_eq!(pool.acquire(KeyType::Gemini, 0).unwrap().id(), A);
    assert_eq!(pool.acquire(KeyType::Gemini, 0).unwrap_err(), PoolExhausted);
}

#[test]
fn new_pool_is_empty() {
    let mut pool = CredentialPool::new(15);
    assert_eq!(pool.len(), 0);
    assert_eq!(pool.cooldown(), 15);
    assert!(pool.get(A).is_none());
    assert_eq!(pool.status_at(A, 0), None);
    assert_eq!(pool.acquire(KeyType::Gemini, 0).unwrap_err(), PoolExhausted);
}

#[test]
fn duplicate_identifier_is_refused() {
    let mut pool = CredentialPool::new(60);
    assert!(pool.add(gemini(A, "first")));
    assert!(!pool.add(gemini(A, "second")));
    assert!(!pool.add(cookie(A, "third")));
    assert_eq!(pool.len(), 1);
    assert_eq!(pool.get(A).unwrap().get_secret(), "first");
    assert_eq!(pool.get(A).unwrap().get_type(), KeyType::Gemini);
}

#[test]
fn never_used_goes_before_used_and_older_before_newer() {
    let mut pool = CredentialPool::new(60);
    let used = |id, t| {
        Key::Gemini(GeminiApiKeyInfo {
            id,
            key_value: String::new(),
            last_used: Some(t),
            status: KeyStatus::Available,
        })
    };
    assert!(pool.add(used(1, 50)));
    assert!(pool.add(used(2, 20)));
    assert!(pool.add(used(3, 20)));
    assert!(pool.add(gemini(4, "")));
    assert!(pool.add(gemini(5, "")));
    let order: Vec<u128> =
        (0..5).map(|_| pool.acquire(KeyType::Gemini, 100).unwrap().id()).collect();
    assert_eq!(order, vec![4, 5, 2, 3, 1]);
    assert!(pool.acquire(KeyType::Gemini, 100).is_err());
}

#[test]
fn returns_in_the_same_tick_fall_back_to_pool_order() {
    let mut pool = pool_of_two(60);
    let mut order = Vec::new();
    for _ in 0..4 {
        let lease = pool.acquire(KeyType::Gemini, 5).unwrap();
        order.push(lease.id());
        pool.release(lease, Reason::Success, 5);
    }
    assert_eq!(order, vec![A, B, A, A]);
}

#[test]
fn successive_requests_go_round_the_pool() {
    let ids: Vec<u128> = (1..=4).collect();
    let mut pool = CredentialPool::new(60);
    for id in &ids {
        assert!(pool.add(gemini(*id, "k")));
    }
    let mut uses = [0u32; 5];
    for m in 0..10u64 {
        let lease = pool.acquire(KeyType::Gemini, 2 * m).unwrap();
        assert_eq!(lease.id(), ids[(m % 4) as usize]);
        uses[lease.id() as usize] += 1;
        pool.release(lease, Reason::Success, 2 * m + 1);
        let most = uses[1..].iter().max().unwrap();
        let least = uses[1..].iter().min().unwrap();
        assert!(most - least <= 1);
    }
    assert_eq!(uses, [0, 3, 3, 2, 2]);
}

#[test]
fn every_transient_failure_cools_down() {
    for reason in [Reason::RateLimited, Reason::NetworkError, Reason::Unknown] {
        let mut pool = CredentialPool::new(10);
        assert!(pool.add(gemini(A, "k")));
        let lease = pool.acquire(KeyType::Gemini, 100).unwrap();
        pool.release(lease, reason, 105);
        assert_eq!(pool.get(A).unwrap().get_status(), KeyStatus::CoolingDown);
        assert_eq!(pool.get(A).unwrap().get_last_used(), Some(105));
        assert_eq!(pool.status_at(A, 114), Some(KeyStatus::CoolingDown));
        assert_eq!(pool.status_at(A, 115), Some(KeyStatus::Available));
        assert_eq!(pool.status_at(A, 0), Some(KeyStatus::CoolingDown));
    }
}

#[test]
fn promote_ends_only_the_cooldowns_that_are_over() {
    let cooling = |id, since| {
        Key::Gemini(GeminiApiKeyInfo {
            id,
            key_value: String::new(),
            last_used: since,
            status: KeyStatus::CoolingDown,
        })
    };
    let mut pool = CredentialPool::new(60);
    assert!(pool.add(cooling(1, Some(100))));
    assert!(pool.add(cooling(2, Some(141))));
    assert!(pool.add(cooling(3, None)));
    assert!(pool.add(cooling(4, Some(u64::MAX - 10))));
    pool.promote(200);
    assert_eq!(pool.get(1).unwrap().get_status(), KeyStatus::Available);
    assert_eq!(pool.get(2).unwrap().get_status(), KeyStatus::CoolingDown);
    assert_eq!(pool.get(3).unwrap().get_status(), KeyStatus::Available);
    assert_eq!(pool.get(4).unwrap().get_status(), KeyStatus::CoolingDown);
    assert_eq!(pool.get(1).unwrap().get_last_used(), Some(100));
    pool.promote(u64::MAX);
    assert_eq!(pool.get(2).unwrap().get_status(), KeyStatus::Available);
    assert_eq!(pool.get(4).unwrap().get_status(), KeyStatus::CoolingDown);
}

#[test]
fn acquisition_promotes_every_kind() {
    let mut pool = CredentialPool::new(60);
    assert!(pool.add(Key::AIStudio(AIStudioCookieInfo {
        id: B,
        cookie_value: String::new(),
        last_used: Some(0),
        status: KeyStatus::CoolingDown,
    })));
    assert!(pool.acquire(KeyType::Gemini, 60).is_err());
    assert_eq!(pool.get(B).unwrap().get_status(), KeyStatus::Available);
}

#[test]
fn zero_cooldown_frees_at_once() {
    let mut pool = CredentialPool::new(0);
    assert!(pool.add(gemini(A, "k")));
    let lease = pool.acquire(KeyType::Gemini, 7).unwrap();
    pool.release(lease, Reason::RateLimited, 7);
    assert_eq!(pool.status_at(A, 7), Some(KeyStatus::Available));
    assert_eq!(pool.acquire(KeyType::Gemini, 7).unwrap().id(), A);
}

#[test]
fn lease_of_another_pool_changes_nothing() {
    let mut mine = pool_of_two(60);
    let mut other = CredentialPool::new(60);
    assert!(other.add(gemini(B, "other-b")));
    let foreign = other.acquire(KeyType::Gemini, 0).unwrap();
    assert_eq!(foreign.id(), B);
    mine.release(foreign, Reason::AuthError, 1);
    assert_eq!(mine.get(B).unwrap().get_status(), KeyStatus::Available);
    assert_eq!(mine.get(B).unwrap().get_last_used(), None);
    assert_eq!(mine.get(A).unwrap().get_status(), KeyStatus::Available);
}

#[test]
fn a_leased_key_is_not_leased_twice() {
    let mut pool = pool_of_two(60);
    let first = pool.acquire(KeyType::Gemini, 0).unwrap();
    let second = pool.acquire(KeyType::Gemini, 0).unwrap();
    assert_ne!(first.id(), second.id());
    assert!(pool.acquire(KeyType::Gemini, u64::MAX).is_err());
    assert_eq!(pool.status_at(first.id(), u64::MAX), Some(KeyStatus::InUse));
    pool.release(first, Reason::Success, 1);
    assert_eq!(pool.acquire(KeyType::Gemini, 2).unwrap().id(), A);
}

#[test]
fn transition_table() {
    assert_eq!(next_status(Reason::Success), KeyStatus::Available);
    assert_eq!(next_status(Reason::RateLimited), KeyStatus::CoolingDown);
    assert_eq!(next_status(Reason::AuthError), KeyStatus::Invalid);
    assert_eq!(next_status(Reason::NetworkError), KeyStatus::CoolingDown);
    assert_eq!(next_status(Reason::Unknown), KeyStatus::CoolingDown);
}
