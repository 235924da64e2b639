use utilities::lock::{release, try_acquire, AcquireLoop, AcquireStep};
use utilities::store::{KvError, KvStore};

fn key(s: &str) -> String {
    String::from(s)
}

#[test]
fn acquire_run_release_scenario() {
    // No existing holder: acquired at once; the critical section runs
    // once; the key is gone immediately after the normal return.
    let mut store = KvStore::new();
    let token = vec![0xA1u8, 0x02u8];
    assert!(try_acquire(&mut store, &key("job:42"), &token, 10, 0));
    let mut critical_runs = 0;
    critical_runs += 1;
    assert!(release(&mut store, &key("job:42"), &token));
    assert_eq!(critical_runs, 1);
    assert_eq!(store.get(&key("job:42"), 0), Err(KvError::NotFound));
    assert!(store.peek(&key("job:42")).is_none());
}

#[test]
fn two_contenders_exclude_each_other() {
    let mut store = KvStore::new();
    let t1 = vec![1u8];
    let t2 = vec![2u8];
    assert!(try_acquire(&mut store, &key("k"), &t1, 100, 0));
    // The second contender fails while the first holds the key...
    assert!(!try_acquire(&mut store, &key("k"), &t2, 100, 50));
    // ...and succeeds on its next attempt once the holder releases.
    assert!(release(&mut store, &key("k"), &t1));
    assert!(try_acquire(&mut store, &key("k"), &t2, 100, 60));
}

#[test]
fn unreleased_lease_expires_and_frees_the_key() {
    let mut store = KvStore::new();
    let t1 = vec![1u8];
    let t2 = vec![2u8];
    assert!(try_acquire(&mut store, &key("k"), &t1, 10, 0));
    assert!(!try_acquire(&mut store, &key("k"), &t2, 10, 9));
    // The holder never releases; from the lease deadline on, the key is
    // evictable and a later acquire succeeds.
    assert!(try_acquire(&mut store, &key("k"), &t2, 10, 10));
}

#[test]
fn release_is_token_checked() {
    let mut store = KvStore::new();
    let t1 = vec![1u8];
    let t2 = vec![2u8];
    assert!(try_acquire(&mut store, &key("k"), &t1, 10, 0));
    // A stale holder comes back after its lease ran out and the key was
    // re-acquired: its release must decline.
    assert!(try_acquire(&mut store, &key("k"), &t2, 10, 10));
    assert!(!release(&mut store, &key("k"), &t1));
    assert_eq!(store.peek(&key("k")).unwrap(), &t2);
    assert!(release(&mut store, &key("k"), &t2));
}

#[test]
fn campaign_retries_within_budget_and_times_out() {
    let mut store = KvStore::new();
    let holder = vec![9u8];
    assert!(try_acquire(&mut store, &key("k"), &holder, 1000, 0));
    let mut campaign = AcquireLoop::new(key("k"), vec![7u8], 50, 3, 2);
    assert!(matches!(campaign.step(&mut store, 1, false), AcquireStep::RetryAfter(3)));
    assert!(matches!(campaign.step(&mut store, 4, false), AcquireStep::RetryAfter(3)));
    assert!(matches!(campaign.step(&mut store, 7, false), AcquireStep::TimedOut));
}

#[test]
fn campaign_succeeds_after_release_within_budget() {
    let mut store = KvStore::new();
    let holder = vec![9u8];
    assert!(try_acquire(&mut store, &key("k"), &holder, 1000, 0));
    let mut campaign = AcquireLoop::new(key("k"), vec![7u8], 50, 3, 2);
    assert!(matches!(campaign.step(&mut store, 1, false), AcquireStep::RetryAfter(3)));
    assert!(release(&mut store, &key("k"), &holder));
    assert!(matches!(campaign.step(&mut store, 4, false), AcquireStep::Acquired));
    assert_eq!(store.peek(&key("k")).unwrap(), &vec![7u8]);
}

#[test]
fn driven_campaign_acquires_a_free_key_at_once() {
    let mut store = KvStore::new();
    let mut campaign = AcquireLoop::new(key("k"), vec![7u8], 50, 3, 2);
    let schedule = vec![100, 103, 106];
    assert!(matches!(
        utilities::lock::drive_acquire(&mut campaign, &mut store, &schedule),
        AcquireStep::Acquired
    ));
    assert_eq!(store.peek(&key("k")).unwrap(), &vec![7u8]);
}

#[test]
fn driven_campaign_times_out_on_a_held_key() {
    let mut store = KvStore::new();
    assert!(try_acquire(&mut store, &key("k"), &vec![9u8], 1000, 0));
    let mut campaign = AcquireLoop::new(key("k"), vec![7u8], 50, 3, 2);
    let schedule = vec![1, 4, 7];
    assert!(matches!(
        utilities::lock::drive_acquire(&mut campaign, &mut store, &schedule),
        AcquireStep::TimedOut
    ));
    // A timed-out campaign wrote nothing.
    assert_eq!(store.peek(&key("k")).unwrap(), &vec![9u8]);
}

#[test]
fn driven_campaign_wins_once_the_lease_runs_out() {
    let mut store = KvStore::new();
    assert!(try_acquire(&mut store, &key("k"), &vec![9u8], 5, 0));
    let mut campaign = AcquireLoop::new(key("k"), vec![7u8], 50, 3, 2);
    // The second wake falls past the holder's lease deadline.
    let schedule = vec![1, 6, 9];
    assert!(matches!(
        utilities::lock::drive_acquire(&mut campaign, &mut store, &schedule),
        AcquireStep::Acquired
    ));
    assert_eq!(store.peek(&key("k")).unwrap(), &vec![7u8]);
}

#[test]
fn cancellation_is_honoured_before_any_attempt() {
    let mut store = KvStore::new();
    let mut campaign = AcquireLoop::new(key("k"), vec![7u8], 50, 3, 2);
    assert!(matches!(campaign.step(&mut store, 0, true), AcquireStep::Cancelled));
    // Nothing was written.
    assert!(store.peek(&key("k")).is_none());
}
