use utilities::store::{bytes_eq, KvError, KvStore};

fn key(s: &str) -> String {
    String::from(s)
}

#[test]
fn set_if_absent_first_wins() {
    let mut store = KvStore::new();
    let first = store.set_if_absent(key("k"), vec![1u8], 0);
    let second = store.set_if_absent(key("k"), vec![2u8], 5);
    assert!(first);
    assert!(!second);
    assert_eq!(store.get(&key("k"), 10).ok().unwrap(), &vec![1u8]);
}

#[test]
fn get_missing_key_is_not_found() {
    let store = KvStore::new();
    assert_eq!(store.get(&key("missing-key"), 0), Err(KvError::NotFound));
}

#[test]
fn set_overwrites_and_respects_ttl() {
    let mut store = KvStore::new();
    store.set(key("k"), vec![1u8], None, 0);
    store.set(key("k"), vec![2u8, 3u8], Some(10), 0);
    assert_eq!(store.get(&key("k"), 9).ok().unwrap(), &vec![2u8, 3u8]);
    assert_eq!(store.get(&key("k"), 10), Err(KvError::NotFound));
    assert_eq!(store.get(&key("k"), 100), Err(KvError::NotFound));
}

#[test]
fn expired_key_can_be_rewritten() {
    let mut store = KvStore::new();
    store.set(key("k"), vec![1u8], Some(10), 0);
    assert!(!store.set_if_absent(key("k"), vec![9u8], 9));
    assert!(store.set_if_absent(key("k"), vec![9u8], 10));
    assert_eq!(store.get(&key("k"), 1000).ok().unwrap(), &vec![9u8]);
}

#[test]
fn delete_is_idempotent() {
    let mut store = KvStore::new();
    store.set(key("k"), vec![1u8], None, 0);
    assert!(store.delete(&key("k")));
    assert!(!store.delete(&key("k")));
    assert_eq!(store.get(&key("k"), 0), Err(KvError::NotFound));
}

#[test]
fn expire_leases_a_live_key_only() {
    let mut store = KvStore::new();
    assert_eq!(store.expire(&key("k"), 10, 0), Err(KvError::NotFound));
    store.set(key("k"), vec![1u8], None, 0);
    assert_eq!(store.expire(&key("k"), 10, 0), Ok(()));
    assert_eq!(store.ttl(&key("k"), 4), Ok(Some(6)));
    assert_eq!(store.get(&key("k"), 10), Err(KvError::NotFound));
    assert_eq!(store.expire(&key("k"), 10, 10), Err(KvError::NotFound));
}

#[test]
fn ttl_and_exists_follow_liveness() {
    let mut store = KvStore::new();
    store.set(key("a"), vec![1u8], None, 0);
    store.set(key("b"), vec![2u8], Some(5), 0);
    assert_eq!(store.ttl(&key("a"), 100), Ok(None));
    assert_eq!(store.ttl(&key("b"), 2), Ok(Some(3)));
    assert_eq!(store.ttl(&key("b"), 5), Err(KvError::NotFound));
    assert!(store.key_exists(&key("a"), 100));
    assert!(store.key_exists(&key("b"), 4));
    assert!(!store.key_exists(&key("b"), 5));
    assert!(!store.key_exists(&key("c"), 0));
}

#[test]
fn peek_ignores_lease_state() {
    let mut store = KvStore::new();
    store.set(key("k"), vec![7u8], Some(5), 0);
    assert_eq!(store.peek(&key("k")).unwrap(), &vec![7u8]);
    assert_eq!(store.get(&key("k"), 5), Err(KvError::NotFound));
    assert_eq!(store.peek(&key("k")).unwrap(), &vec![7u8]);
    assert!(store.peek(&key("other")).is_none());
}

#[test]
fn connection_target_carries_the_config() {
    let cfg = utilities::store::KvConfig {
        host: String::from("kv.internal"),
        port: 6379,
        username: Some(String::from("svc")),
        password: None,
    };
    let target = cfg.into_connection_info();
    assert_eq!(target.host, "kv.internal");
    assert_eq!(target.port, 6379);
    assert_eq!(target.username, Some(String::from("svc")));
    assert_eq!(target.password, None);
}

#[test]
fn ping_accepts_only_the_expected_status() {
    assert!(utilities::store::ping_ok("PONG"));
    assert!(!utilities::store::ping_ok("PONGG"));
    assert!(!utilities::store::ping_ok("pong"));
    assert!(!utilities::store::ping_ok(""));
}

#[test]
fn bytes_eq_compares_contents() {
    assert!(bytes_eq(&vec![1u8, 2u8], &vec![1u8, 2u8]));
    assert!(!bytes_eq(&vec![1u8, 2u8], &vec![1u8, 3u8]));
    assert!(!bytes_eq(&vec![1u8], &vec![1u8, 1u8]));
    assert!(bytes_eq(&vec![], &vec![]));
}
