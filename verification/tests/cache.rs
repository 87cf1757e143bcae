use murundiri::proxy::cache::{
    after_attempt, is_fresh, plan, BatchEntry, CacheCommand, CacheOutcome, CacheStep, Transaction,
};
use murundiri::proxy::ProxyError;
use std::collections::HashMap;

/// A store for the tests: it keeps a marker and an expiry for each key, and
/// can be told to drop the next batches as if another party had changed the
/// watched key.
struct Store {
    records: HashMap<String, (bool, u64)>,
    now: u64,
    aborts: usize,
    attempts: usize,
}

impl Store {
    fn new() -> Self {
        Store { records: HashMap::new(), now: 0, aborts: 0, attempts: 0 }
    }

    fn run(&mut self, transaction: &Transaction) -> CacheOutcome {
        self.attempts += 1;
        if self.aborts > 0 {
            self.aborts -= 1;
            return CacheOutcome::Aborted;
        }
        let mut replies = Vec::new();
        for entry in &transaction.batch {
            let reply = match &entry.command {
                CacheCommand::GetSet { key, marker } => {
                    let live = self.records.get(key).filter(|r| self.now < r.1).map(|r| r.0);
                    self.records.insert(key.clone(), (*marker, u64::MAX));
                    live
                }
                CacheCommand::PExpire { key, millis } => {
                    let now = self.now;
                    self.records.entry(key.clone()).and_modify(|r| r.1 = now + *millis as u64);
                    Some(true)
                }
            };
            if entry.keep_reply {
                replies.push(reply);
            }
        }
        assert_eq!(replies.len(), 1);
        CacheOutcome::Committed { previous: replies[0] }
    }

    fn check_and_mark(&mut self, key: &str, ttl: usize) -> Result<bool, ProxyError> {
        loop {
            let outcome = self.run(&plan(&key.to_string(), ttl));
            match after_attempt(outcome) {
                CacheStep::Retry => {}
                CacheStep::Done(result) => return result,
            }
        }
    }
}

#[test]
fn the_plan_reads_and_sets_the_marker_then_sets_the_expiry() {
    let expected = Transaction {
        watch: "body::42,".to_string(),
        batch: vec![
            BatchEntry {
                command: CacheCommand::GetSet { key: "body::42,".to_string(), marker: true },
                keep_reply: true,
            },
            BatchEntry {
                command: CacheCommand::PExpire { key: "body::42,".to_string(), millis: 86_400_000 },
                keep_reply: false,
            },
        ],
    };
    assert_eq!(plan(&"body::42,".to_string(), 86_400_000), expected);
}

#[test]
fn a_key_without_marker_is_new() {
    assert!(is_fresh(None));
    assert!(is_fresh(Some(false)));
    assert!(!is_fresh(Some(true)));
}

#[test]
fn a_committed_batch_ends_the_protocol() {
    assert_eq!(
        after_attempt(CacheOutcome::Committed { previous: None }),
        CacheStep::Done(Ok(true))
    );
    assert_eq!(
        after_attempt(CacheOutcome::Committed { previous: Some(false) }),
        CacheStep::Done(Ok(true))
    );
    assert_eq!(
        after_attempt(CacheOutcome::Committed { previous: Some(true) }),
        CacheStep::Done(Ok(false))
    );
}

#[test]
fn a_dropped_batch_is_tried_again() {
    assert_eq!(after_attempt(CacheOutcome::Aborted), CacheStep::Retry);
    let mut store = Store::new();
    store.aborts = 5;
    assert_eq!(store.check_and_mark("k", 10), Ok(true));
    assert_eq!(store.attempts, 6);
    store.aborts = 2;
    assert_eq!(store.check_and_mark("k", 10), Ok(false));
    assert_eq!(store.attempts, 9);
}

#[test]
fn a_failure_is_neither_new_nor_repeated() {
    let failure = ProxyError::CacheError("connection refused".to_string());
    assert_eq!(
        after_attempt(CacheOutcome::Failed(failure.clone())),
        CacheStep::Done(Err(failure))
    );
    let pool = ProxyError::RedisConnectionPoolError("timed out".to_string());
    assert_eq!(after_attempt(CacheOutcome::Failed(pool.clone())), CacheStep::Done(Err(pool)));
}

#[test]
fn of_many_calls_within_the_window_exactly_one_is_new() {
    let mut store = Store::new();
    let mut answers = Vec::new();
    for i in 0..50u64 {
        store.now = 1000 + i;
        store.aborts = (i % 3) as usize;
        answers.push(store.check_and_mark("key", 100).unwrap());
    }
    assert_eq!(answers.iter().filter(|fresh| **fresh).count(), 1);
    assert!(answers[0]);
    assert_eq!(answers.iter().filter(|fresh| !**fresh).count(), 49);
}

#[test]
fn a_key_is_new_again_once_its_time_to_live_has_passed() {
    let mut store = Store::new();
    store.now = 1000;
    assert_eq!(store.check_and_mark("key", 100), Ok(true));
    store.now = 1099;
    let mut inside = Store { records: store.records.clone(), now: 1099, aborts: 0, attempts: 0 };
    assert_eq!(inside.check_and_mark("key", 100), Ok(false));
    store.now = 1100;
    assert_eq!(store.check_and_mark("key", 100), Ok(true));
    store.now = 1150;
    assert_eq!(store.check_and_mark("key", 100), Ok(false));
}

#[test]
fn keys_do_not_touch_each_other() {
    let mut store = Store::new();
    assert_eq!(store.check_and_mark("a", 100), Ok(true));
    assert_eq!(store.check_and_mark("b", 100), Ok(true));
    assert_eq!(store.check_and_mark("a", 100), Ok(false));
    assert_eq!(store.check_and_mark("b", 100), Ok(false));
}
