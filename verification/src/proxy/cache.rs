use crate::proxy::errors::ProxyError;
use vstd::prelude::*;

verus! {

/// A command of the atomic batch.
#[derive(Debug, Clone, PartialEq, Eq)]
pub enum CacheCommand {
    /// Set `key` to `marker` and hand back what it held before, in one step.
    GetSet { key: String, marker: bool },
    /// Let `key` expire `millis` milliseconds from now.
    PExpire { key: String, millis: usize },
}

/// A command of the batch, and whether its reply is part of the batch's
/// result.
#[derive(Debug, Clone, PartialEq, Eq)]
pub struct BatchEntry {
    pub command: CacheCommand,
    pub keep_reply: bool,
}

/// One attempt at the cache transaction: the key to watch, then the
/// commands that are committed together or not at all.
#[derive(Debug, Clone, PartialEq, Eq)]
pub struct Transaction {
    pub watch: String,
    pub batch: Vec<BatchEntry>,
}

/// The batch records the fingerprint `key` for `ttl` milliseconds: it reads
/// the key's previous marker while setting the marker, keeping that reply,
/// and then sets the expiry, dropping that reply.
pub open spec fn records(transaction: Transaction, key: Seq<char>, ttl: usize) -> bool {
    &&& transaction.watch@ == key
    &&& transaction.batch@.len() == 2
    &&& transaction.batch@[0].keep_reply
    &&& transaction.batch@[0].command matches CacheCommand::GetSet { key: set, marker }
        && set@ == key && marker
    &&& !transaction.batch@[1].keep_reply
    &&& transaction.batch@[1].command matches CacheCommand::PExpire { key: expiring, millis }
        && expiring@ == key && millis == ttl
}

/// Plans one attempt at recording a fingerprint for `ttl` milliseconds.
pub fn plan(key: &String, ttl: usize) -> (transaction: Transaction)
    ensures
        records(transaction, key@, ttl),
{
    let mut batch: Vec<BatchEntry> = Vec::new();
    batch.push(
        BatchEntry { command: CacheCommand::GetSet { key: key.clone(), marker: true }, keep_reply: true },
    );
    batch.push(
        BatchEntry { command: CacheCommand::PExpire { key: key.clone(), millis: ttl }, keep_reply: false },
    );
    Transaction { watch: key.clone(), batch }
}

/// How one attempt at the cache transaction ended.
///
/// An attempt watches the key, then commits one atomic batch that reads the
/// key's previous marker while setting it, and sets the key's expiry without
/// asking for that command's reply.
#[derive(Debug, Clone, PartialEq, Eq)]
pub enum CacheOutcome {
    /// The batch was committed; `previous` is the marker that the key held
    /// before, if it held one.
    Committed { previous: Option<bool> },
    /// The watched key was changed by another party before the commit, so
    /// the store dropped the batch.
    Aborted,
    /// The store could not be reached, or no connection could be borrowed.
    Failed(ProxyError),
}

/// What follows an attempt.
#[derive(Debug, PartialEq, Eq)]
pub enum CacheStep {
    /// Watch the key again and commit again.
    Retry,
    /// The protocol has ended: `Ok(true)` for a fingerprint that this call
    /// recorded, `Ok(false)` for one that was there, or the failure.
    Done(Result<bool, ProxyError>),
}

/// Whether a committed batch recorded the fingerprint for the first time:
/// it did unless the key held the marker before.
pub open spec fn fresh(previous: Option<bool>) -> bool {
    previous != Some(true)
}

/// What follows an attempt that ended in `outcome`.
pub open spec fn step_after(outcome: CacheOutcome) -> CacheStep {
    match outcome {
        CacheOutcome::Committed { previous } => CacheStep::Done(Ok(fresh(previous))),
        CacheOutcome::Aborted => CacheStep::Retry,
        CacheOutcome::Failed(err) => CacheStep::Done(Err(err)),
    }
}

/// Reads the previous marker of a committed batch: `true` where this call
/// was the first to record the fingerprint.
pub fn is_fresh(previous: Option<bool>) -> (first: bool)
    ensures
        first == fresh(previous),
{
    match previous {
        Some(seen) => !seen,
        None => true,
    }
}

/// Decides what follows one attempt at the cache transaction.
///
/// A dropped batch is tried again, without bound and without counting as an
/// error. A failure ends the protocol as a failure: it is never read as a new
/// or as a repeated fingerprint.
pub fn after_attempt(outcome: CacheOutcome) -> (step: CacheStep)
    ensures
        step == step_after(outcome),
{
    match outcome {
        CacheOutcome::Committed { previous } => CacheStep::Done(Ok(is_fresh(previous))),
        CacheOutcome::Aborted => CacheStep::Retry,
        CacheOutcome::Failed(err) => CacheStep::Done(Err(err)),
    }
}

/// What the cache store remembers of one fingerprint: the marker, and the
/// time at which the store forgets it.
pub ghost struct CacheRecord {
    pub seen: bool,
    /// `None` for a record that never expires.
    pub expires_at: Option<int>,
}

/// The marker that the store hands out for `key` at the time `now`: that of
/// the key's record, unless there is none or it has expired.
pub open spec fn live_marker(store: Map<Seq<char>, CacheRecord>, key: Seq<char>, now: int) -> Option<
    bool,
> {
    if store.contains_key(key) && (store[key].expires_at matches Some(end) ==> now < end) {
        Some(store[key].seen)
    } else {
        None
    }
}

/// The store after one committed batch for `key` at the time `now`: the key
/// holds the marker, and its expiry is set anew, `ttl` from now.
pub open spec fn committed(
    store: Map<Seq<char>, CacheRecord>,
    key: Seq<char>,
    ttl: int,
    now: int,
) -> Map<Seq<char>, CacheRecord> {
    store.insert(key, CacheRecord { seen: true, expires_at: Some(now + ttl) })
}

/// The store after one command at the time `now`. Setting a key drops the
/// expiry that it had; an expiry is set on a key only while the store holds
/// the key.
pub open spec fn applied(
    store: Map<Seq<char>, CacheRecord>,
    command: CacheCommand,
    now: int,
) -> Map<Seq<char>, CacheRecord> {
    match command {
        CacheCommand::GetSet { key, marker } => store.insert(
            key@,
            CacheRecord { seen: marker, expires_at: None },
        ),
        CacheCommand::PExpire { key, millis } => if live_marker(store, key@, now) is Some {
            store.insert(
                key@,
                CacheRecord { seen: store[key@].seen, expires_at: Some(now + millis) },
            )
        } else {
            store
        },
    }
}

/// The store's reply to one command at the time `now`: the marker that the
/// key held, or whether an expiry was set.
pub open spec fn reply(store: Map<Seq<char>, CacheRecord>, command: CacheCommand, now: int) -> Option<
    bool,
> {
    match command {
        CacheCommand::GetSet { key, marker } => live_marker(store, key@, now),
        CacheCommand::PExpire { key, millis } => Some(live_marker(store, key@, now) is Some),
    }
}

/// The store after a batch was committed at the time `now`, and the replies
/// that the batch keeps, in the order of their commands.
pub open spec fn batch_committed(
    store: Map<Seq<char>, CacheRecord>,
    batch: Seq<BatchEntry>,
    now: int,
) -> (Map<Seq<char>, CacheRecord>, Seq<Option<bool>>)
    decreases batch.len(),
{
    if batch.len() == 0 {
        (store, Seq::empty())
    } else {
        let (before, replies) = batch_committed(store, batch.drop_last(), now);
        let entry = batch.last();
        (
            applied(before, entry.command, now),
            if entry.keep_reply {
                replies.push(reply(before, entry.command, now))
            } else {
                replies
            },
        )
    }
}

/// The batch that records a fingerprint does what the lemmas on the store
/// count on:
/// committed at the time `now`, it leaves the key marked, to expire `ttl`
/// milliseconds from now, and its one reply is the marker that the key held
/// before.
pub proof fn lemma_plan_commits(
    transaction: Transaction,
    key: Seq<char>,
    ttl: usize,
    store: Map<Seq<char>, CacheRecord>,
    now: int,
)
    requires
        records(transaction, key, ttl),
    ensures
        batch_committed(store, transaction.batch@, now) == (
            committed(store, key, ttl as int, now),
            seq![live_marker(store, key, now)],
        ),
{
    let batch = transaction.batch@;
    let first = batch.drop_last();
    assert(first.len() == 1);
    assert(first.drop_last().len() == 0);
    assert(first.last() == batch[0]);
    assert(batch.last() == batch[1]);
    let start = batch_committed(store, first.drop_last(), now);
    assert(start == (store, Seq::<Option<bool>>::empty()));
    let middle = batch_committed(store, first, now);
    assert(middle.0 == store.insert(key, CacheRecord { seen: true, expires_at: None }));
    assert(middle.1 =~= seq![live_marker(store, key, now)]);
    let end = batch_committed(store, batch, now);
    assert(live_marker(middle.0, key, now) is Some);
    assert(end.0 =~= committed(store, key, ttl as int, now));
    assert(end.1 =~= seq![live_marker(store, key, now)]);
}

/// The store after batches for `key` were committed at each of `times`, in
/// this order. The store commits one batch at a time, so calls that run at
/// once are committed in some order, too.
pub open spec fn store_after(
    store: Map<Seq<char>, CacheRecord>,
    key: Seq<char>,
    ttl: int,
    times: Seq<int>,
) -> Map<Seq<char>, CacheRecord>
    decreases times.len(),
{
    if times.len() == 0 {
        store
    } else {
        committed(store_after(store, key, ttl, times.drop_last()), key, ttl, times.last())
    }
}

/// What the call whose batch is committed at place `i` of `times` returns
/// once it has committed: `true` for a fingerprint that it was the first to
/// record.
pub open spec fn answer(
    store: Map<Seq<char>, CacheRecord>,
    key: Seq<char>,
    ttl: int,
    times: Seq<int>,
    i: int,
) -> bool {
    fresh(live_marker(store_after(store, key, ttl, times.take(i)), key, times[i]))
}

/// Of calls for one key that commit in turn, each before the expiry that the
/// one before it has set, on a store that does not hold the key at the first
/// of them, exactly one is told that the fingerprint is new: the first to
/// commit. All the others are told that it is a repeat.
pub proof fn lemma_single_winner(
    store: Map<Seq<char>, CacheRecord>,
    key: Seq<char>,
    ttl: int,
    times: Seq<int>,
)
    requires
        times.len() > 0,
        live_marker(store, key, times[0]) != Some(true),
        forall|i: int| 1 <= i < times.len() ==> times[i - 1] <= #[trigger] times[i] < times[i - 1] + ttl,
    ensures
        answer(store, key, ttl, times, 0),
        forall|i: int| 1 <= i < times.len() ==> !#[trigger] answer(store, key, ttl, times, i),
{
    assert(times.take(0) =~= Seq::<int>::empty());
    assert forall|i: int| 1 <= i < times.len() implies !#[trigger] answer(
        store,
        key,
        ttl,
        times,
        i,
    ) by {
        let before = times.take(i);
        assert(before.last() == times[i - 1]);
        let held = store_after(store, key, ttl, before);
        assert(held == committed(
            store_after(store, key, ttl, before.drop_last()),
            key,
            ttl,
            times[i - 1],
        ));
        assert(held[key] == CacheRecord { seen: true, expires_at: Some(times[i - 1] + ttl) });
        assert(times[i] < times[i - 1] + ttl);
    }
}

/// After a call for a key has committed at `then`, and until another does,
/// a call for that key is told that the fingerprint is a repeat while the
/// time-to-live has not passed, and that it is new from then on.
pub proof fn lemma_expiry(
    store: Map<Seq<char>, CacheRecord>,
    key: Seq<char>,
    ttl: int,
    then: int,
    now: int,
)
    requires
        then <= now,
    ensures
        fresh(live_marker(committed(store, key, ttl, then), key, now)) == (now >= then + ttl),
{
}

/// A batch for one key leaves what the store holds for every other key as it
/// was.
pub proof fn lemma_other_keys_untouched(
    store: Map<Seq<char>, CacheRecord>,
    key: Seq<char>,
    ttl: int,
    now: int,
    other: Seq<char>,
    at: int,
)
    requires
        other != key,
    ensures
        live_marker(committed(store, key, ttl, now), other, at) == live_marker(store, other, at),
{
}

} // verus!
