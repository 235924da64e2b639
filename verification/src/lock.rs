//! Distributed mutual exclusion on one store key. A campaign writes its
//! per-attempt token under the key with the store's atomic conditional
//! write, puts a lease on it to bound staleness if the holder dies, and
//! releases with a token-checked delete, so a stale holder can never free
//! a key another campaign has re-acquired. Conflicts are retried from a
//! bounded budget — an iterative loop, never recursion — and an external
//! cancellation is honoured apart from budget exhaustion.
use vstd::prelude::*;

use crate::store::{bytes_eq, live_in, spec_set_if_absent, EntryVal, KvStore};

verus! {

/// The token under a lock key: whoever wrote it holds the lock.
pub open spec fn spec_holder(m: Map<Seq<char>, EntryVal>, k: Seq<char>) -> Option<Seq<u8>> {
    if m.contains_key(k) {
        Option::Some(m[k].value)
    } else {
        Option::None
    }
}

/// The store after one campaign's successful acquire: its token sits
/// under the key, leased from now.
pub open spec fn spec_acquired(
    m: Map<Seq<char>, EntryVal>,
    k: Seq<char>,
    token: Seq<u8>,
    lease: u64,
    now: u64,
) -> Map<Seq<char>, EntryVal> {
    m.insert(k, EntryVal { value: token, deadline: Option::Some((now + lease) as u64) })
}

/// The store after a token-checked release, and whether it released: it
/// does exactly when the key still holds this campaign's token.
pub open spec fn spec_release(m: Map<Seq<char>, EntryVal>, k: Seq<char>, token: Seq<u8>) -> (
    Map<Seq<char>, EntryVal>,
    bool,
) {
    if spec_holder(m, k) == Option::Some(token) {
        (m.remove(k), true)
    } else {
        (m, false)
    }
}

/// One attempt's conditional write plus lease. Succeeds exactly when the
/// key is not live; the lease is set in the same breath, so there is no
/// un-leased, un-released lock state to leak.
pub fn try_acquire(store: &mut KvStore, key: &String, token: &Vec<u8>, lease: u64, now: u64) -> (r:
    bool)
    requires
        old(store).wf(),
        now + lease <= u64::MAX,
    ensures
        final(store).wf(),
        r == !live_in(old(store).contents(), key@, now),
        r ==> final(store).contents() == spec_acquired(
            old(store).contents(),
            key@,
            token@,
            lease,
            now,
        ),
        !r ==> final(store).contents() == old(store).contents(),
{
    let ghost m0 = store.contents();
    if store.set_if_absent(key.clone(), token.clone(), now) {
        let leased = store.expire(key, lease, now);
        proof {
            assert(leased is Ok);
            assert(final(store).contents() =~= spec_acquired(m0, key@, token@, lease, now));
        }
        true
    } else {
        false
    }
}

/// The token-checked release: deletes the key only while it still holds
/// this campaign's token. Answers whether it released; a key already
/// re-acquired under another token is left untouched.
pub fn release(store: &mut KvStore, key: &String, token: &Vec<u8>) -> (r: bool)
    requires
        old(store).wf(),
    ensures
        final(store).wf(),
        r == spec_release(old(store).contents(), key@, token@).1,
        final(store).contents() == spec_release(old(store).contents(), key@, token@).0,
{
    let held = match store.peek(key) {
        Some(v) => bytes_eq(v, token),
        None => false,
    };
    if held {
        store.delete(key);
        true
    } else {
        false
    }
}

/// What one pass of the acquire loop tells its runner to do.
pub enum AcquireStep {
    /// The lock is held; run the critical section, then release.
    Acquired,
    /// The key is held by someone else; wait this long, then step again.
    RetryAfter(u64),
    /// The retry budget is spent; surface a timeout.
    TimedOut,
    /// The caller's external cancellation was honoured.
    Cancelled,
}

/// One lock-acquisition campaign: its per-attempt token, the lease it
/// asks for, the backoff between attempts, and the remaining retry
/// budget.
pub struct AcquireLoop {
    pub key: String,
    pub token: Vec<u8>,
    pub lease: u64,
    pub backoff: u64,
    pub attempts_left: u64,
}

impl AcquireLoop {
    /// A fresh campaign with a full budget.
    pub fn new(key: String, token: Vec<u8>, lease: u64, backoff: u64, max_retries: u64) -> (r:
        AcquireLoop)
        ensures
            r == (AcquireLoop { key, token, lease, backoff, attempts_left: max_retries }),
    {
        AcquireLoop { key, token, lease, backoff, attempts_left: max_retries }
    }

    /// One pass of the loop. Cancellation is honoured first and spends
    /// nothing; a free key is acquired; a held key spends one retry,
    /// until the budget is gone and the pass times out. Each conflict
    /// strictly shrinks the budget, so a campaign makes at most one pass
    /// more than its budget.
    pub fn step(&mut self, store: &mut KvStore, now: u64, cancelled: bool) -> (r: AcquireStep)
        requires
            old(store).wf(),
            now + old(self).lease <= u64::MAX,
        ensures
            final(store).wf(),
            cancelled ==> r is Cancelled && final(store).contents() == old(store).contents()
                && *final(self) == *old(self),
            !cancelled && !live_in(old(store).contents(), old(self).key@, now) ==> r is Acquired
                && final(store).contents() == spec_acquired(
                old(store).contents(),
                old(self).key@,
                old(self).token@,
                old(self).lease,
                now,
            ) && *final(self) == *old(self),
            !cancelled && live_in(old(store).contents(), old(self).key@, now) && old(self).attempts_left > 0
                ==> r == AcquireStep::RetryAfter(old(self).backoff)
                && final(store).contents() == old(store).contents()
                && *final(self) == (AcquireLoop {
                    attempts_left: (old(self).attempts_left - 1) as u64,
                    ..*old(self)
                }),
            !cancelled && live_in(old(store).contents(), old(self).key@, now) && old(self).attempts_left == 0
                ==> r is TimedOut
                && final(store).contents() == old(store).contents()
                && *final(self) == *old(self),
    {
        if cancelled {
            return AcquireStep::Cancelled;
        }
        if try_acquire(store, &self.key, &self.token, self.lease, now) {
            AcquireStep::Acquired
        } else if self.attempts_left > 0 {
            self.attempts_left = self.attempts_left - 1;
            AcquireStep::RetryAfter(self.backoff)
        } else {
            AcquireStep::TimedOut
        }
    }
}

/// Drives a campaign to its outcome against the store, one pass per entry
/// of the attempt schedule (the times the runner would wake at). The loop
/// is iterative, never recursive, and bounded: with a schedule that
/// outlasts the budget it always ends, holding the lock or timed out. It
/// times out only when the key was held at the first wake and at every
/// retried wake after it; in particular, a key free at the first wake is
/// acquired. A timed-out campaign has written nothing.
pub fn drive_acquire(campaign: &mut AcquireLoop, store: &mut KvStore, schedule: &Vec<u64>) -> (r:
    AcquireStep)
    requires
        old(store).wf(),
        schedule@.len() > old(campaign).attempts_left,
        forall|j: int| 0 <= j < schedule@.len() ==> #[trigger] schedule@[j] + old(campaign).lease
            <= u64::MAX,
    ensures
        final(store).wf(),
        r is Acquired || r is TimedOut,
        r is Acquired ==> spec_holder(final(store).contents(), old(campaign).key@) == Option::Some(
            old(campaign).token@,
        ),
        r is TimedOut ==> final(store).contents() == old(store).contents()
            && final(campaign).attempts_left == 0,
        r is TimedOut ==> forall|j: int|
            0 <= j <= old(campaign).attempts_left ==> live_in(
                old(store).contents(),
                old(campaign).key@,
                #[trigger] schedule@[j],
            ),
        !live_in(old(store).contents(), old(campaign).key@, schedule@[0]) ==> r is Acquired,
{
    let ghost c0 = *campaign;
    let ghost m0 = store.contents();
    let mut i: usize = 0;
    while i < schedule.len()
        invariant
            c0 == *old(campaign),
            m0 == old(store).contents(),
            store.wf(),
            store.contents() == m0,
            campaign.key == c0.key,
            campaign.token == c0.token,
            campaign.lease == c0.lease,
            campaign.backoff == c0.backoff,
            i <= c0.attempts_left,
            campaign.attempts_left == c0.attempts_left - i,
            forall|j: int| 0 <= j < i ==> live_in(m0, c0.key@, #[trigger] schedule@[j]),
            schedule@.len() > c0.attempts_left,
            forall|j: int| 0 <= j < schedule@.len() ==> #[trigger] schedule@[j] + c0.lease
                <= u64::MAX,
        decreases schedule@.len() - i,
    {
        match campaign.step(store, schedule[i], false) {
            AcquireStep::Acquired => {
                return AcquireStep::Acquired;
            },
            AcquireStep::RetryAfter(_) => {
                i = i + 1;
            },
            AcquireStep::TimedOut => {
                return AcquireStep::TimedOut;
            },
            AcquireStep::Cancelled => {
                return unreached();
            },
        }
    }
    proof {
        assert(false);
    }
    unreached()
}

/// Two campaigns on one key exclude each other: after one campaign's
/// write wins the free key, the other campaign's conditional write fails
/// for as long as the lease stands, and the key holds the winner's token.
pub proof fn lemma_mutual_exclusion(
    m: Map<Seq<char>, EntryVal>,
    k: Seq<char>,
    t1: Seq<u8>,
    t2: Seq<u8>,
    lease: u64,
    n1: u64,
    n2: u64,
)
    requires
        !live_in(m, k, n1),
        n1 + lease <= u64::MAX,
        n2 < n1 + lease,
    ensures
        spec_set_if_absent(m, k, t1, n1).1 == true,
        spec_set_if_absent(spec_acquired(m, k, t1, lease, n1), k, t2, n2).1 == false,
        spec_holder(spec_acquired(m, k, t1, lease, n1), k) == Option::Some(t1),
{
}

/// After the holder's token-checked release, the key is free at any time,
/// and another campaign's very first conditional write succeeds — within
/// any retry budget.
pub proof fn lemma_release_enables_next(
    m: Map<Seq<char>, EntryVal>,
    k: Seq<char>,
    t1: Seq<u8>,
    t2: Seq<u8>,
    n: u64,
)
    requires
        spec_holder(m, k) == Option::Some(t1),
    ensures
        spec_release(m, k, t1).1 == true,
        !live_in(spec_release(m, k, t1).0, k, n),
        spec_set_if_absent(spec_release(m, k, t1).0, k, t2, n).1 == true,
{
}

/// A stale holder cannot free a re-acquired key: once another campaign's
/// token sits under the key, the first campaign's token-checked release
/// declines and changes nothing.
pub proof fn lemma_release_is_token_checked(
    m: Map<Seq<char>, EntryVal>,
    k: Seq<char>,
    t1: Seq<u8>,
    t2: Seq<u8>,
)
    requires
        spec_holder(m, k) == Option::Some(t2),
        t1 != t2,
    ensures
        spec_release(m, k, t1).1 == false,
        spec_release(m, k, t1).0 == m,
{
}

} // verus!
