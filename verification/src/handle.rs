//! Lazily initialized, exactly-once resource slot. The handle is the
//! decision core of the runtime primitive: a caller polls it, is told to
//! run the factory, to await the in-flight attempt, or to use the ready
//! value, and the one caller that ran the factory reports the outcome
//! back. The surrounding runtime performs the awaiting; every decision
//! about who initializes, and what later callers see, is taken here.
use vstd::prelude::*;

use crate::error::ErrorKind;

verus! {

/// The lifecycle of the slot: nobody has started the factory, one caller
/// is running it, or its value is ready and shared.
pub enum HandleState<T> {
    Uninitialized,
    Initializing,
    Ready(T),
}

/// What a polling caller must do next.
pub enum PollOutcome {
    /// This caller is the one that runs the factory.
    RunFactory,
    /// Another caller's attempt is in flight; await its outcome.
    AwaitInFlight,
    /// The value is ready; read it.
    Ready,
}

/// The outcome a poll is answered with in a given state.
pub open spec fn spec_poll_outcome<T>(s: HandleState<T>) -> PollOutcome {
    match s {
        HandleState::Uninitialized => PollOutcome::RunFactory,
        HandleState::Initializing => PollOutcome::AwaitInFlight,
        HandleState::Ready(_) => PollOutcome::Ready,
    }
}

/// The state a poll leaves the slot in: polling claims an uninitialized
/// slot for this caller and touches nothing else.
pub open spec fn spec_poll_state<T>(s: HandleState<T>) -> HandleState<T> {
    match s {
        HandleState::Uninitialized => HandleState::Initializing,
        HandleState::Initializing => HandleState::Initializing,
        HandleState::Ready(v) => HandleState::Ready(v),
    }
}

/// A lazily initialized, exactly-once resource slot.
pub struct ResourceHandle<T> {
    state: HandleState<T>,
}

impl<T> ResourceHandle<T> {
    /// The current lifecycle state.
    pub closed spec fn spec_state(self) -> HandleState<T> {
        self.state
    }

    /// A fresh slot: nothing has run.
    pub fn new() -> (r: ResourceHandle<T>)
        ensures
            r.spec_state() is Uninitialized,
    {
        ResourceHandle { state: HandleState::Uninitialized }
    }

    /// One caller's arrival. The first caller of an uninitialized slot is
    /// told to run the factory and the slot records the in-flight attempt;
    /// every other caller is told to await that attempt or to use the
    /// ready value.
    pub fn poll_acquire(&mut self) -> (r: PollOutcome)
        ensures
            r == spec_poll_outcome(old(self).spec_state()),
            final(self).spec_state() == spec_poll_state(old(self).spec_state()),
    {
        match &self.state {
            HandleState::Uninitialized => {
                self.state = HandleState::Initializing;
                PollOutcome::RunFactory
            },
            HandleState::Initializing => PollOutcome::AwaitInFlight,
            HandleState::Ready(_) => PollOutcome::Ready,
        }
    }

    /// The factory's outcome, reported by the caller that ran it. Success
    /// publishes the value; failure returns the slot to uninitialized, so
    /// a failed attempt never poisons the slot against a later retry.
    pub fn complete<E>(&mut self, outcome: Result<T, E>) -> (r: Result<(), E>)
        requires
            old(self).spec_state() is Initializing,
        ensures
            outcome matches Ok(v) ==> final(self).spec_state() == HandleState::Ready(v) && r
                is Ok,
            outcome matches Err(e) ==> final(self).spec_state() is Uninitialized && r == Err::<
                (),
                E,
            >(e),
    {
        match outcome {
            Ok(v) => {
                self.state = HandleState::Ready(v);
                Ok(())
            },
            Err(e) => {
                self.state = HandleState::Uninitialized;
                Err(e)
            },
        }
    }

    /// The shared value of a ready slot. Every caller reads this one
    /// value: a read never observes a partially constructed value, since
    /// only `complete` can make the slot ready, with the whole value.
    pub fn value(&self) -> (r: &T)
        requires
            self.spec_state() is Ready,
        ensures
            self.spec_state() matches HandleState::Ready(v) && *r == v,
    {
        match &self.state {
            HandleState::Ready(v) => v,
            HandleState::Uninitialized => unreached(),
            HandleState::Initializing => unreached(),
        }
    }
}

/// The slot after a row of polls, and how many of them were told to run
/// the factory.
pub open spec fn spec_polls<T>(s: HandleState<T>, n: nat) -> (HandleState<T>, nat)
    decreases n,
{
    if n == 0 {
        (s, 0)
    } else {
        let first_runs: nat = if spec_poll_outcome(s) is RunFactory {
            1
        } else {
            0
        };
        let rest = spec_polls(spec_poll_state(s), (n - 1) as nat);
        (rest.0, first_runs + rest.1)
    }
}

/// While an attempt is in flight, no caller is told to run the factory,
/// however many arrive.
pub proof fn lemma_no_run_while_initializing<T>(n: nat)
    ensures
        spec_polls::<T>(HandleState::Initializing, n) == (
            HandleState::<T>::Initializing,
            0nat,
        ),
    decreases n,
{
    if n > 0 {
        lemma_no_run_while_initializing::<T>((n - 1) as nat);
    }
}

/// For any number of concurrent first-time callers of one handle, the
/// factory is run exactly once: of N polls of an uninitialized slot,
/// exactly the first is told to run it.
pub proof fn lemma_factory_runs_exactly_once<T>(n: nat)
    requires
        n >= 1,
    ensures
        spec_polls::<T>(HandleState::Uninitialized, n).1 == 1,
{
    lemma_no_run_while_initializing::<T>((n - 1) as nat);
}

/// Once a value is ready, every caller observes that same value and
/// nobody reruns the factory.
pub proof fn lemma_all_observe_same_value<T>(v: T, n: nat)
    ensures
        spec_polls::<T>(HandleState::Ready(v), n) == (HandleState::Ready(v), 0nat),
    decreases n,
{
    if n > 0 {
        lemma_all_observe_same_value(v, (n - 1) as nat);
    }
}

/// A failed attempt does not block a later retry: completion with an
/// error leaves the slot where the next caller is told to run the factory
/// again.
pub proof fn lemma_failed_attempt_allows_retry<T>()
    ensures
        spec_poll_outcome::<T>(HandleState::Uninitialized) is RunFactory,
        spec_poll_state::<T>(HandleState::Uninitialized) is Initializing,
{
}

/// A write-at-most-once configuration slot: connection parameters are set
/// before first use, and a second set attempt is a defined error rather
/// than a silent overwrite.
pub struct ConfigSlot<C> {
    cfg: Option<C>,
}

impl<C> ConfigSlot<C> {
    /// The stored configuration, if set.
    pub closed spec fn spec_get(self) -> Option<C> {
        self.cfg
    }

    /// An empty slot.
    pub fn new() -> (r: ConfigSlot<C>)
        ensures
            r.spec_get() is None,
    {
        ConfigSlot { cfg: None }
    }

    /// Stores the configuration if none is stored yet; a second attempt
    /// is rejected with a business error and changes nothing.
    pub fn set(&mut self, cfg: C) -> (r: Result<(), ErrorKind>)
        ensures
            old(self).spec_get() is None ==> r is Ok && final(self).spec_get() == Some(cfg),
            old(self).spec_get() is Some ==> final(self).spec_get() == old(self).spec_get() && (
            r matches Err(e) && e matches ErrorKind::Business { msg, err_code } && msg@
                == "configuration already set"@ && err_code == 50000000),
    {
        match &self.cfg {
            Option::None => {
                self.cfg = Some(cfg);
                Ok(())
            },
            Option::Some(_) => Err(
                ErrorKind::Business {
                    msg: String::from_str("configuration already set"),
                    err_code: 50000000,
                },
            ),
        }
    }

    /// Reads the stored configuration.
    pub fn get(&self) -> (r: Option<&C>)
        ensures
            r matches Some(c) ==> self.spec_get() == Some(*c),
            r is None <==> self.spec_get() is None,
    {
        match &self.cfg {
            Option::Some(c) => Some(c),
            Option::None => None,
        }
    }
}

} // verus!
