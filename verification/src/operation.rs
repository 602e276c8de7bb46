//! Awaiting one operation that the server carries out.

use crate::awaiter::Attempt;
use crate::awaiter::Awaiter;
use crate::awaiter::AwaiterView;
use crate::awaiter::Poll;
use crate::awaiter::poll_of;
use crate::error::NativeError;
use vstd::prelude::*;

verus! {

/// The life-cycle state an operation handle reports.
#[derive(Clone, Copy, Debug, PartialEq, Eq, Structural)]
pub enum State {
    /// The operation is still running.
    Running,
    /// The operation has completed.
    Done,
    /// The operation was cancelled, by the client or because the
    /// connection went away.
    Cancelled,
}

impl State {
    /// A terminal state is one the handle never leaves again.
    pub open spec fn terminal(self) -> bool {
        self != State::Running
    }

    /// What an awaiter that queries this state resolves with: success for
    /// `Done`, the killed error for `Cancelled`, nothing while running.
    pub open spec fn settles(self) -> Option<Result<(), NativeError>> {
        match self {
            State::Running => None,
            State::Done => Some(Ok(())),
            State::Cancelled => Some(Err(NativeError::killed_spec())),
        }
    }

    /// Whether a handle that reports `self` may report `next` at a later
    /// query: a running operation may have reached any state, a terminal
    /// state stays.
    pub open spec fn precedes(self, next: State) -> bool {
        self == State::Running || next == self
    }

    /// Whether the handle never leaves this state again.
    pub fn is_terminal(&self) -> (terminal: bool)
        ensures
            terminal == self.terminal(),
    {
        match self {
            State::Running => false,
            State::Done => true,
            State::Cancelled => true,
        }
    }

    /// What an awaiter that queries this state resolves with, if it does.
    /// A cancelled operation carries no diagnostic of its own: its error is
    /// the fixed killed error.
    pub fn settled(&self) -> (settled: Option<Result<(), NativeError>>)
        ensures
            settled == self.settles(),
            settled is Some <==> self.terminal(),
    {
        match self {
            State::Running => None,
            State::Done => Some(Ok(())),
            State::Cancelled => Some(Err(NativeError::killed())),
        }
    }
}

/// Whether a sequence of states is one that successive queries of a single
/// operation handle can return.
pub open spec fn lifecycle(history: Seq<State>) -> bool {
    forall|i: int, j: int|
        0 <= i && j == i + 1 && j < history.len() ==> (#[trigger] history[i]).precedes(
            #[trigger] history[j],
        )
}

/// The attempts an awaiter sees when the handle reports `states[i]` at the
/// attempt that the scheduler makes with `wakers[i]`.
pub open spec fn attempts_on<W>(states: Seq<State>, wakers: Seq<W>) -> Seq<Attempt<W>>
    recommends
        states.len() == wakers.len(),
{
    Seq::new(states.len(), |i: int| Attempt { settled: states[i].settles(), waker: wakers[i] })
}

/// An awaiter for one operation handle.
///
/// It is a one-shot value: once it has resolved it is not polled again.
pub struct Operation<W> {
    awaiter: Awaiter<W>,
}

impl<W> View for Operation<W> {
    type V = AwaiterView<W>;

    closed spec fn view(&self) -> AwaiterView<W> {
        self.awaiter@
    }
}

impl<W> Operation<W> {
    /// The awaiter for a handle that was just obtained: it has registered
    /// nothing and has not resolved.
    pub fn new() -> (operation: Self)
        ensures
            operation@ == AwaiterView::<W>::fresh(),
    {
        Operation { awaiter: Awaiter::new() }
    }

    /// One resumption attempt. `state` is what the handle reports now,
    /// `waker` the wake handle of this attempt.
    ///
    /// `Done` resolves with success and `Cancelled` with the killed error,
    /// at once and without registering anything. While the operation runs,
    /// a trigger bound to `waker` is left registered in place of any earlier
    /// one and the awaiter suspends: the caller puts that trigger on the
    /// handle and returns to the scheduler.
    pub fn poll(&mut self, state: State, waker: W) -> (poll: Poll)
        requires
            !old(self)@.resolved(),
        ensures
            final(self)@ == old(self)@.attempt((Attempt { settled: state.settles(), waker })),
            poll == poll_of(state.settles()),
    {
        self.awaiter.attempt(state.settled(), waker)
    }

    /// Whether the awaiter has resolved.
    pub fn is_resolved(&self) -> (resolved: bool)
        ensures
            resolved == self@.resolved(),
    {
        self.awaiter.is_resolved()
    }

    /// The result the awaiter resolved with, if it has.
    pub fn resolution(&self) -> (resolution: Option<Result<(), NativeError>>)
        ensures
            resolution == self@.resolution,
    {
        self.awaiter.resolution()
    }

    /// The wake handle the registered trigger is bound to, if any.
    pub fn trigger(&self) -> (trigger: Option<&W>)
        ensures
            trigger is Some <==> self@.trigger is Some,
            trigger is Some ==> *trigger->0 == self@.trigger->0,
    {
        self.awaiter.trigger()
    }
}

/// Once a handle has reported a terminal state, every later query reports
/// that same state.
pub proof fn law_terminal_state_is_sticky(history: Seq<State>, i: int, j: int)
    requires
        lifecycle(history),
        0 <= i <= j < history.len(),
        history[i].terminal(),
    ensures
        history[j] == history[i],
    decreases j - i,
{
    if i < j {
        law_terminal_state_is_sticky(history, i, j - 1);
        assert(history[j - 1].precedes(history[j]));
    }
}

/// What awaiting an operation comes to.
///
/// The awaiter is resumed with `wakers` while the handle reports `states`,
/// and attempt `k` is the first to find it in a terminal state (`k` is the
/// number of attempts where none does). Then the awaiter resolves at
/// attempt `k` with what that state resolves to, after `k` suspensions, and
/// the trigger left registered is the one of attempt `k - 1`.
pub proof fn law_await_operation<W>(states: Seq<State>, wakers: Seq<W>, k: int)
    requires
        states.len() == wakers.len(),
        0 <= k <= states.len(),
        forall|j: int| 0 <= j < k ==> !(#[trigger] states[j]).terminal(),
        k < states.len() ==> states[k].terminal(),
    ensures
        AwaiterView::<W>::fresh().run(attempts_on(states, wakers)).resolution == (if k
            < states.len() {
            states[k].settles()
        } else {
            None
        }),
        AwaiterView::<W>::fresh().run(attempts_on(states, wakers)).trigger == (if k == 0 {
            None
        } else {
            Some(wakers[k - 1])
        }),
        AwaiterView::<W>::fresh().suspensions(attempts_on(states, wakers)) == k,
        AwaiterView::<W>::fresh().resolutions(attempts_on(states, wakers)) == (if k
            < states.len() {
            1nat
        } else {
            0nat
        }),
{
    let attempts = attempts_on(states, wakers);
    assert forall|j: int| 0 <= j < k implies (#[trigger] attempts[j]).settled is None by {
        assert(!states[j].terminal());
    }
    crate::awaiter::law_first_settled_decides(AwaiterView::<W>::fresh(), attempts, k);
}

/// The first attempt at which a handle that is terminal at attempt `k`
/// reported a terminal state.
spec fn first_terminal(states: Seq<State>, k: int) -> int
    decreases k,
{
    if k > 0 && states[k - 1].terminal() {
        first_terminal(states, k - 1)
    } else {
        k
    }
}

proof fn lemma_first_terminal(states: Seq<State>, k: int)
    requires
        lifecycle(states),
        0 <= k < states.len(),
        states[k].terminal(),
    ensures
        0 <= first_terminal(states, k) <= k,
        states[first_terminal(states, k)].terminal(),
        forall|j: int| 0 <= j < first_terminal(states, k) ==> !(#[trigger] states[j]).terminal(),
    decreases k,
{
    if k > 0 && states[k - 1].terminal() {
        lemma_first_terminal(states, k - 1);
    } else {
        assert forall|j: int| 0 <= j < k implies !(#[trigger] states[j]).terminal() by {
            if states[j].terminal() {
                law_terminal_state_is_sticky(states, j, k - 1);
            }
        }
    }
}

/// Awaiting an operation comes to the same whenever the scheduler resumes
/// the awaiter.
///
/// Let the handle report `states`, a sequence that its life cycle allows,
/// at the attempts made with `wakers`, and let it have been terminal at
/// attempt `k`. Then a fresh awaiter has resolved after these attempts, once
/// and only once, with what `states[k]` resolves to, be `k` the first
/// attempt to see the terminal state or a later one.
pub proof fn law_operation_resolves_once<W>(states: Seq<State>, wakers: Seq<W>, k: int)
    requires
        lifecycle(states),
        states.len() == wakers.len(),
        0 <= k < states.len(),
        states[k].terminal(),
    ensures
        AwaiterView::<W>::fresh().run(attempts_on(states, wakers)).resolution
            == states[k].settles(),
        AwaiterView::<W>::fresh().resolutions(attempts_on(states, wakers)) == 1,
{
    let first = first_terminal(states, k);
    let attempts = attempts_on(states, wakers);
    lemma_first_terminal(states, k);
    law_terminal_state_is_sticky(states, first, k);
    assert forall|j: int| 0 <= j < first implies (#[trigger] attempts[j]).settled is None by {
        assert(!states[j].terminal());
    }
    crate::awaiter::law_first_settled_decides(AwaiterView::<W>::fresh(), attempts, first);
}

} // verus!
