//! The pattern both awaiters share: query on every resumption attempt,
//! resolve when the query settles, otherwise leave one trigger registered
//! that is bound to the wake handle of this very attempt.

use crate::error::NativeError;
use vstd::prelude::*;

verus! {

/// What a resumption attempt hands back to the scheduler.
#[derive(Clone, Copy, Debug, PartialEq, Eq)]
pub enum Poll {
    /// The awaiter resolved with this result; it is not to be resumed again.
    Ready(Result<(), NativeError>),
    /// The awaiter suspended; the trigger it left registered will wake it.
    Pending,
}

/// One resumption attempt as the awaiter sees it: what the state query
/// settled to, if anything, and the wake handle the scheduler supplied.
pub struct Attempt<W> {
    /// `Some(result)` where the queried state is terminal and resolves to
    /// `result`; `None` where the handle is still on its way.
    pub settled: Option<Result<(), NativeError>>,
    /// The wake handle of this attempt.
    pub waker: W,
}

/// The mathematical content of an [`Awaiter`].
pub struct AwaiterView<W> {
    /// The wake handle the registered trigger is bound to, if a trigger is
    /// registered. There is never more than one.
    pub trigger: Option<W>,
    /// The result the awaiter resolved with, once it has.
    pub resolution: Option<Result<(), NativeError>>,
}

impl<W> AwaiterView<W> {
    /// An awaiter that was never resumed.
    pub open spec fn fresh() -> Self {
        AwaiterView { trigger: None, resolution: None }
    }

    pub open spec fn resolved(self) -> bool {
        self.resolution is Some
    }

    /// Registering a trigger bound to `waker` replaces whatever was registered.
    pub open spec fn suspend(self, waker: W) -> Self {
        AwaiterView { trigger: Some(waker), resolution: self.resolution }
    }

    /// Resolving registers nothing.
    pub open spec fn resolve(self, result: Result<(), NativeError>) -> Self {
        AwaiterView { trigger: self.trigger, resolution: Some(result) }
    }

    /// The awaiter after one resumption attempt. A resolved awaiter is not
    /// resumed any more: an attempt on it is not made and changes nothing.
    pub open spec fn attempt(self, attempt: Attempt<W>) -> Self {
        if self.resolved() {
            self
        } else {
            match attempt.settled {
                Some(result) => self.resolve(result),
                None => self.suspend(attempt.waker),
            }
        }
    }

    /// Whether this attempt is the one at which the awaiter resolves.
    pub open spec fn resolves_at(self, attempt: Attempt<W>) -> bool {
        !self.resolved() && attempt.settled is Some
    }

    /// Whether this attempt is one at which the awaiter suspends.
    pub open spec fn suspends_at(self, attempt: Attempt<W>) -> bool {
        !self.resolved() && attempt.settled is None
    }

    /// The awaiter after a sequence of resumption attempts, in order.
    pub open spec fn run(self, attempts: Seq<Attempt<W>>) -> Self
        decreases attempts.len(),
    {
        if attempts.len() == 0 {
            self
        } else {
            self.attempt(attempts[0]).run(attempts.skip(1))
        }
    }

    /// How many attempts of the sequence resolve the awaiter.
    pub open spec fn resolutions(self, attempts: Seq<Attempt<W>>) -> nat
        decreases attempts.len(),
    {
        if attempts.len() == 0 {
            0
        } else {
            let here: nat = if self.resolves_at(attempts[0]) {
                1
            } else {
                0
            };
            here + self.attempt(attempts[0]).resolutions(attempts.skip(1))
        }
    }

    /// How many attempts of the sequence end in a suspension.
    pub open spec fn suspensions(self, attempts: Seq<Attempt<W>>) -> nat
        decreases attempts.len(),
    {
        if attempts.len() == 0 {
            0
        } else {
            let here: nat = if self.suspends_at(attempts[0]) {
                1
            } else {
                0
            };
            here + self.attempt(attempts[0]).suspensions(attempts.skip(1))
        }
    }
}

/// What [`Awaiter::attempt`] returns for a query that settled, or did not.
pub open spec fn poll_of(settled: Option<Result<(), NativeError>>) -> Poll {
    match settled {
        Some(result) => Poll::Ready(result),
        None => Poll::Pending,
    }
}

/// The state of one pending asynchronous value: the single trigger it has
/// registered and, once it has resolved, its result.
///
/// `W` is the wake handle of the scheduler. The awaiter owns the handle its
/// trigger is bound to and nothing else of the task.
pub struct Awaiter<W> {
    trigger: Option<W>,
    resolution: Option<Result<(), NativeError>>,
}

impl<W> View for Awaiter<W> {
    type V = AwaiterView<W>;

    closed spec fn view(&self) -> AwaiterView<W> {
        AwaiterView { trigger: self.trigger, resolution: self.resolution }
    }
}

impl<W> Awaiter<W> {
    /// An awaiter that was never resumed: nothing registered, not resolved.
    pub fn new() -> (awaiter: Self)
        ensures
            awaiter@ == AwaiterView::<W>::fresh(),
    {
        Awaiter { trigger: None, resolution: None }
    }

    /// Whether the awaiter has resolved.
    pub fn is_resolved(&self) -> (resolved: bool)
        ensures
            resolved == self@.resolved(),
    {
        self.resolution.is_some()
    }

    /// The result the awaiter resolved with, if it has.
    pub fn resolution(&self) -> (resolution: Option<Result<(), NativeError>>)
        ensures
            resolution == self@.resolution,
    {
        self.resolution
    }

    /// The wake handle the registered trigger is bound to, if any.
    pub fn trigger(&self) -> (trigger: Option<&W>)
        ensures
            trigger is Some <==> self@.trigger is Some,
            trigger is Some ==> *trigger->0 == self@.trigger->0,
    {
        self.trigger.as_ref()
    }

    /// Registers a trigger bound to `waker`. It takes the place of the one
    /// registered before, whichever that was.
    pub fn suspend(&mut self, waker: W)
        requires
            !old(self)@.resolved(),
        ensures
            final(self)@ == old(self)@.suspend(waker),
    {
        self.trigger = Some(waker);
    }

    /// Resolves with `result`. Nothing is registered.
    pub fn resolve(&mut self, result: Result<(), NativeError>)
        requires
            !old(self)@.resolved(),
        ensures
            final(self)@ == old(self)@.resolve(result),
    {
        self.resolution = Some(result);
    }

    /// One resumption attempt. `settled` is what the state queried at this
    /// attempt resolves to, `None` while the handle is on its way; `waker`
    /// is the wake handle of this attempt.
    ///
    /// A settled query resolves the awaiter at once and registers nothing.
    /// An unsettled one leaves a trigger bound to `waker` registered in
    /// place of any earlier one, and the awaiter suspends.
    pub fn attempt(&mut self, settled: Option<Result<(), NativeError>>, waker: W) -> (poll: Poll)
        requires
            !old(self)@.resolved(),
        ensures
            final(self)@ == old(self)@.attempt((Attempt { settled, waker })),
            poll == poll_of(settled),
    {
        match settled {
            Some(result) => {
                self.resolve(result);
                Poll::Ready(result)
            },
            None => {
                self.suspend(waker);
                Poll::Pending
            },
        }
    }
}

/// A resolved awaiter stays as it is, whatever attempts follow, and none of
/// them resolves it a second time.
pub proof fn law_resolved_is_final<W>(awaiter: AwaiterView<W>, attempts: Seq<Attempt<W>>)
    requires
        awaiter.resolved(),
    ensures
        awaiter.run(attempts) == awaiter,
        awaiter.resolutions(attempts) == 0,
        awaiter.suspensions(attempts) == 0,
    decreases attempts.len(),
{
    if attempts.len() > 0 {
        law_resolved_is_final(awaiter, attempts.skip(1));
    }
}

/// Over any sequence of resumption attempts an awaiter resolves at most
/// once, however the attempts came about.
pub proof fn law_single_resolution<W>(awaiter: AwaiterView<W>, attempts: Seq<Attempt<W>>)
    ensures
        awaiter.resolutions(attempts) <= 1,
    decreases attempts.len(),
{
    if attempts.len() > 0 {
        law_single_resolution(awaiter.attempt(attempts[0]), attempts.skip(1));
        if awaiter.resolves_at(attempts[0]) {
            law_resolved_is_final(awaiter.attempt(attempts[0]), attempts.skip(1));
        }
    }
}

/// The first settled query decides, and the latest trigger is the only one.
///
/// Let attempt `k` be the first whose query settled (`k` is the length of
/// the sequence where none did). Then the awaiter resolves exactly there,
/// with that result, and the trigger left registered is the one of attempt
/// `k - 1`, the last that suspended: each registration took the place of
/// the one before it. The awaiter suspended `k` times. Attempts after `k`
/// change nothing.
pub proof fn law_first_settled_decides<W>(
    awaiter: AwaiterView<W>,
    attempts: Seq<Attempt<W>>,
    k: int,
)
    requires
        !awaiter.resolved(),
        0 <= k <= attempts.len(),
        forall|j: int| 0 <= j < k ==> (#[trigger] attempts[j]).settled is None,
        k < attempts.len() ==> attempts[k].settled is Some,
    ensures
        awaiter.run(attempts).resolution == (if k < attempts.len() {
            attempts[k].settled
        } else {
            None
        }),
        awaiter.run(attempts).trigger == (if k == 0 {
            awaiter.trigger
        } else {
            Some(attempts[k - 1].waker)
        }),
        awaiter.resolutions(attempts) == (if k < attempts.len() {
            1nat
        } else {
            0nat
        }),
        awaiter.suspensions(attempts) == k,
    decreases attempts.len(),
{
    if attempts.len() > 0 {
        let next = awaiter.attempt(attempts[0]);
        let rest = attempts.skip(1);
        if k == 0 {
            law_resolved_is_final(next, rest);
        } else {
            assert(attempts[0].settled is None);
            assert forall|j: int| 0 <= j < k - 1 implies (#[trigger] rest[j]).settled is None by {
                assert(rest[j] == attempts[j + 1]);
            }
            law_first_settled_decides(next, rest, k - 1);
        }
    }
}

} // verus!
