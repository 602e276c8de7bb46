//! Capturing the verdict of a remote call and turning it into a result.
//!
//! A remote call reports two things apart from each other: the life cycle
//! of its operation, which an [`Operation`](crate::operation::Operation)
//! awaits, and the server's verdict on the request, which the completion
//! callback of the call receives. The callback records the verdict through
//! a [`Recorder`]; the caller reads it from the [`SuccessFlag`] once the
//! operation has resolved.

use crate::awaiter::AwaiterView;
use crate::error::NativeError;
use crate::operation::attempts_on;
use crate::operation::lifecycle;
use crate::operation::State;
use std::sync::atomic::AtomicBool;
use std::sync::atomic::Ordering;
use std::sync::Arc;
use vstd::prelude::*;

verus! {

/// What a remote call came to.
#[derive(Clone, Copy, Debug, PartialEq, Eq)]
pub enum Outcome {
    /// The operation completed and the server's verdict was success.
    Succeeded,
    /// The operation itself failed, with this error; the verdict was not
    /// consulted.
    Failed(NativeError),
    /// The operation completed and the server's verdict was failure. The
    /// verdict carries no reason: the connection's last error has it.
    Rejected,
}

/// What a remote call comes to, from how its awaiter resolved and the
/// verdict that was captured.
pub open spec fn outcome_of(awaited: Result<(), NativeError>, verdict: bool) -> Outcome {
    match awaited {
        Err(error) => Outcome::Failed(error),
        Ok(_) => if verdict {
            Outcome::Succeeded
        } else {
            Outcome::Rejected
        },
    }
}

/// The result a remote call hands to its caller; `errno` is the last error
/// of the connection.
pub open spec fn result_of(outcome: Outcome, errno: NativeError) -> Result<(), NativeError> {
    match outcome {
        Outcome::Succeeded => Ok(()),
        Outcome::Failed(error) => Err(error),
        Outcome::Rejected => Err(errno),
    }
}

/// Decides what a remote call came to. `awaited` is what the awaiter of
/// its operation resolved with, `verdict` what was read from the flag.
///
/// A failure of the awaiter is passed on as it is, whatever the verdict.
pub fn settle(awaited: Result<(), NativeError>, verdict: bool) -> (outcome: Outcome)
    ensures
        outcome == outcome_of(awaited, verdict),
{
    match awaited {
        Err(error) => Outcome::Failed(error),
        Ok(_) => {
            if verdict {
                Outcome::Succeeded
            } else {
                Outcome::Rejected
            }
        },
    }
}

impl Outcome {
    /// Whether the call succeeded: the operation completed and the verdict
    /// was success.
    pub fn succeeded(&self) -> (succeeded: bool)
        ensures
            succeeded == (*self == Outcome::Succeeded),
    {
        match self {
            Outcome::Succeeded => true,
            _ => false,
        }
    }

    /// The result for the caller of the remote call. `errno` is the last
    /// error of the connection; it is the error of a rejected call and is
    /// not looked at otherwise.
    pub fn into_result(self, errno: NativeError) -> (result: Result<(), NativeError>)
        ensures
            result == result_of(self, errno),
    {
        match self {
            Outcome::Succeeded => Ok(()),
            Outcome::Failed(error) => Err(error),
            Outcome::Rejected => Err(errno),
        }
    }

    /// The result for the caller of the remote call, where the last error
    /// of the connection is still to be asked for. `errno` asks for it; it
    /// is called for a rejected call and need not be callable otherwise.
    pub fn into_result_with<F: FnOnce() -> NativeError>(self, errno: F) -> (result: Result<
        (),
        NativeError,
    >)
        requires
            self == Outcome::Rejected ==> errno.requires(()),
        ensures
            self == Outcome::Succeeded ==> result == Ok::<(), NativeError>(()),
            self matches Outcome::Failed(error) ==> result == Err::<(), NativeError>(error),
            self == Outcome::Rejected ==> result is Err && errno.ensures((), result->Err_0),
    {
        match self {
            Outcome::Succeeded => Ok(()),
            Outcome::Failed(error) => Err(error),
            Outcome::Rejected => Err(errno()),
        }
    }
}

/// The cell that a [`SuccessFlag`] and its [`Recorder`] share.
struct Shared {
    verdict: Arc<AtomicBool>,
}

/// `Arc::clone` on the cell of a capture. The result is another pointer to
/// the same allocation: it and `cell` are one cell. Nothing is claimed of
/// what the cell holds.
#[verifier::external_body]
fn share(cell: &Arc<AtomicBool>) -> (other: Arc<AtomicBool>)
    ensures
        other == *cell,
{
    Arc::clone(cell)
}

/// The caller's end of the cell in which the completion callback of a
/// remote call leaves the server's verdict.
///
/// The callback may run in another execution context than the caller, so
/// the cell is written with release ordering and read with acquire
/// ordering. There is one reader, and it reads once: [`settle`](Self::settle)
/// takes the flag for good.
pub struct SuccessFlag {
    shared: Shared,
}

/// The callback's end of the cell: all it can do is record the verdict.
pub struct Recorder {
    shared: Shared,
}

/// Sets up the capture of one remote call: a flag that holds `false`, for
/// no verdict is known yet, and the recorder that goes into the completion
/// callback of the call. The two are the ends of one cell, made for this
/// call: what the recorder records is what the flag reads.
pub fn capture() -> (ends: (SuccessFlag, Recorder))
    ensures
        ends.1.feeds(&ends.0),
{
    let shared = Shared { verdict: Arc::new(AtomicBool::new(false)) };
    let recorder = Recorder { shared: Shared { verdict: share(&shared.verdict) } };
    (SuccessFlag { shared }, recorder)
}

impl Recorder {
    /// Whether this recorder and `flag` are the two ends of one cell, so
    /// that the verdict recorded here is the one that `flag` reads.
    pub closed spec fn feeds(&self, flag: &SuccessFlag) -> bool {
        self.shared.verdict == flag.shared.verdict
    }

    /// Records the verdict. The completion callback calls this before the
    /// operation of the call turns terminal.
    pub fn record(&self, verdict: bool) {
        self.shared.verdict.store(verdict, Ordering::Release);
    }
}

impl SuccessFlag {
    /// Decides what the remote call came to once its awaiter has resolved
    /// with `awaited`. The flag is read only where the operation completed:
    /// its value then is the verdict in [`outcome_of`].
    pub fn settle(self, awaited: Result<(), NativeError>) -> (outcome: Outcome)
        ensures
            outcome == outcome_of(awaited, true) || outcome == outcome_of(awaited, false),
    {
        match awaited {
            Err(error) => Outcome::Failed(error),
            Ok(_) => self::settle(awaited, self.shared.verdict.load(Ordering::Acquire)),
        }
    }
}

/// A cancelled operation resolves its awaiter with the killed error, and
/// the remote call fails with that error: never with success, and never
/// with the connection's last error, whatever verdict was captured.
///
/// The handle reports `states`, a sequence that its life cycle allows, at
/// the attempts made with `wakers`, and is cancelled at attempt `k`.
pub proof fn law_cancelled_is_killed<W>(
    states: Seq<State>,
    wakers: Seq<W>,
    k: int,
    verdict: bool,
    errno: NativeError,
)
    requires
        lifecycle(states),
        states.len() == wakers.len(),
        0 <= k < states.len(),
        states[k] == State::Cancelled,
    ensures
        AwaiterView::<W>::fresh().run(attempts_on(states, wakers)).resolution == Some(
            Err::<(), NativeError>(NativeError::killed_spec()),
        ),
        outcome_of(Err(NativeError::killed_spec()), verdict) == Outcome::Failed(
            NativeError::killed_spec(),
        ),
        result_of(outcome_of(Err(NativeError::killed_spec()), verdict), errno) == Err::<
            (),
            NativeError,
        >(NativeError::killed_spec()),
{
    crate::operation::law_operation_resolves_once(states, wakers, k);
}

} // verus!
