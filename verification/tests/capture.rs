use pulse_async::awaiter::Poll;
use pulse_async::capture::settle;
use pulse_async::capture::Outcome;
use pulse_async::capture::capture;
use pulse_async::error::NativeError;
use pulse_async::operation::Operation;
use pulse_async::operation::State;

/// The idiom of a remote call, with the handle played by `states`, the
/// completion callback by `verdict` (recorded before the handle turns
/// terminal) and the connection's last error by `errno`.
fn remote_call(states: &[State], verdict: Option<bool>, errno: NativeError) -> Option<Result<(), NativeError>> {
    let (flag, recorder) = capture();
    let mut operation: Operation<usize> = Operation::new();
    for (i, state) in states.iter().enumerate() {
        if state.is_terminal() {
            if let Some(verdict) = verdict {
                recorder.record(verdict);
            }
        }
        if let Poll::Ready(awaited) = operation.poll(*state, i) {
            return Some(flag.settle(awaited).into_result(errno));
        }
    }
    None
}

#[test]
fn done_with_a_true_verdict_yields_ok() {
    let result = remote_call(&[State::Running, State::Done], Some(true), NativeError::new(-3));
    assert_eq!(result, Some(Ok(())));
}

#[test]
fn cancelled_yields_killed_whatever_the_verdict() {
    let errno = NativeError::new(-3);
    for verdict in [Some(true), Some(false), None] {
        let result = remote_call(&[State::Running, State::Cancelled], verdict, errno);
        assert_eq!(result, Some(Err(NativeError { code: -12 })));
    }
}

#[test]
fn done_with_a_false_verdict_yields_the_last_error() {
    let result = remote_call(&[State::Running, State::Done], Some(false), NativeError::new(-5));
    assert_eq!(result, Some(Err(NativeError { code: -5 })));
}

#[test]
fn done_without_a_verdict_counts_as_failure() {
    let result = remote_call(&[State::Done], None, NativeError::new(-15));
    assert_eq!(result, Some(Err(NativeError { code: -15 })));
}

#[test]
fn a_running_call_has_no_result() {
    assert_eq!(remote_call(&[State::Running; 3], Some(true), NativeError::new(-3)), None);
}

#[test]
fn settle_decides_by_awaiter_first_and_verdict_second() {
    let error = NativeError::new(-7);
    assert_eq!(settle(Ok(()), true), Outcome::Succeeded);
    assert_eq!(settle(Ok(()), false), Outcome::Rejected);
    assert_eq!(settle(Err(error), true), Outcome::Failed(NativeError { code: -7 }));
    assert_eq!(settle(Err(error), false), Outcome::Failed(NativeError { code: -7 }));
}

#[test]
fn into_result_consults_the_last_error_only_when_rejected() {
    let errno = NativeError::new(-4);
    assert_eq!(Outcome::Succeeded.into_result(errno), Ok(()));
    assert_eq!(Outcome::Rejected.into_result(errno), Err(NativeError { code: -4 }));
    assert_eq!(
        Outcome::Failed(NativeError::new(-9)).into_result(errno),
        Err(NativeError { code: -9 })
    );
}

#[test]
fn only_success_has_succeeded() {
    assert!(Outcome::Succeeded.succeeded());
    assert!(!Outcome::Rejected.succeeded());
    assert!(!Outcome::Failed(NativeError::killed()).succeeded());
    assert!(!settle(Err(NativeError::killed()), true).succeeded());
    assert!(settle(Ok(()), true).succeeded());
    assert!(!settle(Ok(()), false).succeeded());
}

#[test]
fn a_new_flag_holds_no_success() {
    let (flag, _recorder) = capture();
    assert_eq!(flag.settle(Ok(())), Outcome::Rejected);
}

#[test]
fn a_recorded_verdict_is_read_back() {
    let (flag, recorder) = capture();
    recorder.record(true);
    assert_eq!(flag.settle(Ok(())), Outcome::Succeeded);

    let (flag, recorder) = capture();
    recorder.record(false);
    assert_eq!(flag.settle(Ok(())), Outcome::Rejected);
}

#[test]
fn the_last_verdict_recorded_counts() {
    let (flag, recorder) = capture();
    recorder.record(true);
    recorder.record(false);
    assert_eq!(flag.settle(Ok(())), Outcome::Rejected);

    let (flag, recorder) = capture();
    recorder.record(false);
    recorder.record(true);
    assert_eq!(flag.settle(Ok(())), Outcome::Succeeded);
}

#[test]
fn the_verdict_outlives_its_recorder() {
    let (flag, recorder) = capture();
    recorder.record(true);
    drop(recorder);
    assert_eq!(flag.settle(Ok(())), Outcome::Succeeded);
}

#[test]
fn captures_of_different_calls_are_apart() {
    let (first, first_recorder) = capture();
    let (second, _second_recorder) = capture();
    first_recorder.record(true);
    assert_eq!(first.settle(Ok(())), Outcome::Succeeded);
    assert_eq!(second.settle(Ok(())), Outcome::Rejected);
}

#[test]
fn a_failed_operation_settles_without_the_verdict() {
    let (flag, recorder) = capture();
    recorder.record(true);
    assert_eq!(
        flag.settle(Err(NativeError::killed())),
        Outcome::Failed(NativeError { code: -12 })
    );
    let (flag, _recorder) = capture();
    assert_eq!(
        flag.settle(Err(NativeError::new(-3))),
        Outcome::Failed(NativeError { code: -3 })
    );
}

#[test]
fn the_last_error_is_asked_for_only_when_rejected() {
    let mut asked = 0;
    let result = Outcome::Succeeded.into_result_with(|| {
        asked += 1;
        NativeError::new(-4)
    });
    assert_eq!(result, Ok(()));
    let result = Outcome::Failed(NativeError::new(-9)).into_result_with(|| {
        asked += 1;
        NativeError::new(-4)
    });
    assert_eq!(result, Err(NativeError { code: -9 }));
    assert_eq!(asked, 0);
    let result = Outcome::Rejected.into_result_with(|| {
        asked += 1;
        NativeError::new(-4)
    });
    assert_eq!(result, Err(NativeError { code: -4 }));
    assert_eq!(asked, 1);
}
