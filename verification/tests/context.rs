use pulse_async::awaiter::Poll;
use pulse_async::context::ConnectFuture;
use pulse_async::context::ConnectRequest;
use pulse_async::context::ConnectStep;
use pulse_async::context::State;
use pulse_async::error::NativeError;

/// A spawn policy for the tests.
#[derive(Debug, PartialEq, Eq)]
struct Spawn(u8);

/// What a run of `await_connected` came to.
#[derive(Debug, PartialEq, Eq)]
struct Run {
    resolution: Option<Result<(), NativeError>>,
    suspensions: usize,
    connects: usize,
}

/// Runs a connect attempt. The handle reports `states[i]` at attempt `i`,
/// whose wake handle is `i`; the connect call, if it is made, returns
/// `connect`.
fn await_connected(
    future: &mut ConnectFuture<usize, Spawn>,
    states: &[State],
    connect: Result<(), NativeError>,
) -> Run {
    let mut run = Run { resolution: None, suspensions: 0, connects: 0 };
    for (i, state) in states.iter().enumerate() {
        match future.poll(*state, i) {
            ConnectStep::Ready => {
                run.resolution = Some(Ok(()));
                return run;
            }
            ConnectStep::Connect(_) => {
                run.connects += 1;
                match future.connected(connect) {
                    Poll::Ready(result) => {
                        run.resolution = Some(result);
                        return run;
                    }
                    Poll::Pending => run.suspensions += 1,
                }
            }
            ConnectStep::Pending => run.suspensions += 1,
        }
    }
    run
}

#[test]
fn connecting_then_ready_resolves_after_one_suspension() {
    let mut future: ConnectFuture<usize, Spawn> = ConnectFuture::new(None, 0, None);
    let run = await_connected(&mut future, &[State::Connecting, State::Ready], Ok(()));
    assert_eq!(run, Run { resolution: Some(Ok(())), suspensions: 1, connects: 1 });
    assert_eq!(future.resolution(), Some(Ok(())));
    assert_eq!(future.trigger(), Some(&0));
}

#[test]
fn a_failing_connect_call_resolves_with_its_error() {
    let mut future: ConnectFuture<usize, Spawn> = ConnectFuture::new(Some("nowhere"), 0, None);
    let run = await_connected(&mut future, &[State::Unconnected, State::Ready], Err(NativeError::new(-6)));
    assert_eq!(
        run,
        Run { resolution: Some(Err(NativeError { code: -6 })), suspensions: 0, connects: 1 }
    );
    assert!(future.is_resolved());
    assert!(!future.is_connecting());
    assert!(future.is_consumed());
    assert_eq!(future.resolution(), Some(Err(NativeError { code: -6 })));
}

#[test]
fn ready_on_first_query_needs_no_connect_call() {
    let mut future: ConnectFuture<usize, Spawn> = ConnectFuture::new(None, 0, None);
    let run = await_connected(&mut future, &[State::Ready], Err(NativeError::new(-6)));
    assert_eq!(run, Run { resolution: Some(Ok(())), suspensions: 0, connects: 0 });
    assert_eq!(future.trigger(), None);
    assert!(!future.is_consumed());
}

#[test]
fn the_connect_call_is_made_once_over_many_attempts() {
    let mut future: ConnectFuture<usize, Spawn> = ConnectFuture::new(None, 0, None);
    let states = [
        State::Unconnected,
        State::Connecting,
        State::Connecting,
        State::Authorizing,
        State::SettingName,
        State::Ready,
    ];
    let run = await_connected(&mut future, &states, Ok(()));
    assert_eq!(run, Run { resolution: Some(Ok(())), suspensions: 5, connects: 1 });
    assert_eq!(future.trigger(), Some(&4));
}

#[test]
fn a_connection_that_never_gets_ready_stays_pending() {
    let mut future: ConnectFuture<usize, Spawn> = ConnectFuture::new(None, 0, None);
    let states = [State::Connecting, State::Failed, State::Failed, State::Terminated];
    let run = await_connected(&mut future, &states, Ok(()));
    assert_eq!(run, Run { resolution: None, suspensions: 4, connects: 1 });
    assert!(!future.is_resolved());
    assert_eq!(future.trigger(), Some(&3));
}

#[test]
fn the_request_is_handed_out_as_it_was_given() {
    let spawn = Spawn(9);
    let mut future: ConnectFuture<&str, Spawn> = ConnectFuture::new(Some("tcp:host"), 3, Some(&spawn));
    assert!(!future.is_consumed());
    let step = future.poll(State::Unconnected, "first");
    assert_eq!(
        step,
        ConnectStep::Connect(ConnectRequest { server: Some("tcp:host"), flags: 3, api: Some(&Spawn(9)) })
    );
    assert!(future.is_connecting());
    assert!(future.is_consumed());
    assert!(!future.is_resolved());
    assert_eq!(future.trigger(), Some(&"first"));
}

#[test]
fn the_default_target_is_handed_out_too() {
    let mut future: ConnectFuture<&str, Spawn> = ConnectFuture::new(None, 1, None);
    let step = future.poll(State::Unconnected, "first");
    assert_eq!(step, ConnectStep::Connect(ConnectRequest { server: None, flags: 1, api: None }));
}

#[test]
fn a_later_attempt_does_not_reconnect() {
    let mut future: ConnectFuture<&str, Spawn> = ConnectFuture::new(None, 0, None);
    assert!(matches!(future.poll(State::Unconnected, "first"), ConnectStep::Connect(_)));
    assert_eq!(future.connected(Ok(())), Poll::Pending);
    assert!(!future.is_connecting());
    assert_eq!(future.poll(State::Unconnected, "second"), ConnectStep::Pending);
    assert_eq!(future.poll(State::Connecting, "third"), ConnectStep::Pending);
    assert_eq!(future.trigger(), Some(&"third"));
    assert_eq!(future.poll(State::Ready, "fourth"), ConnectStep::Ready);
    assert_eq!(future.trigger(), Some(&"third"));
    assert_eq!(future.resolution(), Some(Ok(())));
}

#[test]
fn a_fresh_future_has_done_nothing() {
    let future: ConnectFuture<usize, Spawn> = ConnectFuture::new(None, 0, None);
    assert!(!future.is_resolved());
    assert!(!future.is_connecting());
    assert!(!future.is_consumed());
    assert_eq!(future.resolution(), None);
    assert_eq!(future.trigger(), None);
}

#[test]
fn only_ready_is_ready() {
    assert!(State::Ready.is_ready());
    assert!(!State::Unconnected.is_ready());
    assert!(!State::Connecting.is_ready());
    assert!(!State::Authorizing.is_ready());
    assert!(!State::SettingName.is_ready());
    assert!(!State::Failed.is_ready());
    assert!(!State::Terminated.is_ready());
}
