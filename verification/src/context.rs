//! Awaiting the readiness of a connection.

use crate::awaiter::Awaiter;
use crate::awaiter::AwaiterView;
use crate::awaiter::Poll;
use crate::error::NativeError;
use vstd::prelude::*;

verus! {

/// The life-cycle state a connection handle reports.
#[derive(Clone, Copy, Debug, PartialEq, Eq, Structural)]
pub enum State {
    /// The connection has not been asked for yet.
    Unconnected,
    /// The connection is being established.
    Connecting,
    /// The client is authorizing itself to the daemon; still connecting.
    Authorizing,
    /// The client is passing its name to the daemon; still connecting.
    SettingName,
    /// The connection is established and ready to execute operations.
    Ready,
    /// The connection failed or was disconnected.
    Failed,
    /// The connection was terminated cleanly.
    Terminated,
}

impl State {
    /// The one good state: the connection has left the connecting phase
    /// and can be used.
    pub open spec fn ready(self) -> bool {
        self == State::Ready
    }

    /// Whether the connection is established and ready.
    pub fn is_ready(&self) -> (ready: bool)
        ensures
            ready == self.ready(),
    {
        match self {
            State::Ready => true,
            _ => false,
        }
    }
}

/// What a connect call is made with.
#[derive(Debug, PartialEq, Eq)]
pub struct ConnectRequest<'a, A> {
    /// The server to connect to; `None` for the default server.
    pub server: Option<&'a str>,
    /// The connect flags, as a bit set.
    pub flags: u32,
    /// How to spawn a daemon where none runs, if the caller has a say in it.
    pub api: Option<&'a A>,
}

/// What a resumption attempt of a [`ConnectFuture`] asks of its caller.
#[derive(Debug, PartialEq, Eq)]
pub enum ConnectStep<'a, A> {
    /// The connection is ready: the awaiter resolved with success.
    Ready,
    /// Register the trigger, then make the connect call with this request
    /// and report what it returned to [`ConnectFuture::connected`].
    Connect(ConnectRequest<'a, A>),
    /// Register the trigger and suspend.
    Pending,
}

/// Something that happens to a [`ConnectFuture`].
pub enum Event<W> {
    /// The scheduler resumes the awaiter; the handle reports `state`.
    Attempt { state: State, waker: W },
    /// The connect call that the awaiter asked for returned.
    Returned { result: Result<(), NativeError> },
}

/// The mathematical content of a [`ConnectFuture`].
pub struct ConnectView<'a, W, A> {
    /// The trigger registered and the resolution, as for every awaiter.
    pub awaiter: AwaiterView<W>,
    /// The connect parameters while they have not been consumed.
    pub request: Option<ConnectRequest<'a, A>>,
    /// Whether a connect call has been asked for and has not returned yet.
    pub connecting: bool,
}

impl<'a, W, A> ConnectView<'a, W, A> {
    /// The awaiter of a connection attempt that has not begun.
    pub open spec fn fresh(request: ConnectRequest<'a, A>) -> Self {
        ConnectView { awaiter: AwaiterView::fresh(), request: Some(request), connecting: false }
    }

    /// Whether the awaiter is where the scheduler may resume it: it has
    /// not resolved and does not wait for a connect call to return.
    pub open spec fn resumable(self) -> bool {
        !self.awaiter.resolved() && !self.connecting
    }

    /// Whether the awaiter waits for the connect call it asked for to
    /// return.
    pub open spec fn calling(self) -> bool {
        !self.awaiter.resolved() && self.connecting
    }

    /// The awaiter after a resumption attempt at which the handle reports
    /// `state`. A ready connection resolves it and nothing else changes.
    /// Otherwise the trigger of this attempt takes the place of any other
    /// and the parameters are consumed, whether there were any or not.
    pub open spec fn poll(self, state: State, waker: W) -> Self {
        if state.ready() {
            ConnectView {
                awaiter: self.awaiter.resolve(Ok(())),
                request: self.request,
                connecting: false,
            }
        } else {
            ConnectView {
                awaiter: self.awaiter.suspend(waker),
                request: None,
                connecting: self.request is Some,
            }
        }
    }

    /// What that attempt asks of the caller: the connect call, with the
    /// parameters as they were given, where they were still there.
    pub open spec fn asks(self, state: State) -> ConnectStep<'a, A> {
        if state.ready() {
            ConnectStep::Ready
        } else {
            match self.request {
                Some(request) => ConnectStep::Connect(request),
                None => ConnectStep::Pending,
            }
        }
    }

    /// The awaiter after the connect call returned `result`: an error
    /// resolves it, success leaves it suspended.
    pub open spec fn connected(self, result: Result<(), NativeError>) -> Self {
        ConnectView {
            awaiter: match result {
                Ok(_) => self.awaiter,
                Err(error) => self.awaiter.resolve(Err(error)),
            },
            request: self.request,
            connecting: false,
        }
    }

    /// What the attempt that made the connect call hands to the scheduler.
    pub open spec fn connected_poll(result: Result<(), NativeError>) -> Poll {
        match result {
            Ok(_) => Poll::Pending,
            Err(error) => Poll::Ready(Err(error)),
        }
    }

    /// The awaiter after an event. An event that is out of turn (an attempt
    /// on an awaiter that is not resumable, a return without a call) does
    /// not take place.
    pub open spec fn step(self, event: Event<W>) -> Self {
        match event {
            Event::Attempt { state, waker } => if self.resumable() {
                self.poll(state, waker)
            } else {
                self
            },
            Event::Returned { result } => if self.calling() {
                self.connected(result)
            } else {
                self
            },
        }
    }

    /// Whether the awaiter asks for the connect call at this event.
    pub open spec fn issues(self, event: Event<W>) -> bool {
        event matches Event::Attempt { state, .. } && self.resumable() && !state.ready()
            && self.request is Some
    }

    /// The awaiter after a sequence of events, in order.
    pub open spec fn run(self, events: Seq<Event<W>>) -> Self
        decreases events.len(),
    {
        if events.len() == 0 {
            self
        } else {
            self.step(events[0]).run(events.skip(1))
        }
    }

    /// How often the awaiter asks for the connect call over a sequence of
    /// events.
    pub open spec fn connects(self, events: Seq<Event<W>>) -> nat
        decreases events.len(),
    {
        if events.len() == 0 {
            0
        } else {
            let here: nat = if self.issues(events[0]) {
                1
            } else {
                0
            };
            here + self.step(events[0]).connects(events.skip(1))
        }
    }
}

/// An awaiter for the readiness of a connection. It lives for one connect
/// attempt.
///
/// The first resumption attempt that does not find the connection ready
/// hands the connect parameters out, once. From then on they are consumed,
/// and no later attempt asks for a connect call again.
pub struct ConnectFuture<'a, W, A> {
    awaiter: Awaiter<W>,
    request: Option<ConnectRequest<'a, A>>,
    connecting: bool,
}

impl<'a, W, A> View for ConnectFuture<'a, W, A> {
    type V = ConnectView<'a, W, A>;

    closed spec fn view(&self) -> ConnectView<'a, W, A> {
        ConnectView { awaiter: self.awaiter@, request: self.request, connecting: self.connecting }
    }
}

impl<'a, W, A> ConnectFuture<'a, W, A> {
    /// The awaiter for a connect attempt with the given target, flags and
    /// spawn policy. Nothing has happened yet.
    pub fn new(server: Option<&'a str>, flags: u32, api: Option<&'a A>) -> (future: Self)
        ensures
            future@ == ConnectView::<'a, W, A>::fresh((ConnectRequest { server, flags, api })),
    {
        ConnectFuture {
            awaiter: Awaiter::new(),
            request: Some(ConnectRequest { server, flags, api }),
            connecting: false,
        }
    }

    /// One resumption attempt. `state` is what the connection handle
    /// reports now, `waker` the wake handle of this attempt.
    ///
    /// A ready connection resolves the awaiter with success, at once:
    /// nothing is registered and no connect call is asked for. Otherwise a
    /// trigger bound to `waker` is left registered in place of any earlier
    /// one. If the parameters are still there, this is the first such
    /// attempt: they are handed out for the connect call, whose result
    /// goes to [`connected`](Self::connected). If they are consumed, the
    /// awaiter suspends.
    pub fn poll(&mut self, state: State, waker: W) -> (step: ConnectStep<'a, A>)
        requires
            old(self)@.resumable(),
        ensures
            final(self)@ == old(self)@.poll(state, waker),
            step == old(self)@.asks(state),
    {
        if state.is_ready() {
            self.awaiter.resolve(Ok(()));
            return ConnectStep::Ready;
        }
        self.awaiter.suspend(waker);
        match self.request.take() {
            Some(request) => {
                self.connecting = true;
                ConnectStep::Connect(request)
            },
            None => ConnectStep::Pending,
        }
    }

    /// Takes the result of the connect call that [`poll`](Self::poll) asked
    /// for. An error resolves the awaiter with that error, without waiting.
    /// After success the awaiter is suspended on the trigger that the
    /// attempt registered.
    pub fn connected(&mut self, result: Result<(), NativeError>) -> (poll: Poll)
        requires
            old(self)@.calling(),
        ensures
            final(self)@ == old(self)@.connected(result),
            poll == ConnectView::<'a, W, A>::connected_poll(result),
    {
        self.connecting = false;
        match result {
            Ok(_) => Poll::Pending,
            Err(error) => {
                self.awaiter.resolve(Err(error));
                Poll::Ready(Err(error))
            },
        }
    }

    /// Whether the awaiter has resolved.
    pub fn is_resolved(&self) -> (resolved: bool)
        ensures
            resolved == self@.awaiter.resolved(),
    {
        self.awaiter.is_resolved()
    }

    /// Whether a connect call was asked for and has not returned yet.
    pub fn is_connecting(&self) -> (connecting: bool)
        ensures
            connecting == self@.connecting,
    {
        self.connecting
    }

    /// Whether the connect parameters have been consumed.
    pub fn is_consumed(&self) -> (consumed: bool)
        ensures
            consumed == self@.request is None,
    {
        self.request.is_none()
    }

    /// The result the awaiter resolved with, if it has.
    pub fn resolution(&self) -> (resolution: Option<Result<(), NativeError>>)
        ensures
            resolution == self@.awaiter.resolution,
    {
        self.awaiter.resolution()
    }

    /// The wake handle the registered trigger is bound to, if any.
    pub fn trigger(&self) -> (trigger: Option<&W>)
        ensures
            trigger is Some <==> self@.awaiter.trigger is Some,
            trigger is Some ==> *trigger->0 == self@.awaiter.trigger->0,
    {
        self.awaiter.trigger()
    }
}

/// The connect call is asked for at most once, over any sequence of events
/// and from any state of the awaiter; once the parameters are consumed it
/// is never asked for again.
pub proof fn law_single_connect<'a, W, A>(future: ConnectView<'a, W, A>, events: Seq<Event<W>>)
    ensures
        future.connects(events) <= 1,
        future.request is None ==> future.connects(events) == 0,
    decreases events.len(),
{
    if events.len() > 0 {
        law_single_connect(future.step(events[0]), events.skip(1));
    }
}

/// A connect attempt whose first resumption does not find the connection
/// ready makes the connect call exactly once, however often the awaiter is
/// resumed afterwards and whatever the handle reports then.
///
/// `k` is the place of the first resumption attempt among the events; what
/// comes before it are returns without a call, which do not take place.
pub proof fn law_connects_exactly_once<'a, W, A>(
    request: ConnectRequest<'a, A>,
    events: Seq<Event<W>>,
    k: int,
)
    requires
        0 <= k < events.len(),
        forall|j: int| 0 <= j < k ==> #[trigger] events[j] is Returned,
        (events[k] matches Event::Attempt { state, .. } && !state.ready()),
    ensures
        ConnectView::<'a, W, A>::fresh(request).connects(events) == 1,
    decreases k,
{
    let fresh = ConnectView::<'a, W, A>::fresh(request);
    let rest = events.skip(1);
    if k == 0 {
        law_single_connect(fresh.step(events[0]), rest);
    } else {
        assert(events[0] is Returned);
        assert(fresh.step(events[0]) == fresh);
        assert forall|j: int| 0 <= j < k - 1 implies #[trigger] rest[j] is Returned by {
            assert(rest[j] == events[j + 1]);
        }
        assert(rest[k - 1] == events[k]);
        law_connects_exactly_once(request, rest, k - 1);
    }
}

/// A connect attempt whose first resumption finds the connection ready
/// resolves with success there and never makes the connect call.
pub proof fn law_ready_needs_no_connect<'a, W, A>(
    request: ConnectRequest<'a, A>,
    events: Seq<Event<W>>,
    k: int,
)
    requires
        0 <= k < events.len(),
        forall|j: int| 0 <= j < k ==> #[trigger] events[j] is Returned,
        (events[k] matches Event::Attempt { state, .. } && state.ready()),
    ensures
        ConnectView::<'a, W, A>::fresh(request).connects(events) == 0,
        ConnectView::<'a, W, A>::fresh(request).run(events).awaiter.resolution == Some(
            Ok::<(), NativeError>(()),
        ),
    decreases k,
{
    let fresh = ConnectView::<'a, W, A>::fresh(request);
    let rest = events.skip(1);
    if k == 0 {
        lemma_resolved_is_final(fresh.step(events[0]), rest);
    } else {
        assert(events[0] is Returned);
        assert(fresh.step(events[0]) == fresh);
        assert forall|j: int| 0 <= j < k - 1 implies #[trigger] rest[j] is Returned by {
            assert(rest[j] == events[j + 1]);
        }
        assert(rest[k - 1] == events[k]);
        law_ready_needs_no_connect(request, rest, k - 1);
    }
}

/// The events of a stretch in which the scheduler resumes the awaiter with
/// `wakers[i]` while the handle reports `states[i]`.
pub open spec fn attempts_on<W>(states: Seq<State>, wakers: Seq<W>) -> Seq<Event<W>>
    recommends
        states.len() == wakers.len(),
{
    Seq::new(states.len(), |i: int| Event::Attempt { state: states[i], waker: wakers[i] })
}

/// The events of a connect attempt that begins with a resumption at which
/// the handle reports `state`, goes on with the return of the connect call
/// and then with the resumptions of `attempts_on(states, wakers)`.
pub open spec fn connect_run<W>(
    state: State,
    waker: W,
    returned: Result<(), NativeError>,
    states: Seq<State>,
    wakers: Seq<W>,
) -> Seq<Event<W>> {
    seq![Event::Attempt { state, waker }, Event::Returned { result: returned }] + attempts_on(
        states,
        wakers,
    )
}

/// Once the connect call is behind it, the awaiter waits for the handle to
/// get ready and for nothing else.
///
/// Let attempt `k` be the first at which the handle reports the ready state
/// (`k` is the number of attempts where it never does). Then the awaiter
/// resolves there, with success; the trigger left registered is the one of
/// attempt `k - 1`; and no connect call is asked for.
pub proof fn law_waits_for_ready<'a, W, A>(
    future: ConnectView<'a, W, A>,
    states: Seq<State>,
    wakers: Seq<W>,
    k: int,
)
    requires
        future.resumable(),
        future.request is None,
        states.len() == wakers.len(),
        0 <= k <= states.len(),
        forall|j: int| 0 <= j < k ==> !(#[trigger] states[j]).ready(),
        k < states.len() ==> states[k].ready(),
    ensures
        future.run(attempts_on(states, wakers)).awaiter.resolution == (if k < states.len() {
            Some(Ok::<(), NativeError>(()))
        } else {
            None
        }),
        future.run(attempts_on(states, wakers)).awaiter.trigger == (if k == 0 {
            future.awaiter.trigger
        } else {
            Some(wakers[k - 1])
        }),
        future.connects(attempts_on(states, wakers)) == 0,
    decreases states.len(),
{
    let events = attempts_on(states, wakers);
    law_single_connect(future, events);
    if states.len() > 0 {
        let next = future.step(events[0]);
        assert(events.skip(1) =~= attempts_on(states.skip(1), wakers.skip(1)));
        if k == 0 {
            lemma_resolved_is_final(next, events.skip(1));
        } else {
            assert(!states[0].ready());
            assert forall|j: int| 0 <= j < k - 1 implies !(#[trigger] states.skip(1)[j]).ready() by {
                assert(states.skip(1)[j] == states[j + 1]);
            }
            law_waits_for_ready(next, states.skip(1), wakers.skip(1), k - 1);
        }
    }
}

/// What awaiting a connection comes to.
///
/// The first resumption finds the handle in `state`, which is not the ready
/// state, so that the connect call is made; it returns `returned`. The
/// awaiter is then resumed with `wakers` while the handle reports `states`,
/// and attempt `k` is the first of these to find it ready.
///
/// An error of the connect call resolves the awaiter with that error, and
/// nothing that follows changes it. After a successful call the awaiter
/// resolves with success at attempt `k`, and not at all where the handle
/// never gets ready. Either way the connect call is made exactly once.
pub proof fn law_await_connected<'a, W, A>(
    request: ConnectRequest<'a, A>,
    state: State,
    waker: W,
    returned: Result<(), NativeError>,
    states: Seq<State>,
    wakers: Seq<W>,
    k: int,
)
    requires
        !state.ready(),
        states.len() == wakers.len(),
        0 <= k <= states.len(),
        forall|j: int| 0 <= j < k ==> !(#[trigger] states[j]).ready(),
        k < states.len() ==> states[k].ready(),
    ensures
        ({
            let events = connect_run(state, waker, returned, states, wakers);
            let end = ConnectView::<'a, W, A>::fresh(request).run(events);
            &&& ConnectView::<'a, W, A>::fresh(request).connects(events) == 1
            &&& end.awaiter.resolution == (match returned {
                Err(error) => Some(Err::<(), NativeError>(error)),
                Ok(_) => if k < states.len() {
                    Some(Ok::<(), NativeError>(()))
                } else {
                    None
                },
            })
            &&& end.awaiter.trigger == (if returned is Err || k == 0 {
                Some(waker)
            } else {
                Some(wakers[k - 1])
            })
        }),
{
    let fresh = ConnectView::<'a, W, A>::fresh(request);
    let events = connect_run(state, waker, returned, states, wakers);
    let called = fresh.step(events[0]);
    let back = called.step(events[1]);
    let rest = attempts_on(states, wakers);
    assert(events.len() == 2 + rest.len());
    assert(events.skip(1).skip(1) =~= rest);
    assert(events.skip(1)[0] == events[1]);
    let tail = events.skip(1);
    assert(fresh.run(events) == called.run(tail));
    assert(called.run(tail) == back.run(rest));
    assert(fresh.connects(events) == 1 + called.connects(tail));
    assert(called.connects(tail) == back.connects(rest));
    match returned {
        Err(_) => {
            lemma_resolved_is_final(back, rest);
        },
        Ok(_) => {
            law_waits_for_ready(back, states, wakers, k);
        },
    }
}

proof fn lemma_resolved_is_final<'a, W, A>(future: ConnectView<'a, W, A>, events: Seq<Event<W>>)
    requires
        future.awaiter.resolved(),
    ensures
        future.run(events) == future,
        future.connects(events) == 0,
    decreases events.len(),
{
    if events.len() > 0 {
        lemma_resolved_is_final(future, events.skip(1));
    }
}

} // verus!
