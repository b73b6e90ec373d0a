//! The listener that takes in a service's visitors.
use crate::backoff::RetryBackoff;
use vstd::prelude::*;

verus! {

/// The longest pause between attempts to accept a visitor, in nanoseconds.
pub const VISITOR_RETRY_NANOS: u64 = 1_000_000_000;

/// What a listener listens on.
#[derive(Debug, Clone, Copy, PartialEq, Eq, Structural)]
pub enum ListenerKind {
    Tcp,
    SocketStream,
}

/// What happens to a listener.
#[derive(Debug, Clone, Copy, PartialEq, Eq, Structural)]
pub enum ListenerEvent {
    /// It is listening.
    Bound,
    /// It could not listen, and no further attempt is made.
    BindFailed,
    /// A visitor could not be accepted.
    AcceptFailed,
    /// The pause after such a failure is over.
    Slept,
    /// A visitor has come.
    Accepted,
    /// The request for a data channel has been handed on.
    Requested,
    /// The request could not be handed on: the control channel is gone.
    RequestFailed,
    /// The visitor is with the connection pool.
    Forwarded,
    /// The control channel shuts down.
    Shutdown,
}

/// What a listener does next.
#[derive(Debug, Clone, Copy, PartialEq, Eq, Structural)]
pub enum ListenerAction {
    /// Listen, removing first a socket file that was left behind if
    /// [`VisitorListener::clears_socket_before_bind`] says so.
    Bind,
    /// Wait for a visitor or the shutdown.
    Accept,
    /// Pause for so many nanoseconds.
    Sleep(u64),
    /// Request a data channel for the visitor.
    RequestDataChannel,
    /// Hand the visitor to the connection pool.
    ForwardVisitor,
    /// End, removing first the socket file if `remove_socket` is set.
    Stop { remove_socket: bool },
}

/// A listener for visitors.
pub struct VisitorListener {
    kind: ListenerKind,
    doing: ListenerAction,
    backoff: RetryBackoff,
}

/// What a listener of this kind does after `doing`, on `event`. `delay` is the
/// pause that the retry policy would make.
pub open spec fn listener_next(
    kind: ListenerKind,
    doing: ListenerAction,
    event: ListenerEvent,
    delay: u64,
) -> ListenerAction {
    match (doing, event) {
        (ListenerAction::Bind, ListenerEvent::Bound) => ListenerAction::Accept,
        (ListenerAction::Bind, ListenerEvent::BindFailed) => ListenerAction::Stop {
            remove_socket: false,
        },
        (ListenerAction::Accept, ListenerEvent::AcceptFailed) => ListenerAction::Sleep(delay),
        (ListenerAction::Sleep(_), ListenerEvent::Slept) => ListenerAction::Accept,
        (ListenerAction::Accept, ListenerEvent::Accepted) => ListenerAction::RequestDataChannel,
        (ListenerAction::RequestDataChannel, ListenerEvent::Requested) =>
            ListenerAction::ForwardVisitor,
        (ListenerAction::RequestDataChannel, ListenerEvent::RequestFailed) =>
            ListenerAction::Stop { remove_socket: false },
        (ListenerAction::ForwardVisitor, ListenerEvent::Forwarded) => ListenerAction::Accept,
        (ListenerAction::Accept, ListenerEvent::Shutdown) => ListenerAction::Stop {
            remove_socket: kind == ListenerKind::SocketStream,
        },
        _ => doing,
    }
}

impl VisitorListener {
    /// The kind of listener.
    pub closed spec fn kind(&self) -> ListenerKind {
        self.kind
    }

    /// What the listener is doing.
    pub closed spec fn doing(&self) -> ListenerAction {
        self.doing
    }

    /// Its retry policy.
    pub closed spec fn retries(&self) -> RetryBackoff {
        self.backoff
    }

    /// Its retry policy is in order.
    pub closed spec fn wf(&self) -> bool {
        self.backoff.wf() && self.backoff.longest() == VISITOR_RETRY_NANOS
    }

    /// A listener that is about to listen. Its pauses are of up to a second.
    pub fn new(kind: ListenerKind) -> (r: Self)
        ensures
            r.wf(),
            r.kind() == kind,
            r.doing() == ListenerAction::Bind,
            r.retries().interval() == crate::backoff::initial_interval(),
            r.retries().longest() == VISITOR_RETRY_NANOS,
    {
        VisitorListener {
            kind,
            doing: ListenerAction::Bind,
            backoff: RetryBackoff::new(VISITOR_RETRY_NANOS),
        }
    }

    /// Whether a file at the listener's address is removed before each attempt to
    /// listen there. A socket stream cannot be bound over the file of an earlier
    /// one.
    pub fn clears_socket_before_bind(&self) -> (r: bool)
        ensures
            r == (self.kind() == ListenerKind::SocketStream),
    {
        self.kind == ListenerKind::SocketStream
    }

    /// What to do on an event. An event that does not answer what the listener is
    /// doing changes nothing. A visitor for whom a data channel could be requested
    /// ends a run of failures; another failure makes the next pause grow.
    pub fn step(&mut self, event: ListenerEvent) -> (r: ListenerAction)
        requires
            old(self).wf(),
        ensures
            final(self).wf(),
            final(self).kind() == old(self).kind(),
            final(self).retries().longest() == old(self).retries().longest(),
            r == final(self).doing(),
            ({
                let failed = old(self).doing() == ListenerAction::Accept && event
                    == ListenerEvent::AcceptFailed;
                let requested = old(self).doing() == ListenerAction::RequestDataChannel && event
                    == ListenerEvent::Requested;
                let before = old(self).retries();
                let after = final(self).retries();
                &&& failed ==> {
                    &&& r matches ListenerAction::Sleep(delay) && {
                        &&& delay <= VISITOR_RETRY_NANOS
                        &&& delay <= before.interval() * 3 / 2 + 1
                        &&& before.interval() / 2 <= delay || delay == VISITOR_RETRY_NANOS
                    }
                    &&& after.interval() == crate::backoff::next_interval(
                        before.interval(),
                        before.longest(),
                    )
                }
                &&& !failed ==> r == listener_next(old(self).kind(), old(self).doing(), event, 0)
                &&& requested ==> after.interval() == crate::backoff::initial_interval()
                &&& !failed && !requested ==> after.interval() == before.interval()
                &&& requested ==> after.interval() == 500_000_000
                &&& failed && before.interval() * 3 >= 2_000_000_000 ==> after.interval()
                    == 1_000_000_000
                &&& failed && before.interval() * 3 < 2_000_000_000 ==> after.interval()
                    == before.interval() * 3 / 2
                &&& failed ==> (r matches ListenerAction::Sleep(delay) && delay <= 1_000_000_000)
            }),
            ({
                let doing = old(self).doing();
                let bind_failed = doing is Bind && event is BindFailed;
                let request_failed = doing is RequestDataChannel && event is RequestFailed;
                let shut_down = doing is Accept && event is Shutdown;
                let waits = {
                    ||| doing is Bind && event is Bound
                    ||| doing is Sleep && event is Slept
                    ||| doing is ForwardVisitor && event is Forwarded
                };
                let visitor = doing is Accept && event is Accepted;
                let granted = doing is RequestDataChannel && event is Requested;
                let failed = doing is Accept && event is AcceptFailed;
                &&& r is Stop <==> doing is Stop || bind_failed || request_failed || shut_down
                &&& bind_failed || request_failed ==> r == (ListenerAction::Stop {
                    remove_socket: false,
                })
                &&& shut_down ==> r == (ListenerAction::Stop {
                    remove_socket: old(self).kind() == ListenerKind::SocketStream,
                })
                &&& waits ==> r is Accept
                &&& visitor ==> r is RequestDataChannel
                &&& granted ==> r is ForwardVisitor
                &&& failed ==> r is Sleep
                &&& r == doing || bind_failed || request_failed || shut_down || waits || visitor
                    || granted || failed
            }),
    {
        let next = match (self.doing, event) {
            (ListenerAction::Bind, ListenerEvent::Bound) => ListenerAction::Accept,
            (ListenerAction::Bind, ListenerEvent::BindFailed) => ListenerAction::Stop {
                remove_socket: false,
            },
            (ListenerAction::Accept, ListenerEvent::AcceptFailed) => {
                match self.backoff.next_backoff() {
                    Some(delay) => ListenerAction::Sleep(delay),
                    None => ListenerAction::Stop { remove_socket: false },
                }
            },
            (ListenerAction::Sleep(_), ListenerEvent::Slept) => ListenerAction::Accept,
            (ListenerAction::Accept, ListenerEvent::Accepted) => ListenerAction::RequestDataChannel,
            (ListenerAction::RequestDataChannel, ListenerEvent::Requested) => {
                self.backoff.reset();
                ListenerAction::ForwardVisitor
            },
            (ListenerAction::RequestDataChannel, ListenerEvent::RequestFailed) =>
                ListenerAction::Stop { remove_socket: false },
            (ListenerAction::ForwardVisitor, ListenerEvent::Forwarded) => ListenerAction::Accept,
            (ListenerAction::Accept, ListenerEvent::Shutdown) => ListenerAction::Stop {
                remove_socket: self.kind == ListenerKind::SocketStream,
            },
            (doing, _) => doing,
        };
        self.doing = next;
        next
    }
}

/// A failure to accept never ends a listener: the retry policy has no end.
pub proof fn law_accept_failure_never_stops_listener(kind: ListenerKind, delay: u64)
    ensures
        listener_next(kind, ListenerAction::Accept, ListenerEvent::AcceptFailed, delay) !is Stop,
{
}

/// After a visitor was handed to the pool, a listener of either kind waits for the
/// next one; so it does once it listens, and after a pause. While it waits, each
/// visitor that comes has a data channel requested for it, and is handed on when the
/// request went through.
pub proof fn law_listener_waits_for_the_next_visitor(
    kind: ListenerKind,
    delay: u64,
    pause: u64,
)
    ensures
        listener_next(kind, ListenerAction::ForwardVisitor, ListenerEvent::Forwarded, delay)
            == ListenerAction::Accept,
        listener_next(kind, ListenerAction::Bind, ListenerEvent::Bound, delay)
            == ListenerAction::Accept,
        listener_next(kind, ListenerAction::Sleep(pause), ListenerEvent::Slept, delay)
            == ListenerAction::Accept,
        listener_next(kind, ListenerAction::Accept, ListenerEvent::Accepted, delay)
            == ListenerAction::RequestDataChannel,
        listener_next(kind, ListenerAction::RequestDataChannel, ListenerEvent::Requested, delay)
            == ListenerAction::ForwardVisitor,
        listener_next(kind, ListenerAction::Accept, ListenerEvent::AcceptFailed, delay)
            == ListenerAction::Sleep(delay),
{
}

/// The two kinds of listener do the same on every event, but that a socket stream
/// listener removes its file when it is shut down.
pub proof fn law_kinds_differ_in_the_socket_file_alone(
    doing: ListenerAction,
    event: ListenerEvent,
    delay: u64,
)
    ensures
        ({
            let tcp = listener_next(ListenerKind::Tcp, doing, event, delay);
            let stream = listener_next(ListenerKind::SocketStream, doing, event, delay);
            if doing is Accept && event is Shutdown {
                &&& tcp == (ListenerAction::Stop { remove_socket: false })
                &&& stream == (ListenerAction::Stop { remove_socket: true })
            } else {
                tcp == stream
            }
        }),
{
}

/// A step that changes what a listener is doing answers it, and only a failed bind, a
/// failed request or the shutdown makes it end.
pub proof fn law_listener_step_ends_for_a_reason(
    kind: ListenerKind,
    doing: ListenerAction,
    event: ListenerEvent,
    delay: u64,
)
    ensures
        listener_next(kind, doing, event, delay) is Stop <==> {
            ||| doing is Stop
            ||| doing is Bind && event is BindFailed
            ||| doing is RequestDataChannel && event is RequestFailed
            ||| doing is Accept && event is Shutdown
        },
        listener_next(kind, doing, event, delay) != doing ==> match doing {
            ListenerAction::Bind => event is Bound || event is BindFailed,
            ListenerAction::Accept => event is Accepted || event is AcceptFailed
                || event is Shutdown,
            ListenerAction::Sleep(_) => event is Slept,
            ListenerAction::RequestDataChannel => event is Requested || event is RequestFailed,
            ListenerAction::ForwardVisitor => event is Forwarded,
            ListenerAction::Stop { .. } => false,
        },
{
}

/// A listener that has ended does nothing more.
pub proof fn law_ended_listener_stays_ended(
    kind: ListenerKind,
    remove_socket: bool,
    event: ListenerEvent,
    delay: u64,
)
    ensures
        listener_next(kind, ListenerAction::Stop { remove_socket }, event, delay)
            == (ListenerAction::Stop { remove_socket }),
{
}

/// What the listener of this kind does after `events`, on which the retry policy
/// makes the given pauses.
pub open spec fn listener_after(
    kind: ListenerKind,
    events: Seq<ListenerEvent>,
    delays: Seq<u64>,
) -> ListenerAction
    decreases events.len(),
{
    if events.len() == 0 {
        ListenerAction::Bind
    } else {
        listener_next(
            kind,
            listener_after(kind, events.drop_last(), delays),
            events.last(),
            delays[events.len() - 1],
        )
    }
}

/// How many of `events` made the listener of this kind start on `what`.
pub open spec fn listener_count(
    kind: ListenerKind,
    events: Seq<ListenerEvent>,
    delays: Seq<u64>,
    what: ListenerAction,
) -> nat
    decreases events.len(),
{
    if events.len() == 0 {
        0
    } else {
        let before = listener_after(kind, events.drop_last(), delays);
        let after = listener_after(kind, events, delays);
        listener_count(kind, events.drop_last(), delays, what) + if before != after && after
            == what {
            1nat
        } else {
            0
        }
    }
}

/// A listener of either kind ends on a failed bind, a failed request or the shutdown
/// alone: over any run of events, if it has ended then one of these is among them.
/// It removes a socket file only if it is a socket stream's and was shut down.
pub proof fn law_listener_ends_for_a_reason(
    kind: ListenerKind,
    events: Seq<ListenerEvent>,
    delays: Seq<u64>,
)
    requires
        listener_after(kind, events, delays) is Stop,
    ensures
        events.contains(ListenerEvent::BindFailed) || events.contains(ListenerEvent::RequestFailed)
            || events.contains(ListenerEvent::Shutdown),
        listener_after(kind, events, delays) == (ListenerAction::Stop { remove_socket: true })
            ==> kind == ListenerKind::SocketStream && events.contains(ListenerEvent::Shutdown),
    decreases events.len(),
{
    let before = events.drop_last();
    if listener_after(kind, before, delays) is Stop {
        law_listener_ends_for_a_reason(kind, before, delays);
        assert forall|event: ListenerEvent| before.contains(event) implies events.contains(
            event,
        ) by {
            let i = choose|i: int| 0 <= i < before.len() && before[i] == event;
            assert(events[i] == event);
        }
    } else {
        assert(events[events.len() - 1] == events.last());
    }
}

/// A listener that listens and is neither shut down nor cut off takes in visitor after
/// visitor: after the run of each it waits again, and one more request was made.
pub proof fn law_visitor_is_followed_by_another(
    kind: ListenerKind,
    events: Seq<ListenerEvent>,
    delays: Seq<u64>,
)
    requires
        listener_after(kind, events, delays) == ListenerAction::Accept,
    ensures
        ({
            let after = events.push(ListenerEvent::Accepted).push(ListenerEvent::Requested).push(
                ListenerEvent::Forwarded,
            );
            &&& listener_after(kind, after, delays) == ListenerAction::Accept
            &&& listener_count(kind, after, delays, ListenerAction::ForwardVisitor)
                == listener_count(kind, events, delays, ListenerAction::ForwardVisitor) + 1
        }),
{
    let a = events.push(ListenerEvent::Accepted);
    let b = a.push(ListenerEvent::Requested);
    let c = b.push(ListenerEvent::Forwarded);
    assert(a.drop_last() =~= events);
    assert(b.drop_last() =~= a);
    assert(c.drop_last() =~= b);
    assert(listener_after(kind, a, delays) == ListenerAction::RequestDataChannel);
    assert(listener_after(kind, b, delays) == ListenerAction::ForwardVisitor);
    assert(listener_after(kind, c, delays) == ListenerAction::Accept);
    let forwards = |run: Seq<ListenerEvent>|
        listener_count(kind, run, delays, ListenerAction::ForwardVisitor);
    assert(forwards(a) == forwards(events));
    assert(forwards(b) == forwards(a) + 1);
    assert(forwards(c) == forwards(b));
}

/// Each visitor that reaches the pool has had a data channel requested for it,
/// and no data channel is requested without a visitor: the two differ by at most
/// the visitor that is still waiting, or was there at the end.
pub proof fn law_one_request_per_visitor(
    kind: ListenerKind,
    events: Seq<ListenerEvent>,
    delays: Seq<u64>,
)
    ensures
        ({
            let requests = listener_count(
                kind,
                events,
                delays,
                ListenerAction::RequestDataChannel,
            );
            let forwards = listener_count(kind, events, delays, ListenerAction::ForwardVisitor);
            let doing = listener_after(kind, events, delays);
            &&& forwards <= requests <= forwards + 1
            &&& doing == ListenerAction::RequestDataChannel ==> requests == forwards + 1
            &&& doing !is RequestDataChannel && doing !is Stop ==> requests == forwards
        }),
    decreases events.len(),
{
    if events.len() > 0 {
        law_one_request_per_visitor(kind, events.drop_last(), delays);
    }
}

} // verus!
