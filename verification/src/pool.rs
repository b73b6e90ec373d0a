//! The pools that join visitors to data channels.
use crate::protocol::DataChannelCmd;
use vstd::prelude::*;

verus! {

/// What a connection pool is told.
#[derive(Debug, Clone, Copy, PartialEq, Eq, Structural)]
pub enum PoolEvent {
    /// A visitor has come.
    Visitor,
    /// No visitor will come any more.
    VisitorsGone,
    /// A data channel has come.
    DataChannel,
    /// No data channel will come any more.
    DataChannelsGone,
    /// The command was written to the data channel.
    CommandWritten,
    /// The command could not be written: the data channel is broken.
    CommandFailed,
    /// The request for another data channel was handed on.
    Requested,
    /// The request could not be handed on.
    RequestFailed,
    /// Forwarding between visitor and data channel has started.
    ForwardStarted,
}

/// What a connection pool does next.
#[derive(Debug, Clone, Copy, PartialEq, Eq, Structural)]
pub enum PoolAction {
    /// Wait for a visitor.
    ReceiveVisitor,
    /// Wait for a data channel for the visitor at hand.
    ReceiveDataChannel,
    /// Write the command to the data channel at hand.
    WriteCommand,
    /// Drop the data channel at hand and request another.
    RequestDataChannel,
    /// Start forwarding between the visitor and the data channel at hand.
    StartForward,
    /// End.
    Stop,
}

/// What a connection pool does after `doing`, on `event`. An event that does not
/// answer what it is doing changes nothing.
pub open spec fn pool_next(doing: PoolAction, event: PoolEvent) -> PoolAction {
    match (doing, event) {
        (PoolAction::ReceiveVisitor, PoolEvent::Visitor) => PoolAction::ReceiveDataChannel,
        (PoolAction::ReceiveVisitor, PoolEvent::VisitorsGone) => PoolAction::Stop,
        (PoolAction::ReceiveDataChannel, PoolEvent::DataChannel) => PoolAction::WriteCommand,
        (PoolAction::ReceiveDataChannel, PoolEvent::DataChannelsGone) => PoolAction::Stop,
        (PoolAction::WriteCommand, PoolEvent::CommandWritten) => PoolAction::StartForward,
        (PoolAction::WriteCommand, PoolEvent::CommandFailed) => PoolAction::RequestDataChannel,
        (PoolAction::RequestDataChannel, PoolEvent::Requested) => PoolAction::ReceiveDataChannel,
        (PoolAction::RequestDataChannel, PoolEvent::RequestFailed) => PoolAction::Stop,
        (PoolAction::StartForward, PoolEvent::ForwardStarted) => PoolAction::ReceiveVisitor,
        _ => doing,
    }
}

/// Which visitors a connection pool serves.
#[derive(Debug, Clone, Copy, PartialEq, Eq, Structural)]
pub enum PoolKind {
    Tcp,
    SocketStream,
}

/// A pool that joins each visitor to a data channel of its own.
#[derive(Debug)]
pub struct ConnectionPool {
    kind: PoolKind,
    proxy_protocol: String,
    doing: PoolAction,
}

impl ConnectionPool {
    /// The visitors that the pool serves.
    pub closed spec fn kind(&self) -> PoolKind {
        self.kind
    }

    /// The proxy protocol that visitors are announced with, empty for none.
    pub closed spec fn proxy(&self) -> Seq<char> {
        self.proxy_protocol@
    }

    /// What the pool is doing.
    pub closed spec fn doing(&self) -> PoolAction {
        self.doing
    }

    /// A pool that waits for its first visitor. Only TCP visitors are announced
    /// with a proxy protocol.
    pub fn new(kind: PoolKind, proxy_protocol: String) -> (r: Self)
        ensures
            r.kind() == kind,
            r.proxy() == if kind == PoolKind::Tcp {
                proxy_protocol@
            } else {
                Seq::<char>::empty()
            },
            r.doing() == PoolAction::ReceiveVisitor,
    {
        let proxy_protocol = if kind == PoolKind::Tcp {
            proxy_protocol
        } else {
            String::new()
        };
        ConnectionPool { kind, proxy_protocol, doing: PoolAction::ReceiveVisitor }
    }

    /// The command that starts forwarding on a data channel.
    pub fn command(&self) -> (r: DataChannelCmd)
        ensures
            r == match self.kind() {
                PoolKind::Tcp => DataChannelCmd::StartForwardTcp,
                PoolKind::SocketStream => DataChannelCmd::StartForwardSocketStream,
            },
    {
        match self.kind {
            PoolKind::Tcp => DataChannelCmd::StartForwardTcp,
            PoolKind::SocketStream => DataChannelCmd::StartForwardSocketStream,
        }
    }

    /// The proxy protocol to announce a visitor with before its traffic, if any.
    pub fn announce(&self) -> (r: Option<&str>)
        ensures
            match r {
                Some(name) => name@ == self.proxy() && self.proxy().len() > 0,
                None => self.proxy().len() == 0,
            },
    {
        if self.proxy_protocol.as_str().is_empty() {
            None
        } else {
            Some(self.proxy_protocol.as_str())
        }
    }

    /// What to do on an event.
    pub fn step(&mut self, event: PoolEvent) -> (r: PoolAction)
        ensures
            r == pool_next(old(self).doing(), event),
            final(self).doing() == r,
            final(self).kind() == old(self).kind(),
            final(self).proxy() == old(self).proxy(),
            ({
                let doing = old(self).doing();
                let visitor = doing is ReceiveVisitor && event is Visitor;
                let wanted = doing is RequestDataChannel && event is Requested;
                let channel = doing is ReceiveDataChannel && event is DataChannel;
                let written = doing is WriteCommand && event is CommandWritten;
                let broken = doing is WriteCommand && event is CommandFailed;
                let started = doing is StartForward && event is ForwardStarted;
                let ended = {
                    ||| doing is ReceiveVisitor && event is VisitorsGone
                    ||| doing is ReceiveDataChannel && event is DataChannelsGone
                    ||| doing is RequestDataChannel && event is RequestFailed
                };
                &&& visitor || wanted ==> r is ReceiveDataChannel
                &&& channel ==> r is WriteCommand
                &&& written ==> r is StartForward
                &&& broken ==> r is RequestDataChannel
                &&& started ==> r is ReceiveVisitor
                &&& r is Stop <==> doing is Stop || ended
                &&& r == doing || visitor || wanted || channel || written || broken || started
                    || ended
            }),
    {
        let next = match (self.doing, event) {
            (PoolAction::ReceiveVisitor, PoolEvent::Visitor) => PoolAction::ReceiveDataChannel,
            (PoolAction::ReceiveVisitor, PoolEvent::VisitorsGone) => PoolAction::Stop,
            (PoolAction::ReceiveDataChannel, PoolEvent::DataChannel) => PoolAction::WriteCommand,
            (PoolAction::ReceiveDataChannel, PoolEvent::DataChannelsGone) => PoolAction::Stop,
            (PoolAction::WriteCommand, PoolEvent::CommandWritten) => PoolAction::StartForward,
            (PoolAction::WriteCommand, PoolEvent::CommandFailed) => PoolAction::RequestDataChannel,
            (PoolAction::RequestDataChannel, PoolEvent::Requested) =>
                PoolAction::ReceiveDataChannel,
            (PoolAction::RequestDataChannel, PoolEvent::RequestFailed) => PoolAction::Stop,
            (PoolAction::StartForward, PoolEvent::ForwardStarted) => PoolAction::ReceiveVisitor,
            (doing, _) => doing,
        };
        self.doing = next;
        next
    }
}

/// What a new pool does after `events`.
pub open spec fn pool_after(events: Seq<PoolEvent>) -> PoolAction
    decreases events.len(),
{
    if events.len() == 0 {
        PoolAction::ReceiveVisitor
    } else {
        pool_next(pool_after(events.drop_last()), events.last())
    }
}

/// How many of `events` took a new pool out of `from` and into `to`.
pub open spec fn pool_moves(events: Seq<PoolEvent>, from: PoolAction, to: PoolAction) -> nat
    decreases events.len(),
{
    if events.len() == 0 {
        0
    } else {
        pool_moves(events.drop_last(), from, to) + if pool_after(events.drop_last()) == from
            && pool_after(events) == to && from != to {
            1nat
        } else {
            0
        }
    }
}

/// How many visitors a new pool has taken in over `events`.
pub open spec fn pool_visitors(events: Seq<PoolEvent>) -> nat {
    pool_moves(events, PoolAction::ReceiveVisitor, PoolAction::ReceiveDataChannel)
}

/// How many visitors it has started to forward.
pub open spec fn pool_forwards(events: Seq<PoolEvent>) -> nat {
    pool_moves(events, PoolAction::WriteCommand, PoolAction::StartForward)
}

/// How many data channels it has taken in.
pub open spec fn pool_data_channels(events: Seq<PoolEvent>) -> nat {
    pool_moves(events, PoolAction::ReceiveDataChannel, PoolAction::WriteCommand)
}

/// How many of those were broken, each followed by a request for another.
pub open spec fn pool_broken(events: Seq<PoolEvent>) -> nat {
    pool_moves(events, PoolAction::WriteCommand, PoolAction::RequestDataChannel)
}

/// No visitor is lost while the pool runs: each one that was taken in is being
/// forwarded on a data channel of its own, but for the one at hand. When the pool
/// ends, it is at most that one that is dropped.
pub proof fn law_visitors_are_forwarded(events: Seq<PoolEvent>)
    ensures
        ({
            let doing = pool_after(events);
            &&& pool_forwards(events) <= pool_visitors(events) <= pool_forwards(events) + 1
            &&& doing == PoolAction::ReceiveVisitor || doing == PoolAction::StartForward
                ==> pool_visitors(events) == pool_forwards(events)
            &&& doing == PoolAction::ReceiveDataChannel || doing == PoolAction::WriteCommand
                || doing == PoolAction::RequestDataChannel ==> pool_visitors(events)
                == pool_forwards(events) + 1
        }),
    decreases events.len(),
{
    if events.len() > 0 {
        law_visitors_are_forwarded(events.drop_last());
    }
}

/// Each data channel is used once: it carries one visitor, or it is found broken
/// and another is requested in its place.
pub proof fn law_data_channels_are_used_once(events: Seq<PoolEvent>)
    ensures
        pool_data_channels(events) == pool_forwards(events) + pool_broken(events) + if pool_after(
            events,
        ) == PoolAction::WriteCommand {
            1nat
        } else {
            0
        },
    decreases events.len(),
{
    if events.len() > 0 {
        law_data_channels_are_used_once(events.drop_last());
    }
}

/// A connection pool ends only when no visitor or no data channel will come any more,
/// or when another data channel cannot be requested.
pub proof fn law_pool_ends_for_a_reason(events: Seq<PoolEvent>)
    requires
        pool_after(events) == PoolAction::Stop,
    ensures
        events.contains(PoolEvent::VisitorsGone) || events.contains(PoolEvent::DataChannelsGone)
            || events.contains(PoolEvent::RequestFailed),
    decreases events.len(),
{
    let before = events.drop_last();
    if pool_after(before) == PoolAction::Stop {
        law_pool_ends_for_a_reason(before);
        assert forall|event: PoolEvent| before.contains(event) implies events.contains(event) by {
            let i = choose|i: int| 0 <= i < before.len() && before[i] == event;
            assert(events[i] == event);
        }
    } else {
        assert(events[events.len() - 1] == events.last());
    }
}

/// A visitor waits for a data channel until one takes the command: a broken one is
/// replaced by a request for another, and a good one is joined to the visitor, after
/// which the pool waits for the next visitor.
pub proof fn law_pool_tries_until_a_channel_works(events: Seq<PoolEvent>)
    ensures
        ({
            let with = |event: PoolEvent| pool_after(events.push(event));
            match pool_after(events) {
                PoolAction::ReceiveVisitor => {
                    &&& with(PoolEvent::Visitor) == PoolAction::ReceiveDataChannel
                    &&& with(PoolEvent::VisitorsGone) == PoolAction::Stop
                },
                PoolAction::ReceiveDataChannel => {
                    &&& with(PoolEvent::DataChannel) == PoolAction::WriteCommand
                    &&& with(PoolEvent::DataChannelsGone) == PoolAction::Stop
                },
                PoolAction::WriteCommand => {
                    &&& with(PoolEvent::CommandWritten) == PoolAction::StartForward
                    &&& with(PoolEvent::CommandFailed) == PoolAction::RequestDataChannel
                },
                PoolAction::RequestDataChannel => {
                    &&& with(PoolEvent::Requested) == PoolAction::ReceiveDataChannel
                    &&& with(PoolEvent::RequestFailed) == PoolAction::Stop
                },
                PoolAction::StartForward => with(PoolEvent::ForwardStarted)
                    == PoolAction::ReceiveVisitor,
                PoolAction::Stop => true,
            }
        }),
{
    assert forall|event: PoolEvent| #[trigger]
        pool_after(events.push(event)) == pool_next(pool_after(events), event) by {
        assert(events.push(event).drop_last() =~= events);
    }
}

/// A step that changes what a pool is doing answers it.
pub proof fn law_pool_steps_answer(doing: PoolAction, event: PoolEvent)
    requires
        pool_next(doing, event) != doing,
    ensures
        match doing {
            PoolAction::ReceiveVisitor => event is Visitor || event is VisitorsGone,
            PoolAction::ReceiveDataChannel => event is DataChannel || event is DataChannelsGone,
            PoolAction::WriteCommand => event is CommandWritten || event is CommandFailed,
            PoolAction::RequestDataChannel => event is Requested || event is RequestFailed,
            PoolAction::StartForward => event is ForwardStarted,
            PoolAction::Stop => false,
        },
{
}

/// What a UDP pool is told.
#[derive(Debug, Clone, Copy, PartialEq, Eq, Structural)]
pub enum UdpEvent {
    /// The socket is bound.
    Bound,
    /// The socket could not be bound, and no further attempt is made.
    BindFailed,
    /// The pool's data channel has come.
    DataChannel,
    /// No data channel will come.
    DataChannelsGone,
    /// A datagram from a visitor has come.
    Inbound,
    /// A header's length has come from the client.
    Outbound,
    /// The last write or read went through.
    Done,
    /// The last write or read failed.
    Failed,
    /// The control channel shuts down.
    Shutdown,
}

/// Why a UDP pool failed.
#[derive(Debug, Clone, Copy, PartialEq, Eq, Structural)]
pub enum UdpError {
    /// The socket could not be bound.
    Listen,
    /// No data channel came.
    NoDataChannel,
    /// A read or a write failed.
    Io,
}

impl UdpError {
    /// What the pool says of the error itself. An error of a read or a write
    /// speaks for itself.
    pub open spec fn text(self) -> Option<Seq<char>> {
        match self {
            UdpError::Listen => Some("Failed to listen for the service"@),
            UdpError::NoDataChannel => Some("No available data channels"@),
            UdpError::Io => None,
        }
    }

    /// What the pool says of the error itself, if anything.
    pub fn message(&self) -> (r: Option<&'static str>)
        ensures
            match r {
                Some(words) => self.text() == Some(words@),
                None => self.text() is None,
            },
            self is Listen ==> r is Some && r->0@ == "Failed to listen for the service"@,
            self is NoDataChannel ==> r is Some && r->0@ == "No available data channels"@,
            self is Io ==> r is None,
    {
        match self {
            UdpError::Listen => Some("Failed to listen for the service"),
            UdpError::NoDataChannel => Some("No available data channels"),
            UdpError::Io => None,
        }
    }
}

/// What a UDP pool does next.
#[derive(Debug, Clone, Copy, PartialEq, Eq, Structural)]
pub enum UdpAction {
    /// Bind the socket.
    Bind,
    /// Wait for the data channel.
    ReceiveDataChannel,
    /// Write the command to the data channel.
    WriteCommand,
    /// Wait for traffic of either side, or the shutdown.
    Select,
    /// Write the datagram to the data channel.
    WriteToClient,
    /// Read the rest of the frame from the data channel.
    ReadFromClient,
    /// Send the frame's data to the visitor.
    SendToVisitor,
    /// End.
    Stop,
    /// End with an error.
    Fail(UdpError),
}

/// What a UDP pool does after `doing`, on `event`. An event that does not answer
/// what it is doing changes nothing.
pub open spec fn udp_next(doing: UdpAction, event: UdpEvent) -> UdpAction {
    match (doing, event) {
        (UdpAction::Bind, UdpEvent::Bound) => UdpAction::ReceiveDataChannel,
        (UdpAction::Bind, UdpEvent::BindFailed) => UdpAction::Fail(UdpError::Listen),
        (UdpAction::ReceiveDataChannel, UdpEvent::DataChannel) => UdpAction::WriteCommand,
        (UdpAction::ReceiveDataChannel, UdpEvent::DataChannelsGone) => UdpAction::Fail(
            UdpError::NoDataChannel,
        ),
        (UdpAction::WriteCommand, UdpEvent::Done) => UdpAction::Select,
        (UdpAction::WriteCommand, UdpEvent::Failed) => UdpAction::Fail(UdpError::Io),
        (UdpAction::Select, UdpEvent::Inbound) => UdpAction::WriteToClient,
        (UdpAction::Select, UdpEvent::Outbound) => UdpAction::ReadFromClient,
        (UdpAction::Select, UdpEvent::Failed) => UdpAction::Fail(UdpError::Io),
        (UdpAction::Select, UdpEvent::Shutdown) => UdpAction::Stop,
        (UdpAction::WriteToClient, UdpEvent::Done) => UdpAction::Select,
        (UdpAction::WriteToClient, UdpEvent::Failed) => UdpAction::Fail(UdpError::Io),
        (UdpAction::ReadFromClient, UdpEvent::Done) => UdpAction::SendToVisitor,
        (UdpAction::ReadFromClient, UdpEvent::Failed) => UdpAction::Fail(UdpError::Io),
        (UdpAction::SendToVisitor, UdpEvent::Done) => UdpAction::Select,
        (UdpAction::SendToVisitor, UdpEvent::Failed) => UdpAction::Fail(UdpError::Io),
        _ => doing,
    }
}

/// A pool that carries all of a UDP service's traffic over one data channel.
#[derive(Debug, Clone, Copy, PartialEq, Eq, Structural)]
pub struct UdpPool {
    doing: UdpAction,
}

impl UdpPool {
    /// What the pool is doing.
    pub closed spec fn doing(&self) -> UdpAction {
        self.doing
    }

    /// A pool that is about to bind its socket.
    pub fn new() -> (r: Self)
        ensures
            r.doing() == UdpAction::Bind,
    {
        UdpPool { doing: UdpAction::Bind }
    }

    /// The command that starts forwarding on the data channel.
    pub fn command(&self) -> (r: DataChannelCmd)
        ensures
            r == DataChannelCmd::StartForwardUdp,
    {
        DataChannelCmd::StartForwardUdp
    }

    /// What to do on an event.
    pub fn step(&mut self, event: UdpEvent) -> (r: UdpAction)
        ensures
            r == udp_next(old(self).doing(), event),
            final(self).doing() == r,
            ({
                let doing = old(self).doing();
                let working = doing is WriteCommand || doing is Select || doing is WriteToClient
                    || doing is ReadFromClient || doing is SendToVisitor;
                let bound = doing is Bind && event is Bound;
                let channel = doing is ReceiveDataChannel && event is DataChannel;
                let inbound = doing is Select && event is Inbound;
                let outbound = doing is Select && event is Outbound;
                let read = doing is ReadFromClient && event is Done;
                let carried = event is Done && (doing is WriteCommand || doing is WriteToClient
                    || doing is SendToVisitor);
                let shut_down = doing is Select && event is Shutdown;
                let unbound = doing is Bind && event is BindFailed;
                let without = doing is ReceiveDataChannel && event is DataChannelsGone;
                let broken = working && event is Failed;
                &&& bound ==> r is ReceiveDataChannel
                &&& channel ==> r is WriteCommand
                &&& inbound ==> r is WriteToClient
                &&& outbound ==> r is ReadFromClient
                &&& read ==> r is SendToVisitor
                &&& carried ==> r is Select
                &&& r is Stop <==> doing is Stop || shut_down
                &&& unbound ==> r == UdpAction::Fail(UdpError::Listen)
                &&& without ==> r == UdpAction::Fail(UdpError::NoDataChannel)
                &&& broken ==> r == UdpAction::Fail(UdpError::Io)
                &&& r is Fail <==> doing is Fail || unbound || without || broken
                &&& r == doing || bound || channel || inbound || outbound || read || carried
                    || shut_down || unbound || without || broken
            }),
    {
        let next = match (self.doing, event) {
            (UdpAction::Bind, UdpEvent::Bound) => UdpAction::ReceiveDataChannel,
            (UdpAction::Bind, UdpEvent::BindFailed) => UdpAction::Fail(UdpError::Listen),
            (UdpAction::ReceiveDataChannel, UdpEvent::DataChannel) => UdpAction::WriteCommand,
            (UdpAction::ReceiveDataChannel, UdpEvent::DataChannelsGone) => UdpAction::Fail(
                UdpError::NoDataChannel,
            ),
            (UdpAction::WriteCommand, UdpEvent::Done) => UdpAction::Select,
            (UdpAction::WriteCommand, UdpEvent::Failed) => UdpAction::Fail(UdpError::Io),
            (UdpAction::Select, UdpEvent::Inbound) => UdpAction::WriteToClient,
            (UdpAction::Select, UdpEvent::Outbound) => UdpAction::ReadFromClient,
            (UdpAction::Select, UdpEvent::Failed) => UdpAction::Fail(UdpError::Io),
            (UdpAction::Select, UdpEvent::Shutdown) => UdpAction::Stop,
            (UdpAction::WriteToClient, UdpEvent::Done) => UdpAction::Select,
            (UdpAction::WriteToClient, UdpEvent::Failed) => UdpAction::Fail(UdpError::Io),
            (UdpAction::ReadFromClient, UdpEvent::Done) => UdpAction::SendToVisitor,
            (UdpAction::ReadFromClient, UdpEvent::Failed) => UdpAction::Fail(UdpError::Io),
            (UdpAction::SendToVisitor, UdpEvent::Done) => UdpAction::Select,
            (UdpAction::SendToVisitor, UdpEvent::Failed) => UdpAction::Fail(UdpError::Io),
            (doing, _) => doing,
        };
        self.doing = next;
        next
    }
}

/// A pool that has ended does nothing more.
pub proof fn law_ended_pool_stays_ended(event: PoolEvent, udp_event: UdpEvent, error: UdpError)
    ensures
        pool_next(PoolAction::Stop, event) == PoolAction::Stop,
        udp_next(UdpAction::Stop, udp_event) == UdpAction::Stop,
        udp_next(UdpAction::Fail(error), udp_event) == UdpAction::Fail(error),
{
}

/// What a new UDP pool does after `events`.
pub open spec fn udp_after(events: Seq<UdpEvent>) -> UdpAction
    decreases events.len(),
{
    if events.len() == 0 {
        UdpAction::Bind
    } else {
        udp_next(udp_after(events.drop_last()), events.last())
    }
}

/// How many of `events` took a new UDP pool out of `from` and into `to`.
pub open spec fn udp_moves(events: Seq<UdpEvent>, from: UdpAction, to: UdpAction) -> nat
    decreases events.len(),
{
    if events.len() == 0 {
        0
    } else {
        udp_moves(events.drop_last(), from, to) + if udp_after(events.drop_last()) == from
            && udp_after(events) == to && from != to {
            1nat
        } else {
            0
        }
    }
}

/// A UDP pool carries all that it takes in: while it runs, each frame that was
/// announced has been sent to a visitor, and each datagram has been written to the
/// client, but for the one at hand. It takes one data channel in all.
pub proof fn law_udp_traffic_is_carried(events: Seq<UdpEvent>)
    ensures
        ({
            let doing = udp_after(events);
            let channels = udp_moves(events, UdpAction::ReceiveDataChannel, UdpAction::WriteCommand);
            let inbound = udp_moves(events, UdpAction::Select, UdpAction::WriteToClient);
            let written = udp_moves(events, UdpAction::WriteToClient, UdpAction::Select);
            let outbound = udp_moves(events, UdpAction::Select, UdpAction::ReadFromClient);
            let sent = udp_moves(events, UdpAction::SendToVisitor, UdpAction::Select);
            &&& channels <= 1
            &&& doing is Bind || doing is ReceiveDataChannel ==> channels == 0
            &&& written <= inbound <= written + 1
            &&& sent <= outbound <= sent + 1
            &&& doing is Select || doing is Stop ==> written == inbound && sent == outbound
            &&& doing is WriteToClient ==> inbound == written + 1 && sent == outbound
            &&& doing is ReadFromClient || doing is SendToVisitor ==> written == inbound && outbound
                == sent + 1
            &&& doing is Bind || doing is ReceiveDataChannel || doing is WriteCommand ==> inbound
                == 0 && outbound == 0
        }),
    decreases events.len(),
{
    if events.len() > 0 {
        law_udp_traffic_is_carried(events.drop_last());
    }
}

/// A UDP pool carries each datagram to the client and each frame to the visitor, and
/// then waits for more, whatever came before.
pub proof fn law_udp_pool_waits_for_more(events: Seq<UdpEvent>)
    ensures
        udp_after(events) == UdpAction::Select ==> {
            &&& udp_after(events.push(UdpEvent::Inbound)) == UdpAction::WriteToClient
            &&& udp_after(events.push(UdpEvent::Inbound).push(UdpEvent::Done)) == UdpAction::Select
            &&& udp_after(events.push(UdpEvent::Outbound)) == UdpAction::ReadFromClient
            &&& udp_after(events.push(UdpEvent::Outbound).push(UdpEvent::Done))
                == UdpAction::SendToVisitor
            &&& udp_after(
                events.push(UdpEvent::Outbound).push(UdpEvent::Done).push(UdpEvent::Done),
            ) == UdpAction::Select
            &&& udp_after(events.push(UdpEvent::Shutdown)) == UdpAction::Stop
        },
{
    let inbound = events.push(UdpEvent::Inbound);
    let outbound = events.push(UdpEvent::Outbound);
    let read = outbound.push(UdpEvent::Done);
    assert(inbound.drop_last() =~= events);
    assert(inbound.push(UdpEvent::Done).drop_last() =~= inbound);
    assert(outbound.drop_last() =~= events);
    assert(read.drop_last() =~= outbound);
    assert(read.push(UdpEvent::Done).drop_last() =~= read);
    assert(events.push(UdpEvent::Shutdown).drop_last() =~= events);
}

/// A UDP pool fails for the reason that it names.
pub proof fn law_udp_pool_fails_for_a_reason(events: Seq<UdpEvent>, error: UdpError)
    requires
        udp_after(events) == UdpAction::Fail(error),
    ensures
        events.contains(
            match error {
                UdpError::Listen => UdpEvent::BindFailed,
                UdpError::NoDataChannel => UdpEvent::DataChannelsGone,
                UdpError::Io => UdpEvent::Failed,
            },
        ),
    decreases events.len(),
{
    let before = events.drop_last();
    if udp_after(before) == UdpAction::Fail(error) {
        law_udp_pool_fails_for_a_reason(before, error);
        assert forall|event: UdpEvent| before.contains(event) implies events.contains(event) by {
            let i = choose|i: int| 0 <= i < before.len() && before[i] == event;
            assert(events[i] == event);
        }
    } else {
        assert(events[events.len() - 1] == events.last());
    }
}

/// A failure always ends a UDP pool that is at work, and a step that changes what a
/// pool is doing answers it.
pub proof fn law_udp_pool_steps_answer(doing: UdpAction, event: UdpEvent)
    ensures
        event is Failed && (doing is WriteCommand || doing is Select || doing is WriteToClient
            || doing is ReadFromClient || doing is SendToVisitor) ==> udp_next(doing, event)
            == UdpAction::Fail(UdpError::Io),
        udp_next(doing, event) != doing ==> match doing {
            UdpAction::Bind => event is Bound || event is BindFailed,
            UdpAction::ReceiveDataChannel => event is DataChannel || event is DataChannelsGone,
            UdpAction::WriteCommand => event is Done || event is Failed,
            UdpAction::Select => event is Inbound || event is Outbound || event is Failed
                || event is Shutdown,
            UdpAction::WriteToClient => event is Done || event is Failed,
            UdpAction::ReadFromClient => event is Done || event is Failed,
            UdpAction::SendToVisitor => event is Done || event is Failed,
            UdpAction::Stop => false,
            UdpAction::Fail(_) => false,
        },
{
}

/// A UDP pool ends without an error on the shutdown alone.
pub proof fn law_udp_pool_ends_on_shutdown_alone(events: Seq<UdpEvent>)
    requires
        udp_after(events) == UdpAction::Stop,
    ensures
        events.contains(UdpEvent::Shutdown),
    decreases events.len(),
{
    if udp_after(events.drop_last()) == UdpAction::Stop {
        law_udp_pool_ends_on_shutdown_alone(events.drop_last());
        let i = choose|i: int|
            0 <= i < events.len() - 1 && events.drop_last()[i] == UdpEvent::Shutdown;
        assert(events[i] == UdpEvent::Shutdown);
    } else {
        assert(events[events.len() - 1] == UdpEvent::Shutdown);
    }
}

} // verus!
