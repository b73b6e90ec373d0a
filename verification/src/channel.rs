//! Control channels: what is set up for one, how it runs, and how it is found.
use crate::config::{ServerServiceConfig, ServiceType, ServiceView};
use crate::digest::Digest;
use crate::maps::{first_of, has_second, second_keys_distinct, MultiMap};
use crate::protocol::ControlChannelCmd;
use vstd::prelude::*;

verus! {

/// The number of data channels kept ready for a TCP service.
pub const TCP_POOL_SIZE: usize = 8;

/// The number of data channels kept ready for a UDP service.
pub const UDP_POOL_SIZE: usize = 2;

/// The number of data channels kept ready for a socket stream service.
pub const SOCKET_STREAM_POOL_SIZE: usize = 8;

/// How many visitors may wait for a data channel.
pub const CHAN_SIZE: usize = 2048;

/// How many data channels may wait for a visitor.
pub const DATA_CHAN_SIZE: usize = 4096;

/// The server's end of a control channel. `link` is what the channel's task is
/// reached by; the channel shuts down when the handle goes.
#[derive(Debug)]
pub struct ControlChannelHandle<T> {
    pub service: ServerServiceConfig,
    pub link: T,
}

/// The control channels, by the digest of the service's name and by session key.
pub type ControlChannelMap<T> = MultiMap<ControlChannelHandle<T>>;

/// How a configured proxy protocol is understood.
#[derive(Debug, Clone, Copy, PartialEq, Eq, Structural)]
pub enum ProxyProtocol {
    Enabled,
    Disabled,
    Unknown,
}

/// How a service's `proxy_protocol` is understood: `v1` and `v2` are known, and
/// the empty string is none.
pub open spec fn proxy_protocol_of(name: Seq<char>) -> ProxyProtocol {
    if name == "v1"@ || name == "v2"@ {
        ProxyProtocol::Enabled
    } else if name.len() == 0 {
        ProxyProtocol::Disabled
    } else {
        ProxyProtocol::Unknown
    }
}

/// What is to be started for a new control channel.
#[derive(Debug)]
pub struct ControlChannelPlan {
    /// The kind of connection pool to run.
    pub service_type: ServiceType,
    /// Where the pool listens for visitors.
    pub bind_addr: String,
    /// The name of the proxy protocol for visitors, empty for none.
    pub proxy_protocol: String,
    /// How that name is understood.
    pub proxy: ProxyProtocol,
    /// How many data channels to request at once.
    pub pool_size: usize,
    /// The control channel to run.
    pub control: ControlChannel,
    /// The session to close, with [`crate::server::Server::close_session`], when
    /// the control channel ends.
    pub session_key: Digest,
}

/// How many data channels are kept ready for a service of this type.
pub open spec fn pool_size_of(service_type: ServiceType) -> nat {
    match service_type {
        ServiceType::Tcp => 8,
        ServiceType::Udp => 2,
        ServiceType::SocketStream => 8,
    }
}

impl ControlChannelPlan {
    /// The plan is the one for this service, heartbeat interval and session.
    pub open spec fn follows(
        &self,
        service: ServiceView,
        heartbeat_interval: u64,
        session_key: Digest,
    ) -> bool {
        &&& self.service_type == service.service_type
        &&& self.bind_addr@ == service.bind_addr
        &&& self.proxy_protocol@ == match service.proxy_protocol {
            Some(name) => name,
            None => Seq::<char>::empty(),
        }
        &&& self.proxy == proxy_protocol_of(self.proxy_protocol@)
        &&& self.pool_size == pool_size_of(service.service_type)
        &&& self.control.interval() == heartbeat_interval
        &&& self.session_key == session_key
    }
}

impl<T> ControlChannelHandle<T> {
    /// The handle for a new control channel, and what is to be started for it.
    pub fn new(
        link: T,
        service: ServerServiceConfig,
        heartbeat_interval: u64,
        session_key: Digest,
    ) -> (r: (ControlChannelHandle<T>, ControlChannelPlan))
        ensures
            r.0 == (ControlChannelHandle { service, link }),
            r.1.follows(service@, heartbeat_interval, session_key),
            r.0.service == service && r.0.link == link,
            r.1.service_type == service.service_type,
            r.1.bind_addr@ == service.bind_addr@,
            r.1.proxy_protocol@ == match service.proxy_protocol {
                Some(name) => name@,
                None => Seq::<char>::empty(),
            },
            r.1.proxy == ProxyProtocol::Enabled <==> r.1.proxy_protocol@ == "v1"@
                || r.1.proxy_protocol@ == "v2"@,
            r.1.proxy == ProxyProtocol::Disabled <==> r.1.proxy_protocol@.len() == 0,
            r.1.pool_size == match service.service_type {
                ServiceType::Tcp => 8int,
                ServiceType::Udp => 2,
                ServiceType::SocketStream => 8,
            },
            r.1.control.interval() == heartbeat_interval,
            r.1.session_key == session_key,
    {
        proof {
            reveal_strlit("v1");
            reveal_strlit("v2");
        }
        let pool_size: usize = match service.service_type {
            ServiceType::Tcp => TCP_POOL_SIZE,
            ServiceType::Udp => UDP_POOL_SIZE,
            ServiceType::SocketStream => SOCKET_STREAM_POOL_SIZE,
        };
        let proxy_protocol = match &service.proxy_protocol {
            Some(name) => name.clone(),
            None => String::new(),
        };
        let proxy = if proxy_protocol == "v1".to_owned() || proxy_protocol == "v2".to_owned() {
            ProxyProtocol::Enabled
        } else if proxy_protocol.as_str().is_empty() {
            ProxyProtocol::Disabled
        } else {
            ProxyProtocol::Unknown
        };
        let plan = ControlChannelPlan {
            service_type: service.service_type,
            bind_addr: service.bind_addr.clone(),
            proxy_protocol,
            proxy,
            pool_size,
            control: ControlChannel::new(heartbeat_interval),
            session_key,
        };
        (ControlChannelHandle { service, link }, plan)
    }
}

/// What happens to a running control channel.
#[derive(Debug, Clone, Copy, PartialEq, Eq, Structural)]
pub enum ControlEvent {
    /// A read came back with this many bytes.
    Read(usize),
    /// A read failed.
    ReadFailed,
    /// A data channel is wanted.
    DataChannelWanted,
    /// Nobody is left who could want a data channel.
    RequestersGone,
    /// The heartbeat interval has passed.
    HeartbeatDue,
    /// The handle is gone.
    Shutdown,
    /// The last command was written.
    Written,
    /// The last command could not be written.
    WriteFailed,
}

/// Why a control channel ended.
#[derive(Debug, Clone, Copy, PartialEq, Eq, Structural)]
pub enum ControlStop {
    ClosedByClient,
    UnexpectedData,
    ReadFailed,
    WriteFailed,
    RequestersGone,
    Shutdown,
}

/// What a control channel does next.
#[derive(Debug, Clone, Copy, PartialEq, Eq, Structural)]
pub enum ControlAction {
    /// Wait for the next event.
    Wait,
    /// Write this command and flush.
    Write(ControlChannelCmd),
    /// End.
    Stop(ControlStop),
}

/// A control channel.
#[derive(Debug, Clone, Copy, PartialEq, Eq, Structural)]
pub struct ControlChannel {
    heartbeat_interval: u64,
}

impl ControlChannel {
    /// The heartbeat interval in seconds.
    pub closed spec fn interval(&self) -> u64 {
        self.heartbeat_interval
    }

    /// A control channel that sends a heartbeat every `heartbeat_interval` seconds.
    pub fn new(heartbeat_interval: u64) -> (r: Self)
        ensures
            r.interval() == heartbeat_interval,
    {
        ControlChannel { heartbeat_interval }
    }

    /// How many seconds to wait for [`ControlEvent::HeartbeatDue`]. There is no
    /// such event if the interval is zero.
    pub fn heartbeat(&self) -> (r: Option<u64>)
        ensures
            r == if self.interval() == 0 {
                None
            } else {
                Some(self.interval())
            },
    {
        if self.heartbeat_interval != 0 {
            Some(self.heartbeat_interval)
        } else {
            None
        }
    }

    /// What the channel does on an event.
    pub open spec fn action(event: ControlEvent) -> ControlAction {
        match event {
            ControlEvent::Read(n) => ControlAction::Stop(
                if n == 0 {
                    ControlStop::ClosedByClient
                } else {
                    ControlStop::UnexpectedData
                },
            ),
            ControlEvent::ReadFailed => ControlAction::Stop(ControlStop::ReadFailed),
            ControlEvent::DataChannelWanted => ControlAction::Write(
                ControlChannelCmd::CreateDataChannel,
            ),
            ControlEvent::RequestersGone => ControlAction::Stop(ControlStop::RequestersGone),
            ControlEvent::HeartbeatDue => ControlAction::Write(ControlChannelCmd::HeartBeat),
            ControlEvent::Shutdown => ControlAction::Stop(ControlStop::Shutdown),
            ControlEvent::Written => ControlAction::Wait,
            ControlEvent::WriteFailed => ControlAction::Stop(ControlStop::WriteFailed),
        }
    }

    /// What to do on an event. The client sends nothing after the handshake, so
    /// any read that completes means that it is gone.
    pub fn run(&self, event: ControlEvent) -> (r: ControlAction)
        ensures
            r == ControlChannel::action(event),
            event is Read || event is ReadFailed || event is WriteFailed || event is RequestersGone
                || event is Shutdown <==> r is Stop,
            event matches ControlEvent::Read(n) ==> r == if n > 0 {
                ControlAction::Stop(ControlStop::UnexpectedData)
            } else {
                ControlAction::Stop(ControlStop::ClosedByClient)
            },
            event is ReadFailed ==> r == ControlAction::Stop(ControlStop::ReadFailed),
            event is WriteFailed ==> r == ControlAction::Stop(ControlStop::WriteFailed),
            event is RequestersGone ==> r == ControlAction::Stop(ControlStop::RequestersGone),
            event is Shutdown ==> r == ControlAction::Stop(ControlStop::Shutdown),
            event is DataChannelWanted <==> r == ControlAction::Write(
                ControlChannelCmd::CreateDataChannel,
            ),
            event is HeartbeatDue <==> r == ControlAction::Write(ControlChannelCmd::HeartBeat),
            event is Written <==> r == ControlAction::Wait,
    {
        match event {
            ControlEvent::Read(n) => {
                if n == 0 {
                    ControlAction::Stop(ControlStop::ClosedByClient)
                } else {
                    ControlAction::Stop(ControlStop::UnexpectedData)
                }
            },
            ControlEvent::ReadFailed => ControlAction::Stop(ControlStop::ReadFailed),
            ControlEvent::DataChannelWanted => ControlAction::Write(
                ControlChannelCmd::CreateDataChannel,
            ),
            ControlEvent::RequestersGone => ControlAction::Stop(ControlStop::RequestersGone),
            ControlEvent::HeartbeatDue => ControlAction::Write(ControlChannelCmd::HeartBeat),
            ControlEvent::Shutdown => ControlAction::Stop(ControlStop::Shutdown),
            ControlEvent::Written => ControlAction::Wait,
            ControlEvent::WriteFailed => ControlAction::Stop(ControlStop::WriteFailed),
        }
    }
}

/// A read that completes ends the channel, whatever it brought.
pub proof fn law_read_ends_control_channel(n: usize)
    ensures
        ControlChannel::action(ControlEvent::Read(n)) is Stop,
        ControlChannel::action(ControlEvent::ReadFailed) is Stop,
{
}

/// A control channel ends when the client is gone, a command cannot be written, nobody
/// wants data channels any more, or it is shut down. Nothing else ends it: each data
/// channel that is wanted is asked for, and each heartbeat that is due is sent.
pub proof fn law_control_channel_ends_for_a_reason(event: ControlEvent)
    ensures
        ControlChannel::action(event) is Stop <==> event is Read || event is ReadFailed
            || event is WriteFailed || event is RequestersGone || event is Shutdown,
        ControlChannel::action(event) == ControlAction::Write(ControlChannelCmd::CreateDataChannel)
            <==> event is DataChannelWanted,
        ControlChannel::action(event) == ControlAction::Write(ControlChannelCmd::HeartBeat)
            <==> event is HeartbeatDue,
        ControlChannel::action(event) == ControlAction::Wait <==> event is Written,
        ControlChannel::action(event) == ControlAction::Stop(ControlStop::ClosedByClient) <==> event
            == ControlEvent::Read(0),
        ControlChannel::action(event) == ControlAction::Stop(ControlStop::UnexpectedData) <==> (
        event matches ControlEvent::Read(n) && n > 0),
        ControlChannel::action(event) == ControlAction::Stop(ControlStop::ReadFailed)
            <==> event is ReadFailed,
        ControlChannel::action(event) == ControlAction::Stop(ControlStop::WriteFailed)
            <==> event is WriteFailed,
        ControlChannel::action(event) == ControlAction::Stop(ControlStop::RequestersGone)
            <==> event is RequestersGone,
        ControlChannel::action(event) == ControlAction::Stop(ControlStop::Shutdown)
            <==> event is Shutdown,
{
}

/// What is started for a control channel is what the service's configuration says.
pub proof fn law_plan_follows_the_configuration(
    plan: ControlChannelPlan,
    service: ServerServiceConfig,
    heartbeat_interval: u64,
    session_key: Digest,
)
    requires
        plan.follows(service@, heartbeat_interval, session_key),
    ensures
        plan.service_type == service.service_type,
        plan.bind_addr@ == service.bind_addr@,
        service.proxy_protocol matches Some(name) ==> plan.proxy_protocol@ == name@,
        service.proxy_protocol is None ==> plan.proxy_protocol@.len() == 0,
        plan.proxy == ProxyProtocol::Enabled <==> plan.proxy_protocol@ == "v1"@
            || plan.proxy_protocol@ == "v2"@,
        plan.proxy == ProxyProtocol::Disabled <==> plan.proxy_protocol@.len() == 0,
        service.service_type == ServiceType::Udp ==> plan.pool_size == 2,
        service.service_type != ServiceType::Udp ==> plan.pool_size == 8,
        plan.control.interval() == heartbeat_interval,
        plan.session_key == session_key,
{
    reveal_strlit("v1");
    reveal_strlit("v2");
}

/// A control channel that was put in the map is found by its service and by its
/// session key.
pub proof fn law_channel_is_found_by_either_key<T>(
    m: Map<Digest, (Digest, ControlChannelHandle<T>)>,
    service: Digest,
    session_key: Digest,
    handle: ControlChannelHandle<T>,
)
    requires
        second_keys_distinct(m),
        !has_second(m, session_key),
    ensures
        ({
            let after = m.insert(service, (session_key, handle));
            &&& after.contains_key(service)
            &&& after[service].1 == handle
            &&& has_second(after, session_key)
            &&& first_of(after, session_key) == service
            &&& second_keys_distinct(after)
        }),
{
    let after = m.insert(service, (session_key, handle));
    assert(after.contains_key(service) && after[service].0 == session_key);
    let k = first_of(after, session_key);
    if k != service {
        assert(m.contains_key(k) && m[k].0 == session_key);
    }
}

/// The control channels once the session with this key is closed: its entry is
/// gone, if there was one.
pub open spec fn session_closed<T>(
    m: Map<Digest, (Digest, ControlChannelHandle<T>)>,
    session_key: Digest,
) -> Map<Digest, (Digest, ControlChannelHandle<T>)> {
    if has_second(m, session_key) {
        m.remove(first_of(m, session_key))
    } else {
        m
    }
}

/// A closed session is found by neither of its keys, and every other one is found
/// by both as before.
pub proof fn law_closed_session_is_gone_alone<T>(
    m: Map<Digest, (Digest, ControlChannelHandle<T>)>,
    session_key: Digest,
    other: Digest,
)
    requires
        second_keys_distinct(m),
        other != session_key,
    ensures
        forall|service: Digest| #[trigger]
            session_closed(m, session_key).contains_key(service) <==> m.contains_key(service)
                && m[service].0 != session_key,
        forall|service: Digest| #[trigger]
            session_closed(m, session_key).contains_key(service) ==> session_closed(
                m,
                session_key,
            )[service] == m[service],
        ({
            let after = session_closed(m, session_key);
            &&& !has_second(after, session_key)
            &&& has_second(m, session_key) ==> !after.contains_key(first_of(m, session_key))
            &&& has_second(after, other) <==> has_second(m, other)
            &&& has_second(m, other) ==> {
                &&& first_of(after, other) == first_of(m, other)
                &&& after[first_of(m, other)] == m[first_of(m, other)]
            }
        }),
{
    let after = session_closed(m, session_key);
    assert forall|service: Digest| #[trigger] after.contains_key(service) <==> m.contains_key(
        service,
    ) && m[service].0 != session_key by {
        if m.contains_key(service) && m[service].0 == session_key {
            assert(has_second(m, session_key));
            assert(m.contains_key(first_of(m, session_key)));
        }
    }
    if has_second(after, session_key) {
        let k = first_of(after, session_key);
        assert(m.contains_key(k) && m.contains_key(first_of(m, session_key)));
    }
    if has_second(after, other) {
        assert(m.contains_key(first_of(after, other)));
    }
    if has_second(m, other) {
        let k = first_of(m, other);
        assert(m.contains_key(k) && m[k].0 == other);
        assert(after.contains_key(k) && after[k].0 == other);
        assert(after.contains_key(first_of(after, other)));
        assert(m.contains_key(first_of(after, other)));
    }
}

/// A client can always connect again: with its service's old channel gone from
/// the map, both keys are free, unless another service has the same session key.
pub proof fn law_client_can_reconnect<T>(
    m: Map<Digest, (Digest, ControlChannelHandle<T>)>,
    service: Digest,
    session_key: Digest,
)
    requires
        forall|other: Digest| #[trigger]
            m.contains_key(other) && other != service ==> m[other].0 != session_key,
    ensures
        !m.remove(service).contains_key(service),
        !has_second(m.remove(service), session_key),
{
    if has_second(m.remove(service), session_key) {
        let other = first_of(m.remove(service), session_key);
        assert(m.contains_key(other));
    }
}

/// The end of a session never takes away the channel of a client that has
/// connected again: session keys differ, the old one finds nothing any more, and
/// closing its session changes nothing.
pub proof fn law_old_session_does_not_close_new_one<T>(
    m: Map<Digest, (Digest, ControlChannelHandle<T>)>,
    service: Digest,
    new_key: Digest,
    handle: ControlChannelHandle<T>,
)
    requires
        second_keys_distinct(m),
        m.contains_key(service),
        new_key != m[service].0,
    ensures
        ({
            let after = m.remove(service).insert(service, (new_key, handle));
            &&& !has_second(after, m[service].0)
            &&& session_closed(after, m[service].0) == after
        }),
{
    let after = m.remove(service).insert(service, (new_key, handle));
    let old_key = m[service].0;
    if has_second(after, old_key) {
        let k = first_of(after, old_key);
        assert(m.contains_key(k) && m.contains_key(service));
    }
}

} // verus!
