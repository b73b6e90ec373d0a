//! The server: what it holds, and what it does on each event.
use crate::backoff::{initial_interval, next_interval, RetryBackoff};
use crate::channel::{session_closed, ControlChannelHandle, ControlChannelMap};
use crate::config::{
    Config, ConfigChange, ServerConfig, ServerServiceChange, ServerServiceConfig, ServiceView,
    TransportType,
};
use crate::digest::{sha256, Digest};
use crate::handshake::{session_key_of, ControlHandshake};
use crate::ingress::{
    all_released, counter_of_limit, counter_of_outcome, law_all_released_leaves_nothing_pending,
    Counter, IngressConfigError, IngressLimit, IngressLimiter, IngressOutcome, IngressPermit,
    IngressReport, IngressStats, IpAddr, MAX_PERMITS,
};
use crate::maps::{first_of, has_second, second_keys_distinct, MultiMap};
use crate::protocol::Ack;
use crate::services::{
    generate_service_hashmap, law_table_with_service, law_table_without_service, name_digest,
    service_digest, service_table, services_view, with_service, without_service, ServiceMap,
};
use vstd::multiset::Multiset;
use vstd::prelude::*;
use vstd::utf8::encode_utf8;

verus! {

/// The transports that a build has besides TCP.
#[derive(Debug, Clone, Copy, PartialEq, Eq, Structural)]
pub struct TransportFeatures {
    pub native_tls: bool,
    pub rustls: bool,
    pub noise: bool,
    pub websocket_native_tls: bool,
    pub websocket_rustls: bool,
}

impl TransportFeatures {
    /// Whether the build has this transport.
    pub open spec fn has(self, transport: TransportType) -> bool {
        match transport {
            TransportType::Tcp => true,
            TransportType::Tls => self.native_tls || self.rustls,
            TransportType::Noise => self.noise,
            TransportType::Websocket => self.websocket_native_tls || self.websocket_rustls,
        }
    }
}

/// Why a server cannot be run.
#[derive(Debug, Clone, Copy)]
pub enum RunServerError {
    /// There is no `[server]` block.
    MissingServerConfig,
    /// The configured transport needs this feature, which the build lacks.
    NotCompiled(&'static str),
    /// The configured transport needs one of these features, and the build lacks
    /// both.
    NeitherCompiled(&'static str, &'static str),
}

impl RunServerError {
    /// The error in words.
    pub open spec fn text(self) -> Seq<char> {
        match self {
            RunServerError::MissingServerConfig =>
                "Try to run as a server, but the configuration is missing. Please add the `[server]` block"@,
            RunServerError::NotCompiled(feature) => "The feature '"@ + feature@
                + "' is not compiled in this binary. Please re-compile rathole"@,
            RunServerError::NeitherCompiled(a, b) => "Neither of the feature '"@ + a@ + "' or '"@
                + b@ + "' is compiled in this binary. Please re-compile rathole"@,
        }
    }

    /// The error in words.
    pub fn message(&self) -> (r: String)
        ensures
            r@ == self.text(),
            match self {
                RunServerError::MissingServerConfig => r@
                    == "Try to run as a server, but the configuration is missing. Please add the `[server]` block"@,
                RunServerError::NotCompiled(feature) => r@ == "The feature '"@ + feature@
                    + "' is not compiled in this binary. Please re-compile rathole"@,
                RunServerError::NeitherCompiled(a, b) => r@ == "Neither of the feature '"@ + a@
                    + "' or '"@ + b@
                    + "' is compiled in this binary. Please re-compile rathole"@,
            },
    {
        match self {
            RunServerError::MissingServerConfig =>
                "Try to run as a server, but the configuration is missing. Please add the `[server]` block".to_owned(),
            RunServerError::NotCompiled(feature) => {
                let mut text = "The feature '".to_owned();
                text.append(feature);
                text.append("' is not compiled in this binary. Please re-compile rathole");
                text
            },
            RunServerError::NeitherCompiled(a, b) => {
                let mut text = "Neither of the feature '".to_owned();
                text.append(a);
                text.append("' or '");
                text.append(b);
                text.append("' is compiled in this binary. Please re-compile rathole");
                text
            },
        }
    }

    /// The error is the one for a build that lacks this transport.
    pub open spec fn lacks(self, transport: TransportType) -> bool {
        match (transport, self) {
            (TransportType::Tls, RunServerError::NeitherCompiled(a, b)) => a@ == "native-tls"@
                && b@ == "rustls"@,
            (TransportType::Noise, RunServerError::NotCompiled(a)) => a@ == "noise"@,
            (TransportType::Websocket, RunServerError::NeitherCompiled(a, b)) => a@
                == "websocket-native-tls"@ && b@ == "websocket-rustls"@,
            _ => false,
        }
    }
}

/// The transport and the configuration to run a server with.
pub fn run_server(config: Config, features: TransportFeatures) -> (r: Result<
    (TransportType, ServerConfig),
    RunServerError,
>)
    ensures
        match config.server {
            None => r == Err::<(TransportType, ServerConfig), _>(
                RunServerError::MissingServerConfig,
            ),
            Some(server) => {
                let transport = server.transport.transport_type;
                if features.has(transport) {
                    r == Ok::<_, RunServerError>((transport, server))
                } else {
                    r matches Err(e) && e.lacks(transport)
                }
            },
        },
        r is Ok <==> (config.server matches Some(server) && match server.transport.transport_type {
            TransportType::Tcp => true,
            TransportType::Tls => features.native_tls || features.rustls,
            TransportType::Noise => features.noise,
            TransportType::Websocket => features.websocket_native_tls || features.websocket_rustls,
        }),
        r matches Ok((transport, server)) ==> config.server == Some(server) && transport
            == server.transport.transport_type,
        config.server is None <==> (r matches Err(e) && e is MissingServerConfig),
        config.server matches Some(server) ==> (r matches Err(e)
            ==> match server.transport.transport_type {
            TransportType::Tcp => false,
            TransportType::Tls => e matches RunServerError::NeitherCompiled(a, b) && a@
                == "native-tls"@ && b@ == "rustls"@,
            TransportType::Noise => e matches RunServerError::NotCompiled(a) && a@ == "noise"@,
            TransportType::Websocket => e matches RunServerError::NeitherCompiled(a, b) && a@
                == "websocket-native-tls"@ && b@ == "websocket-rustls"@,
        }),
{
    let server = match config.server {
        Some(server) => server,
        None => {
            return Err(RunServerError::MissingServerConfig);
        },
    };
    let transport = server.transport.transport_type;
    match transport {
        TransportType::Tcp => Ok((transport, server)),
        TransportType::Tls => if features.native_tls || features.rustls {
            Ok((transport, server))
        } else {
            Err(RunServerError::NeitherCompiled("native-tls", "rustls"))
        },
        TransportType::Noise => if features.noise {
            Ok((transport, server))
        } else {
            Err(RunServerError::NotCompiled("noise"))
        },
        TransportType::Websocket => if features.websocket_native_tls || features.websocket_rustls {
            Ok((transport, server))
        } else {
            Err(RunServerError::NeitherCompiled("websocket-native-tls", "websocket-rustls"))
        },
    }
}

/// A build runs a server on a transport exactly when one of the features that bring
/// it is compiled in: TCP needs none, TLS and websocket either of two, noise its own.
/// More features never take a transport away.
pub proof fn law_either_feature_brings_the_transport(
    features: TransportFeatures,
    more: TransportFeatures,
    transport: TransportType,
)
    ensures
        features.has(TransportType::Tcp),
        features.native_tls || features.rustls <==> features.has(TransportType::Tls),
        features.noise <==> features.has(TransportType::Noise),
        features.websocket_native_tls || features.websocket_rustls <==> features.has(
            TransportType::Websocket,
        ),
        (features.native_tls ==> more.native_tls) && (features.rustls ==> more.rustls) && (
        features.noise ==> more.noise) && (features.websocket_native_tls
            ==> more.websocket_native_tls) && (features.websocket_rustls ==> more.websocket_rustls)
            && features.has(transport) ==> more.has(transport),
{
}

/// How often the server reports on its handshakes, in seconds.
pub const INGRESS_REPORT_INTERVAL_SECS: u64 = 60;

/// The longest pause between attempts to accept, in nanoseconds.
pub const ACCEPT_RETRY_NANOS: u64 = 100_000_000;

/// All that a running server holds.
pub struct Server<T> {
    /// The `[server]` block.
    pub config: ServerConfig,
    /// The services, by the digests of their names.
    pub services: ServiceMap,
    /// The control channels.
    pub control_channels: ControlChannelMap<T>,
    /// Bounds on the handshakes of clients that are not authenticated yet.
    pub ingress: IngressLimiter,
    /// The pauses after failures to accept.
    pub backoff: RetryBackoff,
}

/// What happens to a running server.
pub enum ServerEvent<E> {
    /// A connection could not be accepted. `io` tells whether the fault lies with
    /// the system and not with the transport.
    AcceptFailed { io: bool },
    /// A connection has come from this address.
    Accepted { ip: IpAddr },
    /// A handshake has ended.
    HandshakeEnded { permit: IngressPermit, outcome: IngressOutcome<E> },
    /// A handshake was broken off.
    HandshakeAborted { permit: IngressPermit },
    /// The configuration has changed; `None` if no change will come any more.
    Update(Option<ConfigChange>),
    /// It is time for a report.
    ReportDue,
    /// The server is to shut down.
    Shutdown,
}

/// What a running server does next.
pub enum ServerAction<T> {
    /// Wait for the next event.
    Wait,
    /// Pause for so many nanoseconds before accepting again.
    Sleep(u64),
    /// Run the connection's handshake within so many seconds.
    Handshake { permit: IngressPermit, timeout: u64 },
    /// Drop the connection.
    Reject(IngressLimit),
    /// Drop this control channel.
    Drop(ControlChannelHandle<T>),
    /// Publish this report.
    Report(IngressReport),
    /// Accept nothing more, break off the handshakes under way, report a last
    /// time and end.
    Stop,
}

/// What a change makes of the services.
pub open spec fn services_after(
    services: Map<Digest, ServerServiceConfig>,
    change: ConfigChange,
) -> Map<Digest, ServerServiceConfig> {
    match change {
        ConfigChange::ServerChange(ServerServiceChange::Add(cfg)) => services.insert(
            service_digest(cfg.name@),
            cfg,
        ),
        ConfigChange::ServerChange(ServerServiceChange::Delete(name)) => services.remove(
            service_digest(name@),
        ),
        ConfigChange::Other => services,
    }
}

/// What a change makes of the listed services: one that is new or has changed is
/// put in under its name, and one that is gone is taken out.
pub open spec fn configured_after(
    services: Seq<(Seq<char>, ServiceView)>,
    change: ConfigChange,
) -> Seq<(Seq<char>, ServiceView)> {
    match change {
        ConfigChange::ServerChange(ServerServiceChange::Add(cfg)) => with_service(
            services,
            cfg.name@,
            cfg@,
        ),
        ConfigChange::ServerChange(ServerServiceChange::Delete(name)) => without_service(
            services,
            name@,
        ),
        ConfigChange::Other => services,
    }
}

/// The service that a change is about.
pub open spec fn changed_service(change: ConfigChange) -> Option<Digest> {
    match change {
        ConfigChange::ServerChange(ServerServiceChange::Add(cfg)) => Some(service_digest(cfg.name@)),
        ConfigChange::ServerChange(ServerServiceChange::Delete(name)) => Some(
            service_digest(name@),
        ),
        ConfigChange::Other => None,
    }
}

/// What a change makes of the control channels: the channel of a service that is
/// new or gone is dropped.
pub open spec fn channels_after<T>(
    channels: Map<Digest, (Digest, ControlChannelHandle<T>)>,
    change: ConfigChange,
) -> Map<Digest, (Digest, ControlChannelHandle<T>)> {
    match changed_service(change) {
        Some(service) => channels.remove(service),
        None => channels,
    }
}

/// The control channel that a change drops.
pub open spec fn channel_dropped<T>(
    channels: Map<Digest, (Digest, ControlChannelHandle<T>)>,
    change: ConfigChange,
) -> Option<ControlChannelHandle<T>> {
    match changed_service(change) {
        Some(service) => if channels.contains_key(service) {
            Some(channels[service].1)
        } else {
            None
        },
        None => None,
    }
}

/// What an event makes of the limiter, and what the server does on it as far as
/// handshakes are concerned.
pub open spec fn ingress_step<E, T>(
    before: &IngressLimiter,
    event: ServerEvent<E>,
    after: &IngressLimiter,
    action: ServerAction<T>,
) -> bool {
    match event {
        ServerEvent::Accepted { ip } => match action {
            ServerAction::Handshake { permit, .. } => IngressLimiter::acquired(
                before,
                after,
                ip,
                Ok(permit),
            ),
            ServerAction::Reject(limit) => IngressLimiter::acquired(before, after, ip, Err(limit)),
            _ => false,
        },
        ServerEvent::HandshakeEnded { permit, outcome } => {
            &&& action is Wait
            &&& IngressLimiter::released(before, after, permit.holder())
            &&& after.counts() == before.counts().with_outcome(outcome)
        },
        ServerEvent::HandshakeAborted { permit } => {
            &&& action is Wait
            &&& IngressLimiter::released(before, after, permit.holder())
            &&& after.counts() == before.counts()
        },
        ServerEvent::ReportDue => match action {
            ServerAction::Report(report) => IngressLimiter::reported(before, after, Some(report)),
            ServerAction::Wait => IngressLimiter::reported(before, after, None),
            _ => false,
        },
        _ => {
            &&& *after == *before
            &&& action !is Handshake && action !is Reject && action !is Report
        },
    }
}

impl<T> Server<T> {
    /// All parts are in order.
    pub open spec fn wf(&self) -> bool {
        &&& self.services.wf()
        &&& self.control_channels.wf()
        &&& self.ingress.wf()
        &&& self.backoff.wf()
        &&& self.backoff.longest() == ACCEPT_RETRY_NANOS
    }

    /// The two have the same services and control channels.
    pub open spec fn same_tables(&self, other: &Self) -> bool {
        &&& self.services@ == other.services@
        &&& self.control_channels@ == other.control_channels@
    }

    /// A server that is about to accept connections.
    pub fn from(config: ServerConfig) -> (r: Result<Server<T>, IngressConfigError>)
        requires
            1 <= config.max_pending_handshakes_per_ip <= config.max_pending_handshakes
                ==> config.max_pending_handshakes <= MAX_PERMITS,
        ensures
            r is Ok <==> 1 <= config.max_pending_handshakes_per_ip <= config.max_pending_handshakes,
            r matches Ok(server) ==> {
                &&& server.wf()
                &&& server.config == config
                &&& services_view(server.services@) == service_table(config.services_view())
                &&& forall|i: int|
                    0 <= i < config.services@.len() && (forall|j: int|
                        i < j < config.services@.len() ==> sha256(
                            encode_utf8((#[trigger] config.services@[j]).0@),
                        ) != sha256(encode_utf8(config.services@[i].0@))) ==> {
                        let key = sha256(encode_utf8((#[trigger] config.services@[i]).0@));
                        server.services@.contains_key(key) && server.services@[key]@
                            == config.services@[i].1@
                    }
                &&& forall|key: Digest| #[trigger]
                    server.services@.contains_key(key) ==> exists|i: int|
                        0 <= i < config.services@.len() && sha256(
                            encode_utf8((#[trigger] config.services@[i]).0@),
                        ) == key && server.services@[key]@ == config.services@[i].1@
                &&& server.control_channels@ == Map::<
                    Digest,
                    (Digest, ControlChannelHandle<T>),
                >::empty()
                &&& server.ingress.pending() == Multiset::<IpAddr>::empty()
                &&& server.ingress.global_bound() == config.max_pending_handshakes
                &&& server.ingress.per_ip_bound() == config.max_pending_handshakes_per_ip
                &&& server.ingress.counts() == IngressStats::zero()
                &&& server.ingress.counts().completed == 0 && server.ingress.counts().failed == 0
                &&& server.ingress.counts().timed_out == 0
                &&& server.ingress.counts().rejected_global == 0
                &&& server.ingress.counts().rejected_peer == 0
                &&& server.backoff.interval() == initial_interval()
                &&& server.backoff.interval() == 500_000_000
                &&& server.backoff.longest() == 100_000_000
            },
            r matches Err(e) ==> e == if config.max_pending_handshakes == 0 {
                IngressConfigError::NoPendingHandshakes
            } else {
                IngressConfigError::PerIpOutOfRange
            },
    {
        let services = generate_service_hashmap(&config);
        match IngressLimiter::new(
            config.max_pending_handshakes,
            config.max_pending_handshakes_per_ip,
        ) {
            Ok(ingress) => Ok(
                Server {
                    config,
                    services,
                    control_channels: MultiMap::new(),
                    ingress,
                    backoff: RetryBackoff::new(ACCEPT_RETRY_NANOS),
                },
            ),
            Err(e) => Err(e),
        }
    }

    /// What to do on an event.
    pub fn run<E>(&mut self, event: ServerEvent<E>) -> (r: ServerAction<T>)
        requires
            old(self).wf(),
        ensures
            final(self).wf(),
            final(self).config == old(self).config,
            r is Stop <==> event is Shutdown,
            event is Update || final(self).same_tables(old(self)),
            event is AcceptFailed || event is Accepted || final(self).backoff == old(self).backoff,
            ingress_step(&old(self).ingress, event, &final(self).ingress, r),
            match event {
                ServerEvent::AcceptFailed { io } => {
                    if io {
                        &&& r matches ServerAction::Sleep(delay) && {
                            &&& delay <= ACCEPT_RETRY_NANOS
                            &&& delay <= old(self).backoff.interval() * 3 / 2 + 1
                            &&& old(self).backoff.interval() / 2 <= delay || delay
                                == ACCEPT_RETRY_NANOS
                        }
                        &&& final(self).backoff.interval() == next_interval(
                            old(self).backoff.interval(),
                            ACCEPT_RETRY_NANOS as nat,
                        )
                    } else {
                        r is Wait && final(self).backoff == old(self).backoff
                    }
                },
                ServerEvent::Accepted { .. } => {
                    &&& final(self).backoff.interval() == initial_interval()
                    &&& r matches ServerAction::Handshake { timeout, .. } ==> timeout == old(
                        self,
                    ).config.handshake_timeout
                },
                ServerEvent::Update(Some(change)) => {
                    &&& final(self).services@ == services_after(old(self).services@, change)
                    &&& final(self).control_channels@ == channels_after(
                        old(self).control_channels@,
                        change,
                    )
                    &&& match channel_dropped(old(self).control_channels@, change) {
                        Some(handle) => r == ServerAction::Drop(handle),
                        None => r is Wait,
                    }
                },
                ServerEvent::Update(None) => r is Wait && final(self).same_tables(old(self)),
                ServerEvent::Shutdown => r is Stop,
                // These concern the limiter alone.
                ServerEvent::HandshakeEnded { .. } | ServerEvent::HandshakeAborted { .. }
                | ServerEvent::ReportDue => true,
            },
            // The services and the control channels.
            !(event matches ServerEvent::Update(Some(ConfigChange::ServerChange(_)))) ==> {
                &&& final(self).services@ == old(self).services@
                &&& final(self).control_channels@ == old(self).control_channels@
                &&& r !is Drop
            },
            event matches ServerEvent::Update(
                Some(ConfigChange::ServerChange(ServerServiceChange::Add(cfg))),
            ) ==> {
                let key = sha256(encode_utf8(cfg.name@));
                &&& final(self).services@ == old(self).services@.insert(key, cfg)
                &&& final(self).control_channels@ == old(self).control_channels@.remove(key)
                &&& old(self).control_channels@.contains_key(key) ==> r == ServerAction::Drop(
                    old(self).control_channels@[key].1,
                )
                &&& !old(self).control_channels@.contains_key(key) ==> r is Wait
            },
            event matches ServerEvent::Update(
                Some(ConfigChange::ServerChange(ServerServiceChange::Delete(name))),
            ) ==> {
                let key = sha256(encode_utf8(name@));
                &&& final(self).services@ == old(self).services@.remove(key)
                &&& final(self).control_channels@ == old(self).control_channels@.remove(key)
                &&& old(self).control_channels@.contains_key(key) ==> r == ServerAction::Drop(
                    old(self).control_channels@[key].1,
                )
                &&& !old(self).control_channels@.contains_key(key) ==> r is Wait
            },
            event matches ServerEvent::Update(Some(ConfigChange::Other)) ==> r is Wait,
            // The pauses.
            event matches ServerEvent::AcceptFailed { io } ==> {
                &&& io <==> r is Sleep
                &&& !io <==> r is Wait
                &&& io && old(self).backoff.interval() >= 200_000_000 ==> r
                    == ServerAction::<T>::Sleep(100_000_000)
                &&& r matches ServerAction::Sleep(delay) ==> delay <= 100_000_000
                &&& io && old(self).backoff.interval() * 3 >= 200_000_000
                    ==> final(self).backoff.interval() == 100_000_000
            },
            event is Accepted ==> final(self).backoff.interval() == 500_000_000,
            // The handshakes.
            final(self).ingress.global_bound() == old(self).ingress.global_bound(),
            final(self).ingress.per_ip_bound() == old(self).ingress.per_ip_bound(),
            event matches ServerEvent::Accepted { ip } ==> {
                let pending = old(self).ingress.pending();
                &&& r is Handshake || r is Reject
                &&& r is Handshake <==> pending.len() < old(self).ingress.global_bound()
                    && pending.count(ip) < old(self).ingress.per_ip_bound()
                &&& r matches ServerAction::Handshake { permit, timeout } ==> {
                    &&& permit.holder() == ip
                    &&& timeout == old(self).config.handshake_timeout
                    &&& final(self).ingress.pending() == pending.insert(ip)
                    &&& final(self).ingress.counts() == old(self).ingress.counts()
                }
                &&& r matches ServerAction::Reject(limit) ==> {
                    &&& final(self).ingress.pending() == pending
                    &&& limit == IngressLimit::Global <==> pending.len() >= old(
                        self,
                    ).ingress.global_bound()
                    &&& final(self).ingress.counts().rejected_global == (
                    if limit == IngressLimit::Global {
                        (old(self).ingress.counts().rejected_global + 1) % (u64::MAX + 1)
                    } else {
                        old(self).ingress.counts().rejected_global as int
                    })
                    &&& final(self).ingress.counts().rejected_peer == (
                    if limit == IngressLimit::Peer {
                        (old(self).ingress.counts().rejected_peer + 1) % (u64::MAX + 1)
                    } else {
                        old(self).ingress.counts().rejected_peer as int
                    })
                    &&& final(self).ingress.counts().completed == old(
                        self,
                    ).ingress.counts().completed
                    &&& final(self).ingress.counts().failed == old(self).ingress.counts().failed
                    &&& final(self).ingress.counts().timed_out == old(
                        self,
                    ).ingress.counts().timed_out
                }
            },
            event matches ServerEvent::HandshakeEnded { permit, outcome } ==> {
                let before = old(self).ingress.counts();
                let after = final(self).ingress.counts();
                &&& r is Wait
                &&& old(self).ingress.pending().count(permit.holder()) > 0 ==> old(
                    self,
                ).ingress.pending() == final(self).ingress.pending().insert(permit.holder())
                &&& old(self).ingress.pending().count(permit.holder()) == 0
                    ==> final(self).ingress.pending() == old(self).ingress.pending()
                &&& after.completed == (if outcome is Completed {
                    (before.completed + 1) % (u64::MAX + 1)
                } else {
                    before.completed as int
                })
                &&& after.failed == (if outcome is Failed {
                    (before.failed + 1) % (u64::MAX + 1)
                } else {
                    before.failed as int
                })
                &&& after.timed_out == (if outcome is TimedOut {
                    (before.timed_out + 1) % (u64::MAX + 1)
                } else {
                    before.timed_out as int
                })
                &&& after.rejected_global == before.rejected_global
                &&& after.rejected_peer == before.rejected_peer
            },
            event matches ServerEvent::HandshakeAborted { permit } ==> {
                &&& r is Wait
                &&& old(self).ingress.pending().count(permit.holder()) > 0 ==> old(
                    self,
                ).ingress.pending() == final(self).ingress.pending().insert(permit.holder())
                &&& old(self).ingress.pending().count(permit.holder()) == 0
                    ==> final(self).ingress.pending() == old(self).ingress.pending()
                &&& final(self).ingress.counts() == old(self).ingress.counts()
            },
            event is ReportDue ==> {
                let before = old(self).ingress.counts();
                let after = final(self).ingress.counts();
                &&& r is Report || r is Wait
                &&& r is Wait <==> {
                    &&& before.completed == 0 && before.failed == 0 && before.timed_out == 0
                    &&& before.rejected_global == 0 && before.rejected_peer == 0
                }
                &&& r matches ServerAction::Report(report) ==> {
                    &&& report.counts == before
                    &&& report.active == old(self).ingress.pending().len()
                    &&& report.peers == old(self).ingress.pending().dom().len()
                }
                &&& final(self).ingress.pending() == old(self).ingress.pending()
                &&& after.completed == 0 && after.failed == 0 && after.timed_out == 0
                &&& after.rejected_global == 0 && after.rejected_peer == 0
            },
            event is AcceptFailed || event is Update || event is Shutdown ==> final(self).ingress
                == old(self).ingress,
    {
        match event {
            ServerEvent::AcceptFailed { io } => {
                if io {
                    match self.backoff.next_backoff() {
                        Some(delay) => ServerAction::Sleep(delay),
                        None => ServerAction::Stop,
                    }
                } else {
                    ServerAction::Wait
                }
            },
            ServerEvent::Accepted { ip } => {
                self.backoff.reset();
                match self.ingress.try_acquire(ip) {
                    Ok(permit) => ServerAction::Handshake {
                        permit,
                        timeout: self.config.handshake_timeout,
                    },
                    Err(limit) => ServerAction::Reject(limit),
                }
            },
            ServerEvent::HandshakeEnded { permit, outcome } => {
                self.ingress.record_outcome(&outcome);
                self.ingress.release(permit);
                ServerAction::Wait
            },
            ServerEvent::HandshakeAborted { permit } => {
                self.ingress.release(permit);
                ServerAction::Wait
            },
            ServerEvent::Update(Some(change)) => {
                match self.handle_hot_reload(change) {
                    Some(handle) => ServerAction::Drop(handle),
                    None => ServerAction::Wait,
                }
            },
            ServerEvent::Update(None) => ServerAction::Wait,
            ServerEvent::ReportDue => {
                match self.ingress.report() {
                    Some(report) => ServerAction::Report(report),
                    None => ServerAction::Wait,
                }
            },
            ServerEvent::Shutdown => ServerAction::Stop,
        }
    }

    /// Brings the services in line with a change, and hands back the control
    /// channel that is to be dropped for it.
    pub fn handle_hot_reload(&mut self, change: ConfigChange) -> (r: Option<
        ControlChannelHandle<T>,
    >)
        requires
            old(self).wf(),
        ensures
            final(self).wf(),
            final(self).config == old(self).config,
            final(self).ingress == old(self).ingress,
            final(self).backoff == old(self).backoff,
            final(self).services@ == services_after(old(self).services@, change),
            final(self).control_channels@ == channels_after(old(self).control_channels@, change),
            r == channel_dropped(old(self).control_channels@, change),
            change matches ConfigChange::ServerChange(ServerServiceChange::Add(cfg)) ==> {
                let key = sha256(encode_utf8(cfg.name@));
                &&& final(self).services@ == old(self).services@.insert(key, cfg)
                &&& final(self).control_channels@ == old(self).control_channels@.remove(key)
                &&& old(self).control_channels@.contains_key(key) ==> r == Some(
                    old(self).control_channels@[key].1,
                )
                &&& !old(self).control_channels@.contains_key(key) ==> r is None
            },
            change matches ConfigChange::ServerChange(ServerServiceChange::Delete(name)) ==> {
                let key = sha256(encode_utf8(name@));
                &&& final(self).services@ == old(self).services@.remove(key)
                &&& final(self).control_channels@ == old(self).control_channels@.remove(key)
                &&& old(self).control_channels@.contains_key(key) ==> r == Some(
                    old(self).control_channels@[key].1,
                )
                &&& !old(self).control_channels@.contains_key(key) ==> r is None
            },
            change is Other ==> {
                &&& final(self).services@ == old(self).services@
                &&& final(self).control_channels@ == old(self).control_channels@
                &&& r is None
            },
    {
        match change {
            ConfigChange::ServerChange(ServerServiceChange::Add(cfg)) => {
                let hash = name_digest(cfg.name.as_str());
                let _ = self.services.insert(hash, cfg);
                self.control_channels.remove1(&hash)
            },
            ConfigChange::ServerChange(ServerServiceChange::Delete(name)) => {
                let hash = name_digest(name.as_str());
                let _ = self.services.remove(&hash);
                self.control_channels.remove1(&hash)
            },
            ConfigChange::Other => None,
        }
    }

    /// Closes the session with this key, as its control channel has ended, and hands
    /// back the handle that is to be dropped. A session that is gone already changes
    /// nothing.
    pub fn close_session(&mut self, session_key: &Digest) -> (r: Option<ControlChannelHandle<T>>)
        requires
            old(self).wf(),
        ensures
            final(self).wf(),
            final(self).config == old(self).config,
            final(self).services == old(self).services,
            final(self).ingress == old(self).ingress,
            final(self).backoff == old(self).backoff,
            final(self).control_channels@ == session_closed(
                old(self).control_channels@,
                *session_key,
            ),
            r == if has_second(old(self).control_channels@, *session_key) {
                let service = first_of(old(self).control_channels@, *session_key);
                Some(old(self).control_channels@[service].1)
            } else {
                None
            },
            !has_second(final(self).control_channels@, *session_key),
            match r {
                Some(handle) => exists|service: Digest| #[trigger]
                    old(self).control_channels@.contains_key(service) && old(
                        self,
                    ).control_channels@[service] == (*session_key, handle),
                None => final(self).control_channels@ == old(self).control_channels@,
            },
            forall|service: Digest| #[trigger]
                final(self).control_channels@.contains_key(service) <==> {
                    &&& old(self).control_channels@.contains_key(service)
                    &&& old(self).control_channels@[service].0 != *session_key
                },
            forall|service: Digest| #[trigger]
                final(self).control_channels@.contains_key(service)
                    ==> final(self).control_channels@[service]
                    == old(self).control_channels@[service],
    {
        let ghost before = self.control_channels@;
        let dropped = self.control_channels.remove2(session_key);
        proof {
            let after = self.control_channels@;
            assert forall|service: Digest| #[trigger] after.contains_key(service) <==> {
                &&& before.contains_key(service)
                &&& before[service].0 != *session_key
            } by {
                if before.contains_key(service) && before[service].0 == *session_key {
                    assert(has_second(before, *session_key));
                    assert(before.contains_key(first_of(before, *session_key)));
                }
            }
        }
        dropped
    }
}

/// The interval that pauses are drawn around after `failures` failures to accept
/// in a row.
pub open spec fn accept_interval(failures: nat) -> nat
    decreases failures,
{
    if failures == 0 {
        initial_interval()
    } else {
        next_interval(accept_interval((failures - 1) as nat), ACCEPT_RETRY_NANOS as nat)
    }
}

/// From the second failure to accept in a row on, the pauses are drawn around the
/// longest pause of the server.
pub proof fn law_accept_interval_settles(failures: nat)
    requires
        failures >= 1,
    ensures
        accept_interval(failures) == ACCEPT_RETRY_NANOS,
    decreases failures,
{
    if failures > 1 {
        law_accept_interval_settles((failures - 1) as nat);
    } else {
        assert(accept_interval(0) == initial_interval());
    }
}

/// A server that follows a change has the services that it would have been started
/// with under the changed configuration. A name that is deleted must not share its
/// digest with another one.
pub proof fn law_reload_gives_the_changed_configuration(
    services: Map<Digest, ServerServiceConfig>,
    configured: Seq<(Seq<char>, ServiceView)>,
    change: ConfigChange,
)
    requires
        services_view(services) == service_table(configured),
        change matches ConfigChange::ServerChange(ServerServiceChange::Delete(name)) ==> forall|
            i: int,
        |
            0 <= i < configured.len() && (#[trigger] configured[i]).0 != name@ ==> service_digest(
                configured[i].0,
            ) != service_digest(name@),
    ensures
        services_view(services_after(services, change)) == service_table(
            configured_after(configured, change),
        ),
{
    match change {
        ConfigChange::ServerChange(ServerServiceChange::Add(cfg)) => {
            let key = service_digest(cfg.name@);
            assert(services_view(services.insert(key, cfg)) =~= services_view(services).insert(
                key,
                cfg@,
            ));
            law_table_with_service(configured, cfg.name@, cfg@);
        },
        ConfigChange::ServerChange(ServerServiceChange::Delete(name)) => {
            let key = service_digest(name@);
            assert(services_view(services.remove(key)) =~= services_view(services).remove(key));
            law_table_without_service(configured, name@);
        },
        ConfigChange::Other => {},
    }
}

/// A server that has stopped leaves nothing behind: once the handshakes that were
/// under way have ended or were broken off, and the last report was made, none is
/// under way and all counts are zero. The report says that nothing is under way,
/// and whatever was counted is in it.
pub proof fn law_shutdown_leaves_nothing(
    limiters: Seq<IngressLimiter>,
    ips: Seq<IpAddr>,
    after: &IngressLimiter,
    r: Option<IngressReport>,
)
    requires
        all_released(limiters, ips),
        limiters.first().pending() == ips.to_multiset(),
        IngressLimiter::reported(&limiters.last(), after, r),
    ensures
        after.pending() == Multiset::<IpAddr>::empty(),
        after.counts() == IngressStats::zero(),
        match r {
            Some(report) => {
                &&& report.counts == limiters.last().counts()
                &&& report.active == 0
                &&& report.peers == 0
            },
            None => limiters.last().counts() == IngressStats::zero(),
        },
{
    law_all_released_leaves_nothing_pending(limiters, ips);
    assert(limiters.last().pending().dom() =~= Set::<IpAddr>::empty());
}

/// How many connections `events` bring.
pub open spec fn connections<E>(events: Seq<ServerEvent<E>>) -> nat
    decreases events.len(),
{
    if events.len() == 0 {
        0
    } else {
        connections(events.drop_last()) + if events.last() is Accepted {
            1nat
        } else {
            0
        }
    }
}

/// How many handshakes are broken off by `events`.
pub open spec fn broken_off<E>(events: Seq<ServerEvent<E>>) -> nat
    decreases events.len(),
{
    if events.len() == 0 {
        0
    } else {
        broken_off(events.drop_last()) + if events.last() is HandshakeAborted {
            1nat
        } else {
            0
        }
    }
}

/// How many handshakes end, or are broken off, by `events`.
pub open spec fn handshakes_over<E>(events: Seq<ServerEvent<E>>) -> nat
    decreases events.len(),
{
    if events.len() == 0 {
        0
    } else {
        handshakes_over(events.drop_last()) + if events.last() is HandshakeEnded
            || events.last() is HandshakeAborted {
            1nat
        } else {
            0
        }
    }
}

/// How many handshakes are begun by `actions`.
pub open spec fn handshakes_begun<T>(actions: Seq<ServerAction<T>>) -> nat
    decreases actions.len(),
{
    if actions.len() == 0 {
        0
    } else {
        handshakes_begun(actions.drop_last()) + if actions.last() is Handshake {
            1nat
        } else {
            0
        }
    }
}

/// What the reports among `actions` count, in all.
pub open spec fn reported_total<T>(actions: Seq<ServerAction<T>>) -> nat
    decreases actions.len(),
{
    if actions.len() == 0 {
        0
    } else {
        reported_total(actions.drop_last()) + match actions.last() {
            ServerAction::Report(report) => report.counts.total(),
            _ => 0,
        }
    }
}

/// What the reports among `actions` say of one counter, in all.
pub open spec fn reported_count<T>(actions: Seq<ServerAction<T>>, counter: Counter) -> nat
    decreases actions.len(),
{
    if actions.len() == 0 {
        0
    } else {
        reported_count(actions.drop_last(), counter) + match actions.last() {
            ServerAction::Report(report) => report.counts.count(counter),
            _ => 0,
        }
    }
}

/// How many handshakes ended, and connections were refused, in the way that the
/// counter counts.
pub open spec fn happened<E, T>(
    events: Seq<ServerEvent<E>>,
    actions: Seq<ServerAction<T>>,
    counter: Counter,
) -> nat
    decreases events.len(),
{
    if events.len() == 0 {
        0
    } else {
        let here = match (events.last(), actions.last()) {
            (ServerEvent::HandshakeEnded { outcome, .. }, _) => counter_of_outcome(outcome)
                == counter,
            (ServerEvent::Accepted { .. }, ServerAction::Reject(limit)) => counter_of_limit(limit)
                == counter,
            _ => false,
        };
        happened(events.drop_last(), actions.drop_last(), counter) + if here {
            1nat
        } else {
            0
        }
    }
}

/// The address whose permit an event gives back.
pub open spec fn gives_back<E>(event: ServerEvent<E>) -> Option<IpAddr> {
    match event {
        ServerEvent::HandshakeEnded { permit, .. } => Some(permit.holder()),
        ServerEvent::HandshakeAborted { permit } => Some(permit.holder()),
        _ => None,
    }
}

/// A run of a fresh server: `limiters` are what its limiter is before the first of
/// `events` and after each, and `actions` what the server does on each. The permits
/// that come back are of handshakes under way.
pub open spec fn ingress_run<E, T>(
    limiters: Seq<IngressLimiter>,
    events: Seq<ServerEvent<E>>,
    actions: Seq<ServerAction<T>>,
) -> bool {
    &&& limiters.len() == events.len() + 1
    &&& actions.len() == events.len()
    &&& limiters.first().pending() == Multiset::<IpAddr>::empty()
    &&& limiters.first().counts() == IngressStats::zero()
    &&& forall|i: int|
        0 <= i < events.len() ==> ingress_step(
            &limiters[i],
            #[trigger] events[i],
            &limiters[i + 1],
            actions[i],
        )
    &&& forall|i: int|
        0 <= i < events.len() ==> (gives_back(#[trigger] events[i]) matches Some(ip)
            ==> limiters[i].pending().count(ip) > 0)
}

proof fn lemma_run_before_last<E, T>(
    limiters: Seq<IngressLimiter>,
    events: Seq<ServerEvent<E>>,
    actions: Seq<ServerAction<T>>,
)
    requires
        ingress_run(limiters, events, actions),
        events.len() > 0,
    ensures
        ingress_run(limiters.drop_last(), events.drop_last(), actions.drop_last()),
        ingress_step(
            &limiters.drop_last().last(),
            events.last(),
            &limiters.last(),
            actions.last(),
        ),
        gives_back(events.last()) matches Some(ip)
            ==> limiters.drop_last().last().pending().count(ip) > 0,
{
    let (l, e, a) = (limiters.drop_last(), events.drop_last(), actions.drop_last());
    let last = events.len() - 1;
    assert(events[last] == events.last());
    assert forall|i: int| 0 <= i < e.len() implies ingress_step(
        &l[i],
        #[trigger] e[i],
        &l[i + 1],
        a[i],
    ) by {
        assert(e[i] == events[i]);
    }
    assert forall|i: int| 0 <= i < e.len() implies (gives_back(#[trigger] e[i]) matches Some(ip)
        ==> l[i].pending().count(ip) > 0) by {
        assert(e[i] == events[i]);
    }
}

/// At every moment of a run each connection that has come is accounted for exactly
/// once: a report has counted it, its handshake was broken off, or the limiter still
/// accounts for it. The handshakes under way are those begun and not over. Up to as
/// many connections are meant as a counter can hold.
pub proof fn law_run_accounts_for_every_connection<E, T>(
    limiters: Seq<IngressLimiter>,
    events: Seq<ServerEvent<E>>,
    actions: Seq<ServerAction<T>>,
)
    requires
        ingress_run(limiters, events, actions),
        connections(events) <= u64::MAX,
    ensures
        connections(events) == reported_total(actions) + broken_off(events)
            + limiters.last().accounted(),
        limiters.last().pending().len() + handshakes_over(events) == handshakes_begun(actions),
    decreases events.len(),
{
    if events.len() > 0 {
        lemma_run_before_last(limiters, events, actions);
        let before = limiters.drop_last().last();
        law_run_accounts_for_every_connection(
            limiters.drop_last(),
            events.drop_last(),
            actions.drop_last(),
        );
        if let Some(ip) = gives_back(events.last()) {
            assert(before.pending().len() > 0) by {
                assert(before.pending() =~= before.pending().remove(ip).insert(ip));
            }
        }
    }
}

/// Over a run the reports tell what has happened: for each counter, what they say
/// and what is counted at the end add up to the handshakes and refusals of that kind,
/// as long as these fit the counter.
pub proof fn law_run_reports_what_happened<E, T>(
    limiters: Seq<IngressLimiter>,
    events: Seq<ServerEvent<E>>,
    actions: Seq<ServerAction<T>>,
    counter: Counter,
)
    requires
        ingress_run(limiters, events, actions),
        happened(events, actions, counter) <= u64::MAX,
    ensures
        reported_count(actions, counter) + limiters.last().counts().count(counter) == happened(
            events,
            actions,
            counter,
        ),
    decreases events.len(),
{
    if events.len() > 0 {
        lemma_run_before_last(limiters, events, actions);
        law_run_reports_what_happened(
            limiters.drop_last(),
            events.drop_last(),
            actions.drop_last(),
            counter,
        );
    }
}

/// What is counted happens to a connection that has come: it was refused, or its
/// handshake was begun and is over.
proof fn lemma_happened_to_connections<E, T>(
    limiters: Seq<IngressLimiter>,
    events: Seq<ServerEvent<E>>,
    actions: Seq<ServerAction<T>>,
    counter: Counter,
)
    requires
        ingress_run(limiters, events, actions),
    ensures
        happened(events, actions, counter) + handshakes_begun(actions) <= connections(events)
            + handshakes_over(events),
    decreases events.len(),
{
    if events.len() > 0 {
        lemma_run_before_last(limiters, events, actions);
        lemma_happened_to_connections(
            limiters.drop_last(),
            events.drop_last(),
            actions.drop_last(),
            counter,
        );
    }
}

/// Once every handshake of a run is over and the last report was made, the
/// connections that came are those that the reports count and those whose handshake
/// was broken off, and each kind was reported as often as it happened.
pub proof fn law_finished_run_is_fully_reported<E, T>(
    limiters: Seq<IngressLimiter>,
    events: Seq<ServerEvent<E>>,
    actions: Seq<ServerAction<T>>,
    counter: Counter,
)
    requires
        ingress_run(limiters, events, actions),
        connections(events) <= u64::MAX,
        handshakes_over(events) == handshakes_begun(actions),
        events.len() > 0,
        events.last() is ReportDue,
    ensures
        connections(events) == reported_total(actions) + broken_off(events),
        reported_count(actions, counter) == happened(events, actions, counter),
        limiters.last().pending().len() == 0,
{
    lemma_run_before_last(limiters, events, actions);
    law_run_accounts_for_every_connection(limiters, events, actions);
    lemma_happened_to_connections(limiters, events, actions, counter);
    law_run_reports_what_happened(limiters, events, actions, counter);
}

/// After a service was added or changed, its clients are admitted by the new
/// token and by nothing else.
pub proof fn law_added_service_admits_by_its_token(
    services: Map<Digest, ServerServiceConfig>,
    cfg: ServerServiceConfig,
    nonce: Digest,
    proof_digest: Digest,
)
    requires
        cfg.token is Some,
    ensures
        ({
            let after = services_after(
                services,
                ConfigChange::ServerChange(ServerServiceChange::Add(cfg)),
            );
            let handshake = ControlHandshake { service_digest: service_digest(cfg.name@), nonce };
            handshake.answer(after, proof_digest) == Ack::Accepted <==> proof_digest
                == session_key_of(cfg.token->0@, nonce)
        }),
        ({
            let after = services_after(
                services,
                ConfigChange::ServerChange(ServerServiceChange::Add(cfg)),
            );
            let key = sha256(encode_utf8(cfg.name@));
            let handshake = ControlHandshake { service_digest: key, nonce };
            &&& after.contains_key(key) && after[key] == cfg
            &&& handshake.answer(after, proof_digest) == Ack::Accepted <==> proof_digest == sha256(
                encode_utf8(cfg.token->0@) + nonce@,
            )
        }),
{
}

/// After a service was deleted, its clients are told that there is none.
pub proof fn law_deleted_service_does_not_exist(
    services: Map<Digest, ServerServiceConfig>,
    name: String,
    nonce: Digest,
    proof_digest: Digest,
)
    ensures
        ({
            let after = services_after(
                services,
                ConfigChange::ServerChange(ServerServiceChange::Delete(name)),
            );
            let handshake = ControlHandshake { service_digest: service_digest(name@), nonce };
            handshake.answer(after, proof_digest) == Ack::ServiceNotExist
        }),
        ({
            let after = services_after(
                services,
                ConfigChange::ServerChange(ServerServiceChange::Delete(name)),
            );
            !after.contains_key(sha256(encode_utf8(name@)))
        }),
{
}

/// A change leaves the other services alone: their clients are answered as
/// before.
pub proof fn law_reload_leaves_other_services_alone(
    services: Map<Digest, ServerServiceConfig>,
    change: ConfigChange,
    handshake: ControlHandshake,
    proof_digest: Digest,
)
    requires
        changed_service(change) != Some(handshake.service_digest),
    ensures
        handshake.answer(services_after(services, change), proof_digest) == handshake.answer(
            services,
            proof_digest,
        ),
{
}

/// A change is about the service of its name alone: under every other digest there is
/// what was there before, among the services and among the control channels.
pub proof fn law_reload_is_about_one_name<T>(
    services: Map<Digest, ServerServiceConfig>,
    channels: Map<Digest, (Digest, ControlChannelHandle<T>)>,
    change: ConfigChange,
    name: Seq<char>,
    key: Digest,
)
    requires
        match change {
            ConfigChange::ServerChange(ServerServiceChange::Add(cfg)) => cfg.name@ == name,
            ConfigChange::ServerChange(ServerServiceChange::Delete(gone)) => gone@ == name,
            ConfigChange::Other => true,
        },
    ensures
        key != sha256(encode_utf8(name)) || change is Other ==> {
            &&& services_after(services, change).contains_key(key) <==> services.contains_key(key)
            &&& services.contains_key(key) ==> services_after(services, change)[key]
                == services[key]
            &&& channels_after(channels, change).contains_key(key) <==> channels.contains_key(key)
            &&& channels.contains_key(key) ==> channels_after(channels, change)[key]
                == channels[key]
        },
        change is ServerChange ==> {
            let gone = sha256(encode_utf8(name));
            &&& !channels_after(channels, change).contains_key(gone)
            &&& channels.contains_key(gone) ==> channel_dropped(channels, change) == Some(
                channels[gone].1,
            )
            &&& !channels.contains_key(gone) ==> channel_dropped(channels, change) is None
        },
        change is Other ==> channel_dropped(channels, change) is None,
{
}

/// A connection is admitted whenever both bounds leave room and refused otherwise,
/// whatever has happened before; no other event begins or refuses a handshake.
pub proof fn law_server_admits_within_the_bounds<E, T>(
    before: &IngressLimiter,
    event: ServerEvent<E>,
    after: &IngressLimiter,
    action: ServerAction<T>,
)
    requires
        before.wf(),
        ingress_step(before, event, after, action),
    ensures
        event matches ServerEvent::Accepted { ip } ==> {
            &&& action is Handshake <==> before.pending().len() < before.global_bound()
                && before.pending().count(ip) < before.per_ip_bound()
            &&& action is Reject <==> before.pending().len() == before.global_bound()
                || before.pending().count(ip) == before.per_ip_bound()
        },
        event !is Accepted ==> action !is Handshake && action !is Reject,
        event !is ReportDue ==> action !is Report,
        after.global_bound() == before.global_bound(),
        after.per_ip_bound() == before.per_ip_bound(),
{
    before.law_bounds();
}

/// A change closes the session of the service that it is about, so that its data
/// channels find nothing any more, and leaves the other sessions as they were.
pub proof fn law_reload_closes_only_the_changed_session<T>(
    channels: Map<Digest, (Digest, ControlChannelHandle<T>)>,
    change: ConfigChange,
    session_key: Digest,
)
    requires
        second_keys_distinct(channels),
        has_second(channels, session_key),
    ensures
        ({
            let service = first_of(channels, session_key);
            let after = channels_after(channels, change);
            &&& changed_service(change) == Some(service) ==> !has_second(after, session_key)
            &&& changed_service(change) != Some(service) ==> {
                &&& has_second(after, session_key)
                &&& first_of(after, session_key) == service
                &&& after[service] == channels[service]
            }
        }),
{
    let service = first_of(channels, session_key);
    let after = channels_after(channels, change);
    assert(channels.contains_key(service) && channels[service].0 == session_key);
    if has_second(after, session_key) {
        let k = first_of(after, session_key);
        assert(after.contains_key(k) && channels.contains_key(k));
    }
    if changed_service(change) != Some(service) {
        assert(after.contains_key(service) && after[service].0 == session_key);
    }
}

} // verus!
