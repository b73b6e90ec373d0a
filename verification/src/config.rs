//! What the server reads from its configuration.
use vstd::prelude::*;

verus! {

/// The kind of traffic that a service takes in.
#[derive(Debug, Clone, Copy, PartialEq, Eq, Structural)]
pub enum ServiceType {
    Tcp,
    Udp,
    SocketStream,
}

/// The transport that clients connect over.
#[derive(Debug, Clone, Copy, PartialEq, Eq, Structural)]
pub enum TransportType {
    Tcp,
    Tls,
    Noise,
    Websocket,
}

/// One entry of `[server.services]`.
#[derive(Debug)]
pub struct ServerServiceConfig {
    pub service_type: ServiceType,
    pub name: String,
    pub bind_addr: String,
    pub proxy_protocol: Option<String>,
    pub token: Option<String>,
}

/// A [`ServerServiceConfig`] with its strings as sequences of characters.
pub struct ServiceView {
    pub service_type: ServiceType,
    pub name: Seq<char>,
    pub bind_addr: Seq<char>,
    pub proxy_protocol: Option<Seq<char>>,
    pub token: Option<Seq<char>>,
}

/// The characters of an optional string.
pub open spec fn opt_view(s: Option<String>) -> Option<Seq<char>> {
    match s {
        Some(s) => Some(s@),
        None => None,
    }
}

impl View for ServerServiceConfig {
    type V = ServiceView;

    open spec fn view(&self) -> ServiceView {
        ServiceView {
            service_type: self.service_type,
            name: self.name@,
            bind_addr: self.bind_addr@,
            proxy_protocol: opt_view(self.proxy_protocol),
            token: opt_view(self.token),
        }
    }
}

fn clone_opt(s: &Option<String>) -> (r: Option<String>)
    ensures
        opt_view(r) == opt_view(*s),
{
    match s {
        Some(s) => Some(s.clone()),
        None => None,
    }
}

impl Clone for ServerServiceConfig {
    fn clone(&self) -> (r: Self)
        ensures
            r@ == self@,
            r.service_type == self.service_type,
            r.name@ == self.name@,
            r.bind_addr@ == self.bind_addr@,
            r.proxy_protocol is Some <==> self.proxy_protocol is Some,
            self.proxy_protocol is Some ==> r.proxy_protocol->0@ == self.proxy_protocol->0@,
            r.token is Some <==> self.token is Some,
            self.token is Some ==> r.token->0@ == self.token->0@,
    {
        ServerServiceConfig {
            service_type: self.service_type,
            name: self.name.clone(),
            bind_addr: self.bind_addr.clone(),
            proxy_protocol: clone_opt(&self.proxy_protocol),
            token: clone_opt(&self.token),
        }
    }
}

/// Two services look the same exactly when they agree in every field.
pub proof fn law_view_shows_every_field(a: ServerServiceConfig, b: ServerServiceConfig)
    ensures
        a@ == b@ <==> {
            &&& a.service_type == b.service_type
            &&& a.name@ == b.name@
            &&& a.bind_addr@ == b.bind_addr@
            &&& a.proxy_protocol is Some <==> b.proxy_protocol is Some
            &&& a.proxy_protocol is Some ==> a.proxy_protocol->0@ == b.proxy_protocol->0@
            &&& a.token is Some <==> b.token is Some
            &&& a.token is Some ==> a.token->0@ == b.token->0@
        },
        a@.service_type == a.service_type && a@.name == a.name@ && a@.bind_addr == a.bind_addr@,
        a.token matches Some(token) ==> a@.token == Some(token@),
        a.token is None ==> a@.token is None,
        a.proxy_protocol matches Some(name) ==> a@.proxy_protocol == Some(name@),
        a.proxy_protocol is None ==> a@.proxy_protocol is None,
{
}

/// The `[server.transport]` block.
#[derive(Debug, Clone, Copy, PartialEq, Eq, Structural)]
pub struct TransportConfig {
    pub transport_type: TransportType,
}

/// The `[server]` block. `services` lists the entries of `[server.services]`
/// under their names.
#[derive(Debug)]
pub struct ServerConfig {
    pub bind_addr: String,
    pub services: Vec<(String, ServerServiceConfig)>,
    pub transport: TransportConfig,
    pub max_pending_handshakes: usize,
    pub max_pending_handshakes_per_ip: usize,
    /// In seconds.
    pub handshake_timeout: u64,
    /// In seconds; no heartbeat is sent if it is zero.
    pub heartbeat_interval: u64,
}

impl ServerConfig {
    /// The configured services, in their order.
    pub open spec fn services_view(&self) -> Seq<(Seq<char>, ServiceView)> {
        Seq::new(self.services@.len(), |i: int| (self.services@[i].0@, self.services@[i].1@))
    }
}

/// The whole configuration.
#[derive(Debug)]
pub struct Config {
    pub server: Option<ServerConfig>,
}

/// A change to one of the server's services while it runs.
#[derive(Debug)]
pub enum ServerServiceChange {
    /// The service is new, or its configuration is.
    Add(ServerServiceConfig),
    /// The service of this name is gone.
    Delete(String),
}

/// A change of the configuration while the server runs.
#[derive(Debug)]
pub enum ConfigChange {
    ServerChange(ServerServiceChange),
    /// A change that does not concern a server.
    Other,
}

} // verus!
