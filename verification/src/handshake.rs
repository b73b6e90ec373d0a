//! The handshakes that open control channels and data channels.
use crate::channel::{
    law_channel_is_found_by_either_key, ControlChannelHandle, ControlChannelMap, ControlChannelPlan,
};
use crate::config::ServerServiceConfig;
use crate::digest::{digest, hex_encode, hex_text, random_nonce, sha256, Digest};
use crate::maps::{first_of, has_second, second_keys_distinct, Key};
use crate::protocol::{Ack, Hello, CURRENT_PROTO_VERSION};
use crate::services::ServiceMap;
use vstd::prelude::*;
use vstd::utf8::encode_utf8;

verus! {

/// Why a connection was turned away.
#[derive(Debug)]
pub enum HandshakeError {
    /// No service has this digest, given in hexadecimal.
    NoSuchService(String),
    /// The client of the service of this name does not know the token.
    AuthFailed(String),
    /// No control channel has the session key that the data channel gave.
    IncorrectNonce,
    /// The control channel has gone meanwhile.
    StaleControlChannel,
}

impl HandshakeError {
    /// The error in words.
    pub open spec fn text(self) -> Seq<char> {
        match self {
            HandshakeError::NoSuchService(digest) => "No such a service "@ + digest@,
            HandshakeError::AuthFailed(name) => "Service "@ + name@ + " failed the authentication"@,
            HandshakeError::IncorrectNonce => "Data channel has incorrect nonce"@,
            HandshakeError::StaleControlChannel => "Data channel for a stale control channel"@,
        }
    }

    /// The error in words.
    pub fn message(&self) -> (r: String)
        ensures
            r@ == self.text(),
            match self {
                HandshakeError::NoSuchService(digest) => r@ == "No such a service "@ + digest@,
                HandshakeError::AuthFailed(name) => r@ == "Service "@ + name@
                    + " failed the authentication"@,
                HandshakeError::IncorrectNonce => r@ == "Data channel has incorrect nonce"@,
                HandshakeError::StaleControlChannel => r@
                    == "Data channel for a stale control channel"@,
            },
    {
        match self {
            HandshakeError::NoSuchService(digest) => {
                let mut text = "No such a service ".to_owned();
                text.append(digest.as_str());
                text
            },
            HandshakeError::AuthFailed(name) => {
                let mut text = "Service ".to_owned();
                text.append(name.as_str());
                text.append(" failed the authentication");
                text
            },
            HandshakeError::IncorrectNonce => "Data channel has incorrect nonce".to_owned(),
            HandshakeError::StaleControlChannel =>
                "Data channel for a stale control channel".to_owned(),
        }
    }
}

/// The error of a refused client names in full the service that it asked for: by its
/// digest if there is none, by its name if the proof was bad.
pub proof fn law_refusal_names_the_service(digest: String, name: String)
    ensures
        ({
            let missing = HandshakeError::NoSuchService(digest).text();
            let start = "No such a service "@.len() as int;
            &&& missing.subrange(0, start) == "No such a service "@
            &&& missing.subrange(start, missing.len() as int) == digest@
        }),
        ({
            let failed = HandshakeError::AuthFailed(name).text();
            let start = "Service "@.len() as int;
            let end = start + name@.len();
            &&& failed.subrange(0, start) == "Service "@
            &&& failed.subrange(start, end) == name@
            &&& failed.subrange(end, failed.len() as int) == " failed the authentication"@
        }),
{
}

/// What a connection asks for.
#[derive(Debug, Clone, Copy)]
pub enum Connection {
    /// A control channel for the service with this digest.
    Control(Digest),
    /// A data channel for the session with this key.
    Data(Digest),
}

/// What a connection asks for by its first message. The version it names makes
/// no difference.
pub fn handle_connection(hello: Hello) -> (r: Connection)
    ensures
        r == match hello {
            Hello::ControlChannelHello(_, service_digest) => Connection::Control(service_digest),
            Hello::DataChannelHello(_, nonce) => Connection::Data(nonce),
        },
{
    match hello {
        Hello::ControlChannelHello(_, service_digest) => Connection::Control(service_digest),
        Hello::DataChannelHello(_, nonce) => Connection::Data(nonce),
    }
}

/// The key of the session that a client opens with `token` and `nonce`: the
/// digest of the one followed by the other.
pub open spec fn session_key_of(token: Seq<char>, nonce: Digest) -> Digest {
    sha256(encode_utf8(token) + nonce@)
}

fn session_key(token: &str, nonce: &Digest) -> (r: Digest)
    ensures
        r == session_key_of(token@, *nonce),
        r == sha256(encode_utf8(token@) + nonce@),
{
    let mut concat: Vec<u8> = vstd::slice::slice_to_vec(token.as_bytes());
    concat.extend_from_slice(nonce.as_slice());
    assert(concat@ =~= encode_utf8(token@) + nonce@);
    digest(concat.as_slice())
}

/// An answer that turns the client away, and the error that the handshake ends
/// with.
#[derive(Debug)]
pub struct Refusal {
    pub ack: Ack,
    pub error: HandshakeError,
}

/// A control channel's handshake after the server has said hello.
#[derive(Debug)]
pub struct ControlHandshake {
    pub service_digest: Digest,
    pub nonce: Digest,
}

/// A control channel's handshake that waits for the client's proof.
#[derive(Debug)]
pub struct PendingAuth {
    pub service_digest: Digest,
    pub session_key: Digest,
    pub service: ServerServiceConfig,
}

/// A control channel's handshake that has succeeded. What is left is to send
/// [`Ack::Accepted`] and to put the channel in place.
#[derive(Debug)]
pub struct Authenticated<T> {
    pub service_digest: Digest,
    pub session_key: Digest,
    pub service: ServerServiceConfig,
    /// The service's control channel up to now, which is to be dropped.
    pub previous: Option<ControlChannelHandle<T>>,
}

impl ControlHandshake {
    /// What the client of the handshake has to prove with: the session key of
    /// the service's token and the handshake's nonce.
    pub open spec fn expected_key(self, services: Map<Digest, ServerServiceConfig>) -> Digest {
        session_key_of(services[self.service_digest].token->0@, self.nonce)
    }

    /// How the handshake is answered, with these services, to a client that
    /// proves itself with `proof_digest`.
    pub open spec fn answer(
        self,
        services: Map<Digest, ServerServiceConfig>,
        proof_digest: Digest,
    ) -> Ack {
        if !services.contains_key(self.service_digest) {
            Ack::ServiceNotExist
        } else if proof_digest != self.expected_key(services) {
            Ack::AuthFailed
        } else {
            Ack::Accepted
        }
    }

    /// Begins a handshake with a fresh nonce, and gives the bytes of the hello to
    /// send. Nothing is known of the nonce.
    pub fn begin(service_digest: Digest) -> (r: (ControlHandshake, Vec<u8>))
        ensures
            r.0.service_digest == service_digest,
            r.1@ == Hello::ControlChannelHello(CURRENT_PROTO_VERSION, r.0.nonce).bytes(),
            r.1@ == seq![0u8, 0u8, 0u8, 0u8, 1u8] + r.0.nonce@,
    {
        let nonce = random_nonce();
        ControlHandshake::begin_with(service_digest, nonce)
    }

    /// Begins a handshake with the given nonce, and gives the bytes of the hello
    /// to send.
    pub fn begin_with(service_digest: Digest, nonce: Digest) -> (r: (ControlHandshake, Vec<u8>))
        ensures
            r.0 == (ControlHandshake { service_digest, nonce }),
            r.1@ == Hello::ControlChannelHello(CURRENT_PROTO_VERSION, nonce).bytes(),
            r.0.service_digest == service_digest && r.0.nonce == nonce,
            r.1@ == seq![0u8, 0u8, 0u8, 0u8, 1u8] + nonce@,
    {
        let hello = Hello::ControlChannelHello(CURRENT_PROTO_VERSION, nonce);
        let bytes = hello.encode();
        (ControlHandshake { service_digest, nonce }, bytes)
    }

    /// Looks the service up. A service that is found must have a token.
    pub fn lookup(self, services: &ServiceMap) -> (r: Result<PendingAuth, Refusal>)
        requires
            services.wf(),
            services@.contains_key(self.service_digest)
                ==> services@[self.service_digest].token is Some,
        ensures
            r is Ok <==> services@.contains_key(self.service_digest),
            r matches Ok(pending) ==> {
                &&& pending.service_digest == self.service_digest
                &&& pending.service@ == services@[self.service_digest]@
                &&& pending.session_key == self.expected_key(services@)
                &&& pending.session_key == sha256(
                    encode_utf8(services@[self.service_digest].token->0@) + self.nonce@,
                )
                &&& pending.service.service_type == services@[self.service_digest].service_type
                &&& pending.service.name@ == services@[self.service_digest].name@
                &&& pending.service.bind_addr@ == services@[self.service_digest].bind_addr@
            },
            r matches Err(refusal) ==> {
                &&& forall|proof_digest: Digest|
                    refusal.ack == #[trigger] self.answer(services@, proof_digest)
                &&& refusal.ack == Ack::ServiceNotExist
                &&& refusal.error matches HandshakeError::NoSuchService(text) && text@ == hex_text(
                    self.service_digest@,
                )
            },
    {
        match services.get(&self.service_digest) {
            Some(service) => {
                let token = service.token.as_ref().unwrap();
                let key = session_key(token.as_str(), &self.nonce);
                Ok(
                    PendingAuth {
                        service_digest: self.service_digest,
                        session_key: key,
                        service: service.clone(),
                    },
                )
            },
            None => Err(
                Refusal {
                    ack: Ack::ServiceNotExist,
                    error: HandshakeError::NoSuchService(hex_encode(&self.service_digest)),
                },
            ),
        }
    }
}

impl PendingAuth {
    /// Checks the client's proof. If it is good, the service's control channel up
    /// to now leaves the map: it may be stale, and the client could not connect
    /// again otherwise.
    pub fn authenticate<T>(
        self,
        proof_digest: Digest,
        control_channels: &mut ControlChannelMap<T>,
    ) -> (r: Result<Authenticated<T>, Refusal>)
        requires
            old(control_channels).wf(),
        ensures
            final(control_channels).wf(),
            r is Ok <==> proof_digest == self.session_key,
            r matches Ok(done) ==> {
                &&& done.service_digest == self.service_digest
                &&& done.session_key == self.session_key
                &&& done.service == self.service
                &&& final(control_channels)@ == old(control_channels)@.remove(self.service_digest)
                &&& done.previous == if old(control_channels)@.contains_key(self.service_digest) {
                    Some(old(control_channels)@[self.service_digest].1)
                } else {
                    None
                }
            },
            r matches Err(refusal) ==> {
                &&& refusal.ack == Ack::AuthFailed
                &&& refusal.error matches HandshakeError::AuthFailed(name) && name@
                    == self.service.name@
                &&& final(control_channels)@ == old(control_channels)@
            },
    {
        if !self.session_key.same(&proof_digest) {
            return Err(
                Refusal {
                    ack: Ack::AuthFailed,
                    error: HandshakeError::AuthFailed(self.service.name.clone()),
                },
            );
        }
        let previous = control_channels.remove1(&self.service_digest);
        Ok(
            Authenticated {
                service_digest: self.service_digest,
                session_key: self.session_key,
                service: self.service,
                previous,
            },
        )
    }
}

impl<T> Authenticated<T> {
    /// Puts the new control channel in the map and says what is to be started for
    /// it. If a key is taken there, the handle comes back and the map stays.
    pub fn establish(
        self,
        link: T,
        heartbeat_interval: u64,
        control_channels: &mut ControlChannelMap<T>,
    ) -> (r: (ControlChannelPlan, Result<(), ControlChannelHandle<T>>))
        requires
            old(control_channels).wf(),
        ensures
            final(control_channels).wf(),
            r.1 is Ok <==> !old(control_channels)@.contains_key(self.service_digest) && !has_second(
                old(control_channels)@,
                self.session_key,
            ),
            r.1 is Ok ==> final(control_channels)@ == old(control_channels)@.insert(
                self.service_digest,
                (self.session_key, ControlChannelHandle { service: self.service, link }),
            ),
            r.1 matches Err(handle) ==> {
                &&& final(control_channels)@ == old(control_channels)@
                &&& handle == (ControlChannelHandle { service: self.service, link })
            },
            r.0.follows(self.service@, heartbeat_interval, self.session_key),
            r.1 is Ok <==> !old(control_channels)@.contains_key(self.service_digest) && forall|
                k: Digest,
            | #[trigger]
                old(control_channels)@.contains_key(k) ==> old(control_channels)@[k].0
                    != self.session_key,
            r.0.service_type == self.service.service_type,
            r.0.bind_addr@ == self.service.bind_addr@,
            r.0.proxy_protocol@ == match self.service.proxy_protocol {
                Some(name) => name@,
                None => Seq::<char>::empty(),
            },
            r.0.pool_size == match self.service.service_type {
                crate::config::ServiceType::Tcp => 8int,
                crate::config::ServiceType::Udp => 2,
                crate::config::ServiceType::SocketStream => 8,
            },
            r.0.control.interval() == heartbeat_interval,
            r.0.session_key == self.session_key,
    {
        let (handle, plan) = ControlChannelHandle::new(
            link,
            self.service,
            heartbeat_interval,
            self.session_key,
        );
        match control_channels.insert(self.service_digest, self.session_key, handle) {
            Ok(()) => (plan, Ok(())),
            Err((_, _, handle)) => (plan, Err(handle)),
        }
    }
}

/// The control channel that a data channel with this session key belongs to.
pub fn do_data_channel_handshake<'a, T>(
    control_channels: &'a ControlChannelMap<T>,
    nonce: Digest,
) -> (r: Result<&'a ControlChannelHandle<T>, HandshakeError>)
    requires
        control_channels.wf(),
    ensures
        match r {
            Ok(handle) => has_second(control_channels@, nonce) && *handle
                == control_channels@[first_of(control_channels@, nonce)].1,
            Err(error) => !has_second(control_channels@, nonce) && error is IncorrectNonce,
        },
        second_keys_distinct(control_channels@),
        match r {
            Ok(handle) => exists|service: Digest| #[trigger]
                control_channels@.contains_key(service) && control_channels@[service] == (
                    nonce,
                    *handle,
                ),
            Err(_) => forall|service: Digest| #[trigger]
                control_channels@.contains_key(service) ==> control_channels@[service].0 != nonce,
        },
{
    match control_channels.get2(&nonce) {
        Some(handle) => Ok(handle),
        None => Err(HandshakeError::IncorrectNonce),
    }
}

/// How a data channel's handshake ends once the connection has, or has not, been
/// handed to the control channel that it belongs to.
pub fn data_channel_sent(sent: bool) -> (r: Result<(), HandshakeError>)
    ensures
        r is Ok <==> sent,
        r matches Err(error) ==> error is StaleControlChannel,
{
    if sent {
        Ok(())
    } else {
        Err(HandshakeError::StaleControlChannel)
    }
}

/// A client that was admitted is reached by the data channels that give its
/// session key, and no other client's channel is touched: in a map from which its
/// service's old channel was taken and into which its new one was put, the key
/// leads to the new one, and the other services have theirs as before.
pub proof fn law_admitted_client_is_reached<T>(
    m: Map<Digest, (Digest, ControlChannelHandle<T>)>,
    service: Digest,
    session_key: Digest,
    handle: ControlChannelHandle<T>,
    other: Digest,
)
    requires
        second_keys_distinct(m),
        !has_second(m.remove(service), session_key),
        other != service,
    ensures
        ({
            let after = m.remove(service).insert(service, (session_key, handle));
            &&& has_second(after, session_key)
            &&& after[first_of(after, session_key)].1 == handle
            &&& after.contains_key(other) <==> m.contains_key(other)
            &&& m.contains_key(other) ==> {
                &&& after[other] == m[other]
                &&& has_second(after, m[other].0)
                &&& first_of(after, m[other].0) == other
            }
        }),
{
    let left = m.remove(service);
    assert(second_keys_distinct(left)) by {
        assert forall|a: Digest, b: Digest| #[trigger]
            left.contains_key(a) && #[trigger] left.contains_key(b) && left[a].0
                == left[b].0 implies a == b by {
            assert(m.contains_key(a) && m.contains_key(b));
        }
    }
    law_channel_is_found_by_either_key(left, service, session_key, handle);
    let after = left.insert(service, (session_key, handle));
    if m.contains_key(other) {
        assert(after.contains_key(other));
        let k = first_of(after, m[other].0);
        assert(after.contains_key(k) && after[k].0 == after[other].0);
    }
}

/// A client that knows the token of a service is admitted: the digest of the
/// token followed by the nonce is accepted as its proof.
pub proof fn law_token_holder_is_admitted(
    handshake: ControlHandshake,
    services: Map<Digest, ServerServiceConfig>,
)
    requires
        services.contains_key(handshake.service_digest),
        services[handshake.service_digest].token is Some,
    ensures
        handshake.answer(
            services,
            session_key_of(services[handshake.service_digest].token->0@, handshake.nonce),
        ) == Ack::Accepted,
{
}

/// The client of a service is admitted by the SHA-256 digest of the service's whole
/// token in UTF-8 followed by the nonce, and by nothing else.
pub proof fn law_proof_is_of_the_whole_token(
    handshake: ControlHandshake,
    services: Map<Digest, ServerServiceConfig>,
    token: String,
    proof_digest: Digest,
)
    requires
        services.contains_key(handshake.service_digest),
        services[handshake.service_digest].token == Some(token),
    ensures
        handshake.answer(services, proof_digest) == Ack::Accepted <==> proof_digest == sha256(
            encode_utf8(token@) + handshake.nonce@,
        ),
        handshake.answer(services, proof_digest) == Ack::AuthFailed <==> proof_digest != sha256(
            encode_utf8(token@) + handshake.nonce@,
        ),
        session_key_of(token@, handshake.nonce) == sha256(
            encode_utf8(token@) + handshake.nonce@,
        ),
{
}

/// A client that asks for a service that is not there is told so, whatever it
/// proves itself with.
pub proof fn law_missing_service_is_answered(
    handshake: ControlHandshake,
    services: Map<Digest, ServerServiceConfig>,
    proof_digest: Digest,
)
    ensures
        handshake.answer(services, proof_digest) == Ack::ServiceNotExist
            <==> !services.contains_key(handshake.service_digest),
{
}

/// The lookup and the check of the proof together give the handshake's answer: a
/// proof is accepted exactly when it is the session key that the lookup found.
pub proof fn law_lookup_and_check_give_the_answer(
    handshake: ControlHandshake,
    services: Map<Digest, ServerServiceConfig>,
    pending: PendingAuth,
    proof_digest: Digest,
)
    requires
        services.contains_key(handshake.service_digest),
        pending.session_key == handshake.expected_key(services),
    ensures
        handshake.answer(services, proof_digest) == (if proof_digest == pending.session_key {
            Ack::Accepted
        } else {
            Ack::AuthFailed
        }),
{
}

/// No other proof is accepted. In particular one that was made with another
/// token, or for another nonce, is refused unless the digests collide.
pub proof fn law_other_proof_is_refused(
    handshake: ControlHandshake,
    services: Map<Digest, ServerServiceConfig>,
    token: Seq<char>,
    nonce: Digest,
)
    requires
        services.contains_key(handshake.service_digest),
        services[handshake.service_digest].token is Some,
    ensures
        handshake.answer(services, session_key_of(token, nonce)) == (if session_key_of(
            token,
            nonce,
        ) == session_key_of(services[handshake.service_digest].token->0@, handshake.nonce) {
            Ack::Accepted
        } else {
            Ack::AuthFailed
        }),
{
}

} // verus!
