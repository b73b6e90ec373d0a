use rathole::channel::{ControlChannelHandle, ControlChannelMap};
use rathole::config::{ServerServiceConfig, ServiceType};
use rathole::handshake::{
    data_channel_sent, do_data_channel_handshake, handle_connection, Authenticated, Connection,
    ControlHandshake, HandshakeError,
};
use rathole::maps::{AssocMap, MultiMap};
use rathole::protocol::{Ack, Hello, CURRENT_PROTO_VERSION};
use rathole::services::ServiceMap;
use sha2::{Digest, Sha256};

fn sha256(data: &[u8]) -> [u8; 32] {
    Sha256::digest(data).into()
}

fn key_of(token: &str, nonce: &[u8; 32]) -> [u8; 32] {
    let mut concat = token.as_bytes().to_vec();
    concat.extend_from_slice(nonce);
    sha256(&concat)
}

fn services() -> ServiceMap {
    let mut services = AssocMap::new();
    for (name, token) in [("web", "s3cret"), ("ssh", "other")] {
        services.insert(
            sha256(name.as_bytes()),
            ServerServiceConfig {
                service_type: ServiceType::Tcp,
                name: name.to_owned(),
                bind_addr: "127.0.0.1:80".to_owned(),
                proxy_protocol: None,
                token: Some(token.to_owned()),
            },
        );
    }
    services
}

fn let_in(
    channels: &mut ControlChannelMap<u32>,
    name: &str,
    token: &str,
    nonce: [u8; 32],
) -> Authenticated<u32> {
    let (handshake, _) = ControlHandshake::begin_with(sha256(name.as_bytes()), nonce);
    let pending = handshake.lookup(&services()).expect("no such service");
    pending
        .authenticate(key_of(token, &nonce), channels)
        .expect("not admitted")
}

#[test]
fn hello_names_the_channel() {
    assert!(matches!(
        handle_connection(Hello::ControlChannelHello(CURRENT_PROTO_VERSION, [3; 32])),
        Connection::Control(d) if d == [3; 32]
    ));
    assert!(matches!(
        handle_connection(Hello::DataChannelHello(0, [4; 32])),
        Connection::Data(d) if d == [4; 32]
    ));
}

#[test]
fn the_hello_that_is_sent_carries_the_nonce() {
    let (handshake, hello) = ControlHandshake::begin([5; 32]);
    assert_eq!(handshake.service_digest, [5; 32]);
    assert_eq!(
        hello,
        Hello::ControlChannelHello(CURRENT_PROTO_VERSION, handshake.nonce).encode()
    );
    assert_eq!(hello[5..], handshake.nonce);
}

#[test]
fn nonces_are_fresh() {
    let (a, _) = ControlHandshake::begin([5; 32]);
    let (b, _) = ControlHandshake::begin([5; 32]);
    assert_ne!(a.nonce, b.nonce);
    assert_ne!(a.nonce, [0; 32]);
}

#[test]
fn a_missing_service_is_refused() {
    let mut digest = [0u8; 32];
    digest[0] = 0xab;
    digest[31] = 0x0f;
    let (handshake, _) = ControlHandshake::begin_with(digest, [1; 32]);
    let refusal = handshake.lookup(&services()).unwrap_err();
    assert_eq!(refusal.ack, Ack::ServiceNotExist);
    assert_eq!(
        refusal.error.message(),
        "No such a service ab0000000000000000000000000000000000000000000000000000000000000f"
    );
}

#[test]
fn a_wrong_proof_is_refused() {
    let nonce = [9; 32];
    for bad in [
        key_of("wrong", &nonce),
        key_of("s3cret", &[8; 32]),
        key_of("other", &nonce),
        [0; 32],
    ] {
        let mut channels: ControlChannelMap<u32> = MultiMap::new();
        let_in(&mut channels, "web", "s3cret", [7; 32])
            .establish(1, 0, &mut channels)
            .1
            .unwrap();
        let (handshake, _) = ControlHandshake::begin_with(sha256(b"web"), nonce);
        let pending = handshake.lookup(&services()).unwrap();
        let refusal = pending.authenticate(bad, &mut channels).unwrap_err();
        assert_eq!(refusal.ack, Ack::AuthFailed);
        assert_eq!(
            refusal.error.message(),
            "Service web failed the authentication"
        );
        assert_eq!(channels.get1(&sha256(b"web")).unwrap().link, 1);
    }
}

#[test]
fn an_admitted_client_is_reached_by_its_session_key() {
    let mut channels: ControlChannelMap<u32> = MultiMap::new();
    let nonce = [9; 32];
    let admitted = let_in(&mut channels, "web", "s3cret", nonce);
    let key = key_of("s3cret", &nonce);
    assert_eq!(admitted.session_key, key);
    assert!(admitted.previous.is_none());
    let (plan, placed) = admitted.establish(42, 30, &mut channels);
    assert!(placed.is_ok());
    assert_eq!(plan.session_key, key);
    assert_eq!(plan.pool_size, 8);
    let handle = do_data_channel_handshake(&channels, key).unwrap();
    assert_eq!(handle.link, 42);
    assert_eq!(handle.service.name, "web");
    let error = do_data_channel_handshake(&channels, nonce).unwrap_err();
    assert_eq!(error.message(), "Data channel has incorrect nonce");
}

#[test]
fn a_client_can_connect_again() {
    let mut channels: ControlChannelMap<u32> = MultiMap::new();
    let (old, new) = (key_of("s3cret", &[1; 32]), key_of("s3cret", &[2; 32]));
    let _ = let_in(&mut channels, "ssh", "other", [3; 32]).establish(3, 0, &mut channels);
    let _ = let_in(&mut channels, "web", "s3cret", [1; 32]).establish(1, 0, &mut channels);
    let again = let_in(&mut channels, "web", "s3cret", [2; 32]);
    assert_eq!(again.previous.as_ref().map(|h| h.link), Some(1));
    assert!(again.establish(2, 0, &mut channels).1.is_ok());
    assert!(do_data_channel_handshake(&channels, old).is_err());
    assert_eq!(do_data_channel_handshake(&channels, new).unwrap().link, 2);

    // The end of the old session does not take the new one away.
    assert!(channels.remove2(&old).is_none());
    assert_eq!(channels.get1(&sha256(b"web")).unwrap().link, 2);
    assert_eq!(channels.get1(&sha256(b"ssh")).unwrap().link, 3);
}

#[test]
fn a_taken_session_key_gives_the_handle_back() {
    let mut channels: ControlChannelMap<u32> = MultiMap::new();
    let admitted = let_in(&mut channels, "web", "s3cret", [1; 32]);
    let handle = ControlChannelHandle {
        service: services().get(&sha256(b"ssh")).unwrap().clone(),
        link: 5,
    };
    assert!(channels
        .insert(sha256(b"ssh"), key_of("s3cret", &[1; 32]), handle)
        .is_ok());
    let (_, placed) = admitted.establish(6, 0, &mut channels);
    assert_eq!(placed.unwrap_err().link, 6);
    assert!(channels.get1(&sha256(b"web")).is_none());
}

#[test]
fn a_stale_control_channel_is_an_error() {
    assert!(data_channel_sent(true).is_ok());
    let error = data_channel_sent(false).unwrap_err();
    assert!(matches!(error, HandshakeError::StaleControlChannel));
    assert_eq!(error.message(), "Data channel for a stale control channel");
}
