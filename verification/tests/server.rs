use rathole::channel::ControlChannelHandle;
use rathole::config::{
    Config, ConfigChange, ServerConfig, ServerServiceChange, ServerServiceConfig, ServiceType,
    TransportConfig, TransportType,
};
use rathole::ingress::{IngressConfigError, IngressLimit, IngressOutcome, IngressPermit, IpAddr};
use rathole::server::{
    run_server, RunServerError, Server, ServerAction, ServerEvent, TransportFeatures,
    ACCEPT_RETRY_NANOS,
};
use rathole::services::generate_service_hashmap;
use sha2::{Digest, Sha256};

fn sha256(data: &[u8]) -> [u8; 32] {
    Sha256::digest(data).into()
}

fn service(name: &str) -> ServerServiceConfig {
    ServerServiceConfig {
        service_type: ServiceType::Udp,
        name: name.to_owned(),
        bind_addr: "127.0.0.1:53".to_owned(),
        proxy_protocol: None,
        token: Some("t".to_owned()),
    }
}

fn config(global: usize, per_ip: usize) -> ServerConfig {
    ServerConfig {
        bind_addr: "0.0.0.0:2333".to_owned(),
        services: vec![("dns".to_owned(), service("dns"))],
        transport: TransportConfig {
            transport_type: TransportType::Tcp,
        },
        max_pending_handshakes: global,
        max_pending_handshakes_per_ip: per_ip,
        handshake_timeout: 5,
        heartbeat_interval: 30,
    }
}

fn server(global: usize, per_ip: usize) -> Server<u32> {
    match Server::from(config(global, per_ip)) {
        Ok(server) => server,
        Err(e) => panic!("{}", e.message()),
    }
}

fn run(server: &mut Server<u32>, event: ServerEvent<&'static str>) -> ServerAction<u32> {
    server.run(event)
}

fn accept(server: &mut Server<u32>, ip: u32) -> Result<(IngressPermit, u64), IngressLimit> {
    match run(server, ServerEvent::Accepted { ip: IpAddr::V4(ip) }) {
        ServerAction::Handshake { permit, timeout } => Ok((permit, timeout)),
        ServerAction::Reject(limit) => Err(limit),
        _ => panic!("neither admitted nor rejected"),
    }
}

fn with_channel(server: &mut Server<u32>, name: &str, session_key: [u8; 32], link: u32) {
    let handle = ControlChannelHandle {
        service: service(name),
        link,
    };
    assert!(server
        .control_channels
        .insert(sha256(name.as_bytes()), session_key, handle)
        .is_ok());
}

const NO_FEATURES: TransportFeatures = TransportFeatures {
    native_tls: false,
    rustls: false,
    noise: false,
    websocket_native_tls: false,
    websocket_rustls: false,
};

fn run_with(
    transport_type: TransportType,
    features: TransportFeatures,
) -> Result<TransportType, RunServerError> {
    let mut server = config(1, 1);
    server.transport = TransportConfig { transport_type };
    run_server(
        Config {
            server: Some(server),
        },
        features,
    )
    .map(|(t, _)| t)
}

#[test]
fn a_server_needs_its_configuration() {
    assert!(matches!(
        run_server(Config { server: None }, NO_FEATURES),
        Err(RunServerError::MissingServerConfig)
    ));
    assert_eq!(
        RunServerError::MissingServerConfig.message(),
        "Try to run as a server, but the configuration is missing. \
         Please add the `[server]` block"
    );
}

#[test]
fn a_transport_needs_its_feature() {
    assert!(run_with(TransportType::Tcp, NO_FEATURES).is_ok());
    assert!(matches!(
        run_with(TransportType::Tls, NO_FEATURES),
        Err(RunServerError::NeitherCompiled("native-tls", "rustls"))
    ));
    assert!(matches!(
        run_with(TransportType::Noise, NO_FEATURES),
        Err(RunServerError::NotCompiled("noise"))
    ));
    assert!(matches!(
        run_with(TransportType::Websocket, NO_FEATURES),
        Err(RunServerError::NeitherCompiled(
            "websocket-native-tls",
            "websocket-rustls"
        ))
    ));
    assert_eq!(
        RunServerError::NotCompiled("noise").message(),
        "The feature 'noise' is not compiled in this binary. Please re-compile rathole"
    );
    assert_eq!(
        RunServerError::NeitherCompiled("native-tls", "rustls").message(),
        "Neither of the feature 'native-tls' or 'rustls' is compiled in this binary. \
         Please re-compile rathole"
    );
    let rustls = TransportFeatures {
        rustls: true,
        ..NO_FEATURES
    };
    assert_eq!(
        run_with(TransportType::Tls, rustls).ok(),
        Some(TransportType::Tls)
    );
    let noise = TransportFeatures {
        noise: true,
        ..NO_FEATURES
    };
    assert!(run_with(TransportType::Noise, noise).is_ok());
    let websocket = TransportFeatures {
        websocket_native_tls: true,
        ..NO_FEATURES
    };
    assert!(run_with(TransportType::Websocket, websocket).is_ok());
    assert!(run_with(TransportType::Tls, websocket).is_err());
}

#[test]
fn a_server_needs_good_bounds() {
    assert!(matches!(
        Server::<u32>::from(config(0, 0)),
        Err(IngressConfigError::NoPendingHandshakes)
    ));
    assert!(matches!(
        Server::<u32>::from(config(2, 3)),
        Err(IngressConfigError::PerIpOutOfRange)
    ));
    assert!(server(2, 2).services.get(&sha256(b"dns")).is_some());
}

#[test]
fn excess_connections_are_rejected() {
    let mut server = server(1, 1);
    let (permit, timeout) = accept(&mut server, 1).unwrap();
    assert_eq!(timeout, 5);
    assert_eq!(accept(&mut server, 2).err(), Some(IngressLimit::Global));
    run(
        &mut server,
        ServerEvent::HandshakeEnded {
            permit,
            outcome: IngressOutcome::TimedOut,
        },
    );
    assert!(accept(&mut server, 2).is_ok());
}

#[test]
fn a_pending_handshake_does_not_keep_others_out() {
    let mut server = server(8, 1);
    let _slow = accept(&mut server, 1).unwrap();
    assert_eq!(accept(&mut server, 1).err(), Some(IngressLimit::Peer));
    assert!(accept(&mut server, 2).is_ok());
}

#[test]
fn handshakes_are_reported_once() {
    let mut server = server(2, 2);
    assert!(matches!(
        run(&mut server, ServerEvent::ReportDue),
        ServerAction::Wait
    ));
    let (a, _) = accept(&mut server, 1).unwrap();
    let (b, _) = accept(&mut server, 1).unwrap();
    run(
        &mut server,
        ServerEvent::HandshakeEnded {
            permit: a,
            outcome: IngressOutcome::Failed("bad"),
        },
    );
    run(&mut server, ServerEvent::HandshakeAborted { permit: b });
    match run(&mut server, ServerEvent::ReportDue) {
        ServerAction::Report(report) => {
            assert_eq!(report.counts.failed, 1);
            assert_eq!(report.counts.completed, 0);
            assert_eq!((report.active, report.peers), (0, 0));
        }
        _ => panic!("no report"),
    }
    assert!(matches!(
        run(&mut server, ServerEvent::ReportDue),
        ServerAction::Wait
    ));
}

#[test]
fn only_the_system_makes_the_server_pause() {
    let mut server = server(2, 2);
    assert!(matches!(
        run(&mut server, ServerEvent::AcceptFailed { io: false }),
        ServerAction::Wait
    ));
    for (low, high) in [(100, 100), (50, 100), (50, 100)] {
        match run(&mut server, ServerEvent::AcceptFailed { io: true }) {
            ServerAction::Sleep(nanos) => {
                assert!(low * 1_000_000 <= nanos && nanos <= high * 1_000_000)
            }
            _ => panic!("no pause"),
        }
    }
    assert!(accept(&mut server, 1).is_ok());
    match run(&mut server, ServerEvent::AcceptFailed { io: true }) {
        ServerAction::Sleep(nanos) => assert_eq!(nanos, ACCEPT_RETRY_NANOS),
        _ => panic!("no pause"),
    }
}

#[test]
fn the_server_ends_on_shutdown() {
    let mut server = server(2, 2);
    assert!(matches!(
        run(&mut server, ServerEvent::Shutdown),
        ServerAction::Stop
    ));
}

#[test]
fn a_stopped_server_leaves_nothing_behind() {
    let mut server = server(3, 2);
    let (a, _) = accept(&mut server, 1).unwrap();
    let (b, _) = accept(&mut server, 1).unwrap();
    let (c, _) = accept(&mut server, 2).unwrap();
    assert_eq!(accept(&mut server, 3).err(), Some(IngressLimit::Global));
    run(&mut server, ServerEvent::Shutdown);
    for permit in [b, c, a] {
        run(&mut server, ServerEvent::HandshakeAborted { permit });
    }
    match run(&mut server, ServerEvent::ReportDue) {
        ServerAction::Report(report) => {
            assert_eq!(report.counts.rejected_global, 1);
            assert_eq!((report.active, report.peers), (0, 0));
        }
        _ => panic!("no report"),
    }
    assert_eq!(server.ingress.available_permits(), 3);
    assert_eq!(server.ingress.active_peers(), 0);
    assert!(server.ingress.report().is_none());
}

#[test]
fn every_connection_of_a_run_is_accounted_for() {
    let mut server = server(3, 2);
    let (mut connections, mut reported, mut refused, mut broken_off) = (0, 0, 0, 0);
    let mut permits = Vec::new();
    for ip in [1, 1, 1, 2, 2, 3] {
        connections += 1;
        match accept(&mut server, ip) {
            Ok((permit, _)) => permits.push(permit),
            Err(_) => refused += 1,
        }
    }
    assert_eq!((permits.len(), refused), (3, 3));
    let mut report = |server: &mut Server<u32>| match run(server, ServerEvent::ReportDue) {
        ServerAction::Report(r) => {
            let c = r.counts;
            reported +=
                c.completed + c.failed + c.timed_out + c.rejected_global + c.rejected_peer;
        }
        _ => panic!("no report"),
    };
    report(&mut server);
    for outcome in [IngressOutcome::Completed, IngressOutcome::TimedOut] {
        let permit = permits.pop().unwrap();
        run(&mut server, ServerEvent::HandshakeEnded { permit, outcome });
    }
    run(&mut server, ServerEvent::Shutdown);
    for permit in permits {
        broken_off += 1;
        run(&mut server, ServerEvent::HandshakeAborted { permit });
    }
    report(&mut server);
    assert_eq!((reported, broken_off), (5, 1));
    assert_eq!(connections, reported + broken_off);
}

#[test]
fn the_end_of_a_control_channel_closes_its_session_alone() {
    let mut server = server(2, 2);
    with_channel(&mut server, "dns", [1; 32], 1);
    with_channel(&mut server, "web", [2; 32], 2);
    assert_eq!(server.close_session(&[1; 32]).unwrap().link, 1);
    assert!(server.control_channels.get1(&sha256(b"dns")).is_none());
    assert!(server.control_channels.get2(&[1; 32]).is_none());
    assert_eq!(server.control_channels.get2(&[2; 32]).unwrap().link, 2);
    with_channel(&mut server, "dns", [3; 32], 3);
    assert!(server.close_session(&[1; 32]).is_none());
    assert_eq!(server.control_channels.get1(&sha256(b"dns")).unwrap().link, 3);
}

#[test]
fn a_change_gives_the_services_of_the_changed_configuration() {
    let mut server = server(2, 2);
    for change in [
        ServerServiceChange::Add(service("web")),
        ServerServiceChange::Add(service("mail")),
        ServerServiceChange::Delete("dns".to_owned()),
    ] {
        server.handle_hot_reload(ConfigChange::ServerChange(change));
    }
    let mut changed = config(2, 2);
    changed.services = vec![
        ("web".to_owned(), service("web")),
        ("mail".to_owned(), service("mail")),
    ];
    let expected = generate_service_hashmap(&changed);
    assert_eq!(server.services.len(), expected.len());
    for name in ["web", "mail"] {
        let key = sha256(name.as_bytes());
        assert_eq!(
            server.services.get(&key).unwrap().name,
            expected.get(&key).unwrap().name
        );
    }
}

#[test]
fn a_changed_service_loses_its_channel() {
    let mut server = server(2, 2);
    with_channel(&mut server, "dns", [1; 32], 1);
    with_channel(&mut server, "web", [2; 32], 2);
    let mut changed = service("dns");
    changed.token = Some("new".to_owned());
    let change = ConfigChange::ServerChange(ServerServiceChange::Add(changed));
    match run(&mut server, ServerEvent::Update(Some(change))) {
        ServerAction::Drop(handle) => assert_eq!(handle.link, 1),
        _ => panic!("no channel dropped"),
    }
    assert!(server.control_channels.get2(&[1; 32]).is_none());
    assert_eq!(server.control_channels.get2(&[2; 32]).unwrap().link, 2);
    let dns = server.services.get(&sha256(b"dns")).unwrap();
    assert_eq!(dns.token.as_deref(), Some("new"));
}

#[test]
fn a_deleted_service_is_gone() {
    let mut server = server(2, 2);
    with_channel(&mut server, "web", [2; 32], 2);
    let change = ConfigChange::ServerChange(ServerServiceChange::Delete("dns".to_owned()));
    assert!(server.handle_hot_reload(change).is_none());
    assert!(server.services.get(&sha256(b"dns")).is_none());
    assert_eq!(server.control_channels.get1(&sha256(b"web")).unwrap().link, 2);
}

#[test]
fn other_changes_are_ignored() {
    let mut server = server(2, 2);
    with_channel(&mut server, "dns", [1; 32], 1);
    for change in [Some(ConfigChange::Other), None] {
        assert!(matches!(
            run(&mut server, ServerEvent::Update(change)),
            ServerAction::Wait
        ));
    }
    assert!(server.services.get(&sha256(b"dns")).is_some());
    assert!(server.control_channels.get1(&sha256(b"dns")).is_some());
}
