use rathole::config::{
    ServerConfig, ServerServiceConfig, ServiceType, TransportConfig, TransportType,
};
use rathole::services::generate_service_hashmap;

fn service(name: &str, bind_addr: &str) -> ServerServiceConfig {
    ServerServiceConfig {
        service_type: ServiceType::Tcp,
        name: name.to_owned(),
        bind_addr: bind_addr.to_owned(),
        proxy_protocol: Some("v2".to_owned()),
        token: Some("secret".to_owned()),
    }
}

fn config(services: Vec<(String, ServerServiceConfig)>) -> ServerConfig {
    ServerConfig {
        bind_addr: "0.0.0.0:2333".to_owned(),
        services,
        transport: TransportConfig {
            transport_type: TransportType::Tcp,
        },
        max_pending_handshakes: 4,
        max_pending_handshakes_per_ip: 2,
        handshake_timeout: 5,
        heartbeat_interval: 30,
    }
}

/// The SHA-256 digest of "abc".
const ABC: [u8; 32] = [
    0xba, 0x78, 0x16, 0xbf, 0x8f, 0x01, 0xcf, 0xea, 0x41, 0x41, 0x40, 0xde, 0x5d, 0xae, 0x22, 0x23,
    0xb0, 0x03, 0x61, 0xa3, 0x96, 0x17, 0x7a, 0x9c, 0xb4, 0x10, 0xff, 0x61, 0xf2, 0x00, 0x15, 0xad,
];

#[test]
fn services_are_found_by_the_digest_of_their_names() {
    let config = config(vec![
        ("abc".to_owned(), service("abc", "1.1.1.1:1")),
        ("other".to_owned(), service("other", "2.2.2.2:2")),
    ]);
    let services = generate_service_hashmap(&config);
    assert_eq!(services.len(), 2);
    let found = services.get(&ABC).unwrap();
    assert_eq!(found.name, "abc");
    assert_eq!(found.bind_addr, "1.1.1.1:1");
    assert_eq!(found.proxy_protocol.as_deref(), Some("v2"));
    assert_eq!(found.token.as_deref(), Some("secret"));
    assert_eq!(found.service_type, ServiceType::Tcp);
    assert!(services.get(&[0; 32]).is_none());
}

#[test]
fn the_key_is_the_configured_name() {
    let config = config(vec![("abc".to_owned(), service("renamed", "1.1.1.1:1"))]);
    let services = generate_service_hashmap(&config);
    assert_eq!(services.get(&ABC).unwrap().name, "renamed");
}

#[test]
fn the_later_of_two_services_stays() {
    let config = config(vec![
        ("abc".to_owned(), service("abc", "1.1.1.1:1")),
        ("abc".to_owned(), service("abc", "2.2.2.2:2")),
    ]);
    let services = generate_service_hashmap(&config);
    assert_eq!(services.len(), 1);
    assert_eq!(services.get(&ABC).unwrap().bind_addr, "2.2.2.2:2");
}
