use rathole::channel::{
    ControlAction, ControlChannel, ControlChannelHandle, ControlEvent, ControlStop, ProxyProtocol,
    CHAN_SIZE, DATA_CHAN_SIZE,
};
use rathole::config::{ServerServiceConfig, ServiceType};
use rathole::protocol::ControlChannelCmd;

fn service(service_type: ServiceType, proxy_protocol: Option<&str>) -> ServerServiceConfig {
    ServerServiceConfig {
        service_type,
        name: "cleanup-test".to_owned(),
        bind_addr: "127.0.0.1:1".to_owned(),
        proxy_protocol: proxy_protocol.map(|p| p.to_owned()),
        token: None,
    }
}

#[test]
fn pool_size_depends_on_the_service_type() {
    for (service_type, size) in [
        (ServiceType::Tcp, 8),
        (ServiceType::Udp, 2),
        (ServiceType::SocketStream, 8),
    ] {
        let (handle, plan) =
            ControlChannelHandle::new((), service(service_type, None), 7, [2; 32]);
        assert_eq!(plan.pool_size, size);
        assert_eq!(plan.service_type, service_type);
        assert_eq!(plan.bind_addr, "127.0.0.1:1");
        assert_eq!(plan.session_key, [2; 32]);
        assert_eq!(plan.control.heartbeat(), Some(7));
        assert_eq!(handle.service.name, "cleanup-test");
    }
    assert_eq!((CHAN_SIZE, DATA_CHAN_SIZE), (2048, 4096));
}

#[test]
fn proxy_protocols_are_recognised() {
    for (name, expected, text) in [
        (None, ProxyProtocol::Disabled, ""),
        (Some(""), ProxyProtocol::Disabled, ""),
        (Some("v1"), ProxyProtocol::Enabled, "v1"),
        (Some("v2"), ProxyProtocol::Enabled, "v2"),
        (Some("V1"), ProxyProtocol::Unknown, "V1"),
        (Some("v3"), ProxyProtocol::Unknown, "v3"),
    ] {
        let (_, plan) = ControlChannelHandle::new((), service(ServiceType::Tcp, name), 0, [0; 32]);
        assert_eq!(plan.proxy, expected);
        assert_eq!(plan.proxy_protocol, text);
    }
}

#[test]
fn no_heartbeat_without_an_interval() {
    assert_eq!(ControlChannel::new(0).heartbeat(), None);
    assert_eq!(ControlChannel::new(30).heartbeat(), Some(30));
}

#[test]
fn control_channel_answers_events() {
    let ch = ControlChannel::new(0);
    for (event, action) in [
        (
            ControlEvent::DataChannelWanted,
            ControlAction::Write(ControlChannelCmd::CreateDataChannel),
        ),
        (
            ControlEvent::HeartbeatDue,
            ControlAction::Write(ControlChannelCmd::HeartBeat),
        ),
        (ControlEvent::Written, ControlAction::Wait),
        (
            ControlEvent::WriteFailed,
            ControlAction::Stop(ControlStop::WriteFailed),
        ),
        (
            ControlEvent::Read(0),
            ControlAction::Stop(ControlStop::ClosedByClient),
        ),
        (
            ControlEvent::Read(1),
            ControlAction::Stop(ControlStop::UnexpectedData),
        ),
        (
            ControlEvent::ReadFailed,
            ControlAction::Stop(ControlStop::ReadFailed),
        ),
        (
            ControlEvent::RequestersGone,
            ControlAction::Stop(ControlStop::RequestersGone),
        ),
        (
            ControlEvent::Shutdown,
            ControlAction::Stop(ControlStop::Shutdown),
        ),
    ] {
        assert_eq!(ch.run(event), action);
    }
}
