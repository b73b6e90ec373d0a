use rathole::listener::{
    ListenerAction, ListenerEvent, ListenerKind, VisitorListener, VISITOR_RETRY_NANOS,
};

fn listening(kind: ListenerKind) -> VisitorListener {
    let mut l = VisitorListener::new(kind);
    assert_eq!(l.step(ListenerEvent::Bound), ListenerAction::Accept);
    l
}

#[test]
fn a_visitor_is_forwarded_after_a_request() {
    let mut l = listening(ListenerKind::Tcp);
    for _ in 0..3 {
        assert_eq!(
            l.step(ListenerEvent::Accepted),
            ListenerAction::RequestDataChannel
        );
        assert_eq!(
            l.step(ListenerEvent::Requested),
            ListenerAction::ForwardVisitor
        );
        assert_eq!(l.step(ListenerEvent::Forwarded), ListenerAction::Accept);
    }
}

#[test]
fn a_broken_control_channel_ends_the_listener() {
    let mut l = listening(ListenerKind::SocketStream);
    l.step(ListenerEvent::Accepted);
    let stop = ListenerAction::Stop {
        remove_socket: false,
    };
    assert_eq!(l.step(ListenerEvent::RequestFailed), stop);
    assert_eq!(l.step(ListenerEvent::Accepted), stop);
}

#[test]
fn shutdown_removes_the_socket_file_of_a_socket_stream() {
    for (kind, remove_socket) in [
        (ListenerKind::Tcp, false),
        (ListenerKind::SocketStream, true),
    ] {
        let mut l = listening(kind);
        assert_eq!(
            l.step(ListenerEvent::Shutdown),
            ListenerAction::Stop { remove_socket }
        );
    }
}

#[test]
fn a_listener_that_cannot_listen_ends() {
    let mut l = VisitorListener::new(ListenerKind::SocketStream);
    assert_eq!(
        l.step(ListenerEvent::BindFailed),
        ListenerAction::Stop {
            remove_socket: false
        }
    );
}

#[test]
fn failures_to_accept_pause_and_never_end_the_listener() {
    let mut l = listening(ListenerKind::Tcp);
    for (low, high) in [(250, 750), (375, 1000), (500, 1000), (500, 1000)] {
        match l.step(ListenerEvent::AcceptFailed) {
            ListenerAction::Sleep(nanos) => {
                assert!(low * 1_000_000 <= nanos && nanos <= high * 1_000_000 + 1);
                assert!(nanos <= VISITOR_RETRY_NANOS);
            }
            other => panic!("{other:?}"),
        }
        assert_eq!(l.step(ListenerEvent::Slept), ListenerAction::Accept);
    }
    l.step(ListenerEvent::Accepted);
    l.step(ListenerEvent::Requested);
    l.step(ListenerEvent::Forwarded);
    match l.step(ListenerEvent::AcceptFailed) {
        ListenerAction::Sleep(nanos) => assert!(nanos <= 750_000_001),
        other => panic!("{other:?}"),
    }
}

#[test]
fn only_a_socket_stream_has_a_stale_file_to_clear() {
    assert!(!VisitorListener::new(ListenerKind::Tcp).clears_socket_before_bind());
    assert!(VisitorListener::new(ListenerKind::SocketStream).clears_socket_before_bind());
}
