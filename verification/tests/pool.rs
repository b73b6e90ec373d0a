use rathole::pool::{
    ConnectionPool, PoolAction, PoolEvent, PoolKind, UdpAction, UdpError, UdpEvent, UdpPool,
};
use rathole::protocol::DataChannelCmd;

#[test]
fn a_visitor_gets_a_data_channel() {
    let mut pool = ConnectionPool::new(PoolKind::Tcp, String::new());
    for _ in 0..2 {
        assert_eq!(
            pool.step(PoolEvent::Visitor),
            PoolAction::ReceiveDataChannel
        );
        assert_eq!(pool.step(PoolEvent::DataChannel), PoolAction::WriteCommand);
        assert_eq!(
            pool.step(PoolEvent::CommandWritten),
            PoolAction::StartForward
        );
        assert_eq!(
            pool.step(PoolEvent::ForwardStarted),
            PoolAction::ReceiveVisitor
        );
    }
    assert_eq!(pool.step(PoolEvent::VisitorsGone), PoolAction::Stop);
    assert_eq!(pool.step(PoolEvent::Visitor), PoolAction::Stop);
}

#[test]
fn a_broken_data_channel_is_replaced() {
    let mut pool = ConnectionPool::new(PoolKind::SocketStream, String::new());
    pool.step(PoolEvent::Visitor);
    for _ in 0..3 {
        assert_eq!(pool.step(PoolEvent::DataChannel), PoolAction::WriteCommand);
        assert_eq!(
            pool.step(PoolEvent::CommandFailed),
            PoolAction::RequestDataChannel
        );
        assert_eq!(
            pool.step(PoolEvent::Requested),
            PoolAction::ReceiveDataChannel
        );
    }
    assert_eq!(pool.step(PoolEvent::DataChannelsGone), PoolAction::Stop);
}

#[test]
fn a_pool_without_a_control_channel_ends() {
    let mut pool = ConnectionPool::new(PoolKind::Tcp, String::new());
    pool.step(PoolEvent::Visitor);
    pool.step(PoolEvent::DataChannel);
    pool.step(PoolEvent::CommandFailed);
    assert_eq!(pool.step(PoolEvent::RequestFailed), PoolAction::Stop);
}

#[test]
fn an_event_out_of_turn_changes_nothing() {
    let mut pool = ConnectionPool::new(PoolKind::Tcp, String::new());
    assert_eq!(
        pool.step(PoolEvent::CommandWritten),
        PoolAction::ReceiveVisitor
    );
}

#[test]
fn commands_and_announcements() {
    let tcp = ConnectionPool::new(PoolKind::Tcp, "v2".to_owned());
    assert_eq!(tcp.command(), DataChannelCmd::StartForwardTcp);
    assert_eq!(tcp.announce(), Some("v2"));
    let plain = ConnectionPool::new(PoolKind::Tcp, String::new());
    assert_eq!(plain.announce(), None);
    let socket = ConnectionPool::new(PoolKind::SocketStream, "v2".to_owned());
    assert_eq!(socket.command(), DataChannelCmd::StartForwardSocketStream);
    assert_eq!(socket.announce(), None);
    assert_eq!(UdpPool::new().command(), DataChannelCmd::StartForwardUdp);
}

#[test]
fn udp_traffic_goes_both_ways() {
    let mut pool = UdpPool::new();
    for (event, action) in [
        (UdpEvent::Bound, UdpAction::ReceiveDataChannel),
        (UdpEvent::DataChannel, UdpAction::WriteCommand),
        (UdpEvent::Done, UdpAction::Select),
        (UdpEvent::Inbound, UdpAction::WriteToClient),
        (UdpEvent::Done, UdpAction::Select),
        (UdpEvent::Outbound, UdpAction::ReadFromClient),
        (UdpEvent::Done, UdpAction::SendToVisitor),
        (UdpEvent::Done, UdpAction::Select),
        (UdpEvent::Shutdown, UdpAction::Stop),
        (UdpEvent::Inbound, UdpAction::Stop),
    ] {
        assert_eq!(pool.step(event), action);
    }
}

#[test]
fn udp_failures_end_the_pool() {
    let prefix = [UdpEvent::Bound, UdpEvent::DataChannel, UdpEvent::Done];
    for (events, error) in [
        (vec![UdpEvent::BindFailed], UdpError::Listen),
        (
            vec![UdpEvent::Bound, UdpEvent::DataChannelsGone],
            UdpError::NoDataChannel,
        ),
        (
            vec![UdpEvent::Bound, UdpEvent::DataChannel, UdpEvent::Failed],
            UdpError::Io,
        ),
        ([&prefix[..], &[UdpEvent::Failed]].concat(), UdpError::Io),
        (
            [&prefix[..], &[UdpEvent::Inbound, UdpEvent::Failed]].concat(),
            UdpError::Io,
        ),
        (
            [&prefix[..], &[UdpEvent::Outbound, UdpEvent::Failed]].concat(),
            UdpError::Io,
        ),
        (
            [
                &prefix[..],
                &[UdpEvent::Outbound, UdpEvent::Done, UdpEvent::Failed],
            ]
            .concat(),
            UdpError::Io,
        ),
    ] {
        let mut pool = UdpPool::new();
        let mut last = UdpAction::Bind;
        for event in events {
            last = pool.step(event);
        }
        assert_eq!(last, UdpAction::Fail(error));
    }
}

#[test]
fn udp_failures_in_words() {
    assert_eq!(
        UdpError::Listen.message(),
        Some("Failed to listen for the service")
    );
    assert_eq!(
        UdpError::NoDataChannel.message(),
        Some("No available data channels")
    );
    assert_eq!(UdpError::Io.message(), None);
}
