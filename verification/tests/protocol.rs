use rathole::protocol::{
    Ack, Auth, ControlChannelCmd, DataChannelCmd, Hello, AUTH_LEN, CURRENT_PROTO_VERSION, HELLO_LEN,
};

fn digest() -> [u8; 32] {
    let mut d = [0u8; 32];
    for (i, b) in d.iter_mut().enumerate() {
        *b = 100 + i as u8;
    }
    d
}

#[test]
fn hello_bytes() {
    let mut expected = vec![0, 0, 0, 0, 1];
    expected.extend_from_slice(&digest());
    let hello = Hello::ControlChannelHello(CURRENT_PROTO_VERSION, digest());
    assert_eq!(hello.encode(), expected);
    assert_eq!(expected.len(), HELLO_LEN);

    expected[0] = 1;
    expected[4] = 9;
    assert_eq!(Hello::DataChannelHello(9, digest()).encode(), expected);
}

#[test]
fn hello_round_trip() {
    for hello in [
        Hello::ControlChannelHello(0, digest()),
        Hello::DataChannelHello(255, digest()),
    ] {
        let decoded = Hello::decode(&hello.encode()).unwrap();
        match (hello, decoded) {
            (Hello::ControlChannelHello(v, d), Hello::ControlChannelHello(w, e)) => {
                assert_eq!((v, d), (w, e))
            }
            (Hello::DataChannelHello(v, d), Hello::DataChannelHello(w, e)) => {
                assert_eq!((v, d), (w, e))
            }
            _ => panic!("another variant"),
        }
    }
}

#[test]
fn bytes_that_are_no_hello() {
    let good = Hello::DataChannelHello(1, digest()).encode();
    assert!(Hello::decode(&good[..36]).is_none());
    let mut long = good.clone();
    long.push(0);
    assert!(Hello::decode(&long).is_none());
    for i in 0..4 {
        let mut bad = good.clone();
        bad[i] = 2;
        assert!(Hello::decode(&bad).is_none());
    }
    assert!(Hello::decode(&[]).is_none());
}

#[test]
fn auth_is_the_bare_digest() {
    let Auth(d) = Auth::decode(&digest()).unwrap();
    assert_eq!(d, digest());
    assert_eq!(AUTH_LEN, 32);
    assert!(Auth::decode(&digest()[..31]).is_none());
    assert!(Auth::decode(&[0; 33]).is_none());
}

#[test]
fn answers_and_commands_are_numbered() {
    assert_eq!(Ack::Accepted.encode(), [0, 0, 0, 0]);
    assert_eq!(Ack::ServiceNotExist.encode(), [1, 0, 0, 0]);
    assert_eq!(Ack::AuthFailed.encode(), [2, 0, 0, 0]);
    assert_eq!(ControlChannelCmd::CreateDataChannel.encode(), [0, 0, 0, 0]);
    assert_eq!(ControlChannelCmd::HeartBeat.encode(), [1, 0, 0, 0]);
    assert_eq!(DataChannelCmd::StartForwardTcp.encode(), [0, 0, 0, 0]);
    assert_eq!(DataChannelCmd::StartForwardUdp.encode(), [1, 0, 0, 0]);
    assert_eq!(DataChannelCmd::StartForwardSocketStream.encode(), [2, 0, 0, 0]);
}
