//! The messages that server and client exchange, and their bytes.
use crate::digest::{Digest, HASH_WIDTH_IN_BYTES};
use vstd::prelude::*;

verus! {

/// The version of the protocol that the server speaks.
pub const CURRENT_PROTO_VERSION: u8 = 1;

/// The first message on a connection, in either direction.
#[derive(Debug, Clone, Copy)]
pub enum Hello {
    /// Opens a control channel: the client gives the digest of the service's
    /// name, the server answers with a nonce.
    ControlChannelHello(u8, Digest),
    /// Opens a data channel: the client gives the session key.
    DataChannelHello(u8, Digest),
}

/// The client's proof that it knows the token.
#[derive(Debug, Clone, Copy)]
pub struct Auth(pub Digest);

/// The server's answer to the client's request for a control channel.
#[derive(Debug, Clone, Copy, PartialEq, Eq, Structural)]
pub enum Ack {
    Accepted,
    ServiceNotExist,
    AuthFailed,
}

/// What the server asks over a control channel.
#[derive(Debug, Clone, Copy, PartialEq, Eq, Structural)]
pub enum ControlChannelCmd {
    CreateDataChannel,
    HeartBeat,
}

/// What the server asks over a data channel.
#[derive(Debug, Clone, Copy, PartialEq, Eq, Structural)]
pub enum DataChannelCmd {
    StartForwardTcp,
    StartForwardUdp,
    StartForwardSocketStream,
}

/// The length of a [`Hello`] in bytes.
pub const HELLO_LEN: usize = 37;

/// The length of an [`Auth`] in bytes.
pub const AUTH_LEN: usize = 32;

/// The four bytes of `x`, the least significant first.
pub open spec fn le_bytes(x: u32) -> Seq<u8> {
    seq![
        (x % 256) as u8,
        (x / 256 % 256) as u8,
        (x / 65536 % 256) as u8,
        (x / 16777216) as u8,
    ]
}

/// `bincode::serialize` of a number: four bytes, the least significant first.
/// That is also how it writes a variant without fields, by its position.
#[verifier::external_body]
fn serialize_index(index: u32) -> (bytes: Vec<u8>)
    ensures
        bytes@ == le_bytes(index),
{
    bincode::serialize(&index).unwrap()
}

/// `bincode::serialize` of a number, a byte and an array: the number's four
/// bytes, the least significant first, the byte, the array's bytes. That is
/// also how it writes a variant with such fields, by its position.
#[verifier::external_body]
fn serialize_hello(index: u32, version: u8, digest: Digest) -> (bytes: Vec<u8>)
    ensures
        bytes@ == le_bytes(index).push(version) + digest@,
{
    bincode::serialize(&(index, version, digest)).unwrap()
}

impl Hello {
    /// The position of the variant.
    pub open spec fn index(self) -> u32 {
        match self {
            Hello::ControlChannelHello(..) => 0,
            Hello::DataChannelHello(..) => 1,
        }
    }

    /// The version that the message names.
    pub open spec fn version(self) -> u8 {
        match self {
            Hello::ControlChannelHello(version, _) => version,
            Hello::DataChannelHello(version, _) => version,
        }
    }

    /// The digest that the message carries.
    pub open spec fn digest(self) -> Digest {
        match self {
            Hello::ControlChannelHello(_, digest) => digest,
            Hello::DataChannelHello(_, digest) => digest,
        }
    }

    /// The message's bytes: variant, version, digest.
    pub open spec fn bytes(self) -> Seq<u8> {
        le_bytes(self.index()).push(self.version()) + self.digest()@
    }

    /// The message's bytes.
    pub fn encode(&self) -> (r: Vec<u8>)
        ensures
            r@ == self.bytes(),
            match self {
                Hello::ControlChannelHello(version, digest) => r@ == seq![
                    0u8,
                    0u8,
                    0u8,
                    0u8,
                    *version,
                ] + digest@,
                Hello::DataChannelHello(version, digest) => r@ == seq![
                    1u8,
                    0u8,
                    0u8,
                    0u8,
                    *version,
                ] + digest@,
            },
    {
        match self {
            Hello::ControlChannelHello(version, digest) => serialize_hello(0, *version, *digest),
            Hello::DataChannelHello(version, digest) => serialize_hello(1, *version, *digest),
        }
    }

    /// The message that has these bytes, if there is one.
    pub fn decode(bytes: &[u8]) -> (r: Option<Hello>)
        ensures
            match r {
                Some(hello) => hello.bytes() == bytes@,
                None => forall|hello: Hello| #[trigger] hello.bytes() != bytes@,
            },
            r is Some <==> bytes@.len() == 37 && bytes@[0] <= 1 && bytes@[1] == 0 && bytes@[2] == 0
                && bytes@[3] == 0,
            r matches Some(Hello::ControlChannelHello(version, digest)) ==> bytes@[0] == 0
                && version == bytes@[4] && digest@ == bytes@.subrange(5, 37),
            r matches Some(Hello::DataChannelHello(version, digest)) ==> bytes@[0] == 1 && version
                == bytes@[4] && digest@ == bytes@.subrange(5, 37),
    {
        if bytes.len() != HELLO_LEN || bytes[0] > 1 || bytes[1] != 0 || bytes[2] != 0 || bytes[3]
            != 0 {
            proof {
                assert forall|hello: Hello| #[trigger] hello.bytes() != bytes@ by {
                    let b = hello.bytes();
                    assert(b.len() == 37);
                    assert(b[0] <= 1 && b[1] == 0 && b[2] == 0 && b[3] == 0);
                }
            }
            return None;
        }
        let version: u8 = bytes[4];
        let digest = read_digest(bytes, 5);
        let hello = if bytes[0] == 0 {
            Hello::ControlChannelHello(version, digest)
        } else {
            Hello::DataChannelHello(version, digest)
        };
        assert(hello.bytes() =~= bytes@);
        Some(hello)
    }
}

/// The digest that stands in `bytes` from `start` on.
fn read_digest(bytes: &[u8], start: usize) -> (r: Digest)
    requires
        start + 32 <= bytes@.len(),
    ensures
        r@ == bytes@.subrange(start as int, start + 32),
{
    let len: usize = bytes.len();
    let mut digest: Digest = [0u8; HASH_WIDTH_IN_BYTES];
    let mut i: usize = 0;
    while i < 32
        invariant
            i <= 32,
            start + 32 <= len == bytes@.len(),
            forall|j: int| 0 <= j < i ==> digest@[j] == bytes@[start + j],
        decreases 32 - i,
    {
        digest[i] = bytes[start + i];
        i += 1;
    }
    assert(digest@ =~= bytes@.subrange(start as int, start + 32));
    digest
}

impl Auth {
    /// The message that has these bytes, if there is one.
    pub fn decode(bytes: &[u8]) -> (r: Option<Auth>)
        ensures
            match r {
                Some(auth) => auth.0@ == bytes@,
                None => bytes@.len() != AUTH_LEN,
            },
            r is Some <==> bytes@.len() == 32,
    {
        if bytes.len() != AUTH_LEN {
            return None;
        }
        let digest = read_digest(bytes, 0);
        assert(digest@ =~= bytes@);
        Some(Auth(digest))
    }
}

impl Ack {
    /// The position of the variant.
    pub open spec fn index(self) -> u32 {
        match self {
            Ack::Accepted => 0,
            Ack::ServiceNotExist => 1,
            Ack::AuthFailed => 2,
        }
    }

    /// The message's bytes.
    pub open spec fn bytes(self) -> Seq<u8> {
        le_bytes(self.index())
    }

    /// The message's bytes.
    pub fn encode(&self) -> (r: Vec<u8>)
        ensures
            r@ == self.bytes(),
            self is Accepted ==> r@ == seq![0u8, 0u8, 0u8, 0u8],
            self is ServiceNotExist ==> r@ == seq![1u8, 0u8, 0u8, 0u8],
            self is AuthFailed ==> r@ == seq![2u8, 0u8, 0u8, 0u8],
    {
        match self {
            Ack::Accepted => serialize_index(0),
            Ack::ServiceNotExist => serialize_index(1),
            Ack::AuthFailed => serialize_index(2),
        }
    }
}

impl ControlChannelCmd {
    /// The position of the variant.
    pub open spec fn index(self) -> u32 {
        match self {
            ControlChannelCmd::CreateDataChannel => 0,
            ControlChannelCmd::HeartBeat => 1,
        }
    }

    /// The command's bytes.
    pub open spec fn bytes(self) -> Seq<u8> {
        le_bytes(self.index())
    }

    /// The command's bytes.
    pub fn encode(&self) -> (r: Vec<u8>)
        ensures
            r@ == self.bytes(),
            self is CreateDataChannel ==> r@ == seq![0u8, 0u8, 0u8, 0u8],
            self is HeartBeat ==> r@ == seq![1u8, 0u8, 0u8, 0u8],
    {
        match self {
            ControlChannelCmd::CreateDataChannel => serialize_index(0),
            ControlChannelCmd::HeartBeat => serialize_index(1),
        }
    }
}

impl DataChannelCmd {
    /// The position of the variant.
    pub open spec fn index(self) -> u32 {
        match self {
            DataChannelCmd::StartForwardTcp => 0,
            DataChannelCmd::StartForwardUdp => 1,
            DataChannelCmd::StartForwardSocketStream => 2,
        }
    }

    /// The command's bytes.
    pub open spec fn bytes(self) -> Seq<u8> {
        le_bytes(self.index())
    }

    /// The command's bytes.
    pub fn encode(&self) -> (r: Vec<u8>)
        ensures
            r@ == self.bytes(),
            self is StartForwardTcp ==> r@ == seq![0u8, 0u8, 0u8, 0u8],
            self is StartForwardUdp ==> r@ == seq![1u8, 0u8, 0u8, 0u8],
            self is StartForwardSocketStream ==> r@ == seq![2u8, 0u8, 0u8, 0u8],
    {
        match self {
            DataChannelCmd::StartForwardTcp => serialize_index(0),
            DataChannelCmd::StartForwardUdp => serialize_index(1),
            DataChannelCmd::StartForwardSocketStream => serialize_index(2),
        }
    }
}

/// No two messages have the same bytes: what [`Hello::decode`] finds in the
/// bytes of a message is that message.
pub proof fn law_hello_bytes_are_unambiguous(a: Hello, b: Hello)
    ensures
        a.bytes().len() == HELLO_LEN,
        a.bytes() == b.bytes() ==> a == b,
{
    if a.bytes() == b.bytes() {
        let (x, y) = (a.bytes(), b.bytes());
        assert(x[0] == le_bytes(a.index())[0] && y[0] == le_bytes(b.index())[0]);
        assert(x[4] == a.version() && y[4] == b.version());
        assert(x.subrange(5, 37) =~= a.digest()@);
        assert(y.subrange(5, 37) =~= b.digest()@);
        assert(a.digest() =~= b.digest());
    }
}

/// The bytes of a hello are the variant's number, the version and the whole digest.
pub proof fn law_hello_bytes_hold_version_and_digest(hello: Hello)
    ensures
        hello.bytes().subrange(0, 4) == seq![hello.bytes()[0], 0u8, 0u8, 0u8],
        hello matches Hello::ControlChannelHello(version, digest) ==> hello.bytes()[0] == 0
            && hello.bytes()[4] == version && hello.bytes().subrange(5, 37) == digest@,
        hello matches Hello::DataChannelHello(version, digest) ==> hello.bytes()[0] == 1
            && hello.bytes()[4] == version && hello.bytes().subrange(5, 37) == digest@,
{
    assert(hello.bytes().subrange(5, 37) =~= hello.digest()@);
}

/// A number's four bytes give the number back, the first counting least.
pub proof fn law_le_bytes_give_the_number_back(x: u32)
    ensures
        le_bytes(x).len() == 4,
        x == le_bytes(x)[0] + le_bytes(x)[1] * 256 + le_bytes(x)[2] * 65536 + le_bytes(x)[3]
            * 16777216,
{
}

/// No two answers have the same bytes.
pub proof fn law_ack_bytes_are_unambiguous(a: Ack, b: Ack)
    ensures
        a.bytes() == b.bytes() ==> a == b,
{
    assert(a.bytes()[0] == a.index() && b.bytes()[0] == b.index());
}

/// No two commands on a control channel have the same bytes, nor do two on a
/// data channel.
pub proof fn law_cmd_bytes_are_unambiguous(
    a: ControlChannelCmd,
    b: ControlChannelCmd,
    c: DataChannelCmd,
    d: DataChannelCmd,
)
    ensures
        a.bytes() == b.bytes() ==> a == b,
        c.bytes() == d.bytes() ==> c == d,
{
    assert(a.bytes()[0] == a.index() && b.bytes()[0] == b.index());
    assert(c.bytes()[0] == c.index() && d.bytes()[0] == d.index());
}

} // verus!
