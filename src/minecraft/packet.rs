//! Packets of the status exchange and their conversion to and from the
//! general form: a packet type and an opaque body.

use crate::minecraft::data_rw::{
    self, lemma_string_round_trip, lemma_varint_round_trip, read_string, read_unsigned_short,
    read_varint, string_bytes, string_decode, u16_bytes, utf8_bytes, varint_bytes, varint_decode,
    write_string, write_unsigned_short, write_varint, STRING_MAX,
};
use crate::minecraft::json_data;
use vstd::prelude::*;

verus! {

/// Failures while building or reading a packet.
#[derive(Debug, PartialEq, Eq, Structural)]
pub enum Error {
    DataRWError(data_rw::Error),
}

#[derive(Debug, PartialEq, Eq, Clone, Copy, Structural)]
pub enum PacketType {
    HandShake,
    List,
    PingPong,
}

impl PacketType {
    /// The identifier written on the wire for this packet type.
    pub open spec fn id(self) -> i32 {
        match self {
            PacketType::HandShake => 0,
            PacketType::List => 0,
            PacketType::PingPong => 1,
        }
    }
}

impl From<PacketType> for i32 {
    fn from(packet_type: PacketType) -> (r: i32) {
        match packet_type {
            PacketType::HandShake => 0,
            PacketType::List => 0,
            PacketType::PingPong => 1,
        }
    }
}

impl vstd::std_specs::convert::FromSpecImpl<PacketType> for i32 {
    open spec fn obeys_from_spec() -> bool {
        true
    }

    open spec fn from_spec(packet_type: PacketType) -> i32 {
        packet_type.id()
    }
}

/// The state a client asks the server to move to after the handshake.
#[derive(Debug, PartialEq, Eq, Clone, Copy, Structural)]
pub enum NextState {
    Status,
    Login,
}

impl NextState {
    /// The code written on the wire for this state.
    pub open spec fn code(self) -> i32 {
        match self {
            NextState::Status => 1,
            NextState::Login => 2,
        }
    }
}

impl From<NextState> for i32 {
    fn from(next_state: NextState) -> (r: i32) {
        match next_state {
            NextState::Status => 1,
            NextState::Login => 2,
        }
    }
}

impl vstd::std_specs::convert::FromSpecImpl<NextState> for i32 {
    open spec fn obeys_from_spec() -> bool {
        true
    }

    open spec fn from_spec(next_state: NextState) -> i32 {
        next_state.code()
    }
}

/// A packet as a type and the bytes of its body.
#[derive(Debug)]
pub struct GeneralPacket {
    pub packet_id: PacketType,
    pub body: Vec<u8>,
}

impl GeneralPacket {
    pub fn new(packet_id: PacketType) -> (r: Self)
        ensures
            r.packet_id == packet_id,
            r.body@ == Seq::<u8>::empty(),
    {
        Self { packet_id, body: Vec::new() }
    }

    pub fn with_body_vec(packet_id: PacketType, body_vec: Vec<u8>) -> (r: Self)
        ensures
            r.packet_id == packet_id,
            r.body@ == body_vec@,
    {
        Self { packet_id, body: body_vec }
    }
}

/// The body of a handshake: protocol version, server address, server port
/// and the requested next state.
pub open spec fn handshake_body(
    protocol_version: i32,
    server_address: Seq<char>,
    server_port: u16,
    next_state: i32,
) -> Seq<u8> {
    varint_bytes(protocol_version) + string_bytes(server_address) + u16_bytes(server_port)
        + varint_bytes(next_state)
}

/// The fields of the handshake whose body starts `s`, in the order of
/// `handshake_body`.
pub open spec fn handshake_decode(s: Seq<u8>) -> Result<(i32, Seq<char>, u16, i32), data_rw::Error> {
    match varint_decode(s) {
        Err(e) => Err(e),
        Ok((version, a)) => match string_decode(s.skip(a as int), STRING_MAX as nat) {
            Err(e) => Err(e),
            Ok((address, b)) => {
                let c = a + b;
                if s.len() < c + 2 {
                    Err(data_rw::Error::UnexpectedEof)
                } else {
                    let port = (s[c as int] * 256 + s[(c + 1) as int]) as u16;
                    match varint_decode(s.skip((c + 2) as int)) {
                        Err(e) => Err(e),
                        Ok((next, _)) => Ok((version, address, port, next)),
                    }
                }
            },
        },
    }
}

/// The packet that opens a connection.
#[derive(Debug, PartialEq, Eq)]
pub struct HandShakePacket {
    protocol_version: i32,
    server_address: String,
    server_port: u16,
    next_state: i32,
}

impl View for HandShakePacket {
    /// Protocol version, server address, server port and next-state code.
    type V = (i32, Seq<char>, u16, i32);

    closed spec fn view(&self) -> (i32, Seq<char>, u16, i32) {
        (self.protocol_version, self.server_address@, self.server_port, self.next_state)
    }
}

impl HandShakePacket {
    pub fn new(protocol_version: i32, server_address: &str, server_port: u16, next_state: NextState) -> (r: Self)
        ensures
            r@ == (protocol_version, server_address@, server_port, next_state.code()),
    {
        let code: i32 = match next_state {
            NextState::Status => 1,
            NextState::Login => 2,
        };
        Self {
            protocol_version,
            server_address: server_address.to_owned(),
            server_port,
            next_state: code,
        }
    }

    pub fn protocol_version(&self) -> (r: i32)
        ensures
            r == self@.0,
    {
        self.protocol_version
    }

    pub fn server_address(&self) -> (r: &String)
        ensures
            r@ == self@.1,
    {
        &self.server_address
    }

    pub fn server_port(&self) -> (r: u16)
        ensures
            r == self@.2,
    {
        self.server_port
    }

    pub fn next_state(&self) -> (r: i32)
        ensures
            r == self@.3,
    {
        self.next_state
    }

    /// The handshake as a general packet; an address of more than
    /// `STRING_MAX` bytes cannot be written.
    pub fn to_general_packet(&self) -> (r: Result<GeneralPacket, Error>)
        ensures
            utf8_bytes(self@.1).len() <= STRING_MAX ==> (r matches Ok(p) && p.packet_id
                == PacketType::HandShake && p.body@ == handshake_body(
                self@.0,
                self@.1,
                self@.2,
                self@.3,
            )),
            utf8_bytes(self@.1).len() > STRING_MAX ==> r == Err::<GeneralPacket, Error>(
                Error::DataRWError(data_rw::Error::StringIsTooLong),
            ),
    {
        let mut body: Vec<u8> = Vec::new();
        write_varint(&mut body, self.protocol_version);
        match write_string(&mut body, self.server_address.as_str()) {
            Ok(()) => {},
            Err(e) => return Err(Error::DataRWError(e)),
        }
        write_unsigned_short(&mut body, self.server_port);
        write_varint(&mut body, self.next_state);
        Ok(GeneralPacket::with_body_vec(PacketType::HandShake, body))
    }

    /// Reads a handshake back from the body of a general packet.
    pub fn from_general_packet(general_packet: &GeneralPacket) -> (r: Result<Self, Error>)
        ensures
            match handshake_decode(general_packet.body@) {
                Ok(fields) => r matches Ok(h) && h@ == fields,
                Err(e) => r == Err::<HandShakePacket, Error>(Error::DataRWError(e)),
            },
    {
        let body = general_packet.body.as_slice();
        assert(body@.skip(0) =~= body@);
        let version = match read_varint(body, 0) {
            Ok(c) => c,
            Err(e) => return Err(Error::DataRWError(e)),
        };
        let address = match read_string(body, version.read_len) {
            Ok(c) => c,
            Err(e) => return Err(Error::DataRWError(e)),
        };
        let at = version.read_len + address.read_len;
        assert(body@.skip(version.read_len as int).skip(address.read_len as int) =~= body@.skip(at as int));
        let port = match read_unsigned_short(body, at) {
            Ok(c) => c,
            Err(e) => return Err(Error::DataRWError(e)),
        };
        let next = match read_varint(body, at + 2) {
            Ok(c) => c,
            Err(e) => return Err(Error::DataRWError(e)),
        };
        Ok(HandShakePacket {
            protocol_version: version.content,
            server_address: address.content,
            server_port: port.content,
            next_state: next.content,
        })
    }
}

/// Asks the server for its status; the body is empty.
pub struct ListRequestPacket;

impl ListRequestPacket {
    pub fn new() -> (r: Self) {
        Self {  }
    }

    pub fn to_general_packet(&self) -> (r: GeneralPacket)
        ensures
            r.packet_id == PacketType::List,
            r.body@ == Seq::<u8>::empty(),
    {
        GeneralPacket::new(PacketType::List)
    }
}

/// The server's answer to a status request.
pub struct ListResponsePacket {
    pub status: json_data::Status,
}

impl ListResponsePacket {
    pub fn new(status: json_data::Status) -> (r: Self)
        ensures
            r.status == status,
    {
        Self { status }
    }

    pub fn status(&self) -> (r: &json_data::Status)
        ensures
            r == &self.status,
    {
        &self.status
    }

    /// The JSON document that a status response carries: the string at the
    /// start of its body.
    pub fn status_json(general_packet: &GeneralPacket) -> (r: Result<String, Error>)
        ensures
            match string_decode(general_packet.body@, STRING_MAX as nat) {
                Ok((text, _)) => r matches Ok(s) && s@ == text,
                Err(e) => r == Err::<String, Error>(Error::DataRWError(e)),
            },
    {
        let body = general_packet.body.as_slice();
        assert(body@.skip(0) =~= body@);
        match read_string(body, 0) {
            Ok(c) => Ok(c.content),
            Err(e) => Err(Error::DataRWError(e)),
        }
    }
}

/// Reading back the body of any handshake gives its fields, when the
/// address is non-empty and of at most `STRING_MAX` bytes.
pub proof fn lemma_handshake_round_trip(
    protocol_version: i32,
    server_address: Seq<char>,
    server_port: u16,
    next_state: i32,
)
    requires
        1 <= utf8_bytes(server_address).len() <= STRING_MAX,
    ensures
        handshake_decode(handshake_body(protocol_version, server_address, server_port, next_state))
            == Ok::<(i32, Seq<char>, u16, i32), data_rw::Error>(
            (protocol_version, server_address, server_port, next_state),
        ),
{
    let v = varint_bytes(protocol_version);
    let a = string_bytes(server_address);
    let p = u16_bytes(server_port);
    let n = varint_bytes(next_state);
    let s = handshake_body(protocol_version, server_address, server_port, next_state);
    assert(s =~= v + (a + p + n));
    lemma_varint_round_trip(protocol_version, a + p + n);
    assert(s.skip(v.len() as int) =~= a + (p + n));
    lemma_string_round_trip(server_address, p + n);
    let c: int = (v.len() + a.len()) as int;
    assert(s.skip(c + 2) =~= n + Seq::<u8>::empty());
    lemma_varint_round_trip(next_state, Seq::empty());
    assert(s[c] == p[0] && s[c + 1] == p[1]);
    assert((server_port / 256) as u8 * 256 + (server_port % 256) as u8 == server_port) by (nonlinear_arith);
}

} // verus!
