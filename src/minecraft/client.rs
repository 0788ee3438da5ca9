//! The client side of one status exchange, without the socket: it keeps the
//! server address and the connection state, produces the bytes to send and
//! reads the bytes received.

use crate::minecraft::data_rw::{self, string_decode, utf8_bytes, STRING_MAX};
use crate::minecraft::packet::{
    self, handshake_body, HandShakePacket, ListRequestPacket, ListResponsePacket, NextState,
    PacketType,
};
use crate::minecraft::packet_rw::{self, frame_bytes, frame_decode, read_general_packet, write_general_packet};
use crate::minecraft::state::{self, State};
use vstd::prelude::*;
use vstd::string::StrSliceExecFns;

verus! {

/// Protocol version announced in the handshake.
pub const SUPPORTED_VERSION: i32 = 335;

/// Port used when an address names none.
pub const DEFAULT_PORT: u16 = 25565;

/// Failures of the exchange.
#[derive(Debug, PartialEq, Eq)]
pub enum Error {
    AddressConvertError(String),
    PacketError(packet::Error),
    PacketRWError(packet_rw::Error),
    StateError(state::Error),
}

/// A server address: hostname and port.
#[derive(Debug, Clone)]
pub struct ServerAddr {
    hostname: String,
    port: u16,
}

impl View for ServerAddr {
    /// Hostname and port.
    type V = (Seq<char>, u16);

    closed spec fn view(&self) -> (Seq<char>, u16) {
        (self.hostname@, self.port)
    }
}

impl ServerAddr {
    pub fn new(hostname: &str, port: u16) -> (r: Self)
        ensures
            r@ == (hostname@, port),
    {
        Self { hostname: hostname.to_owned(), port }
    }

    /// An address on the default port, 25565.
    pub fn from_hostname(hostname: &str) -> (r: Self)
        ensures
            r@ == (hostname@, DEFAULT_PORT),
    {
        Self { hostname: hostname.to_owned(), port: DEFAULT_PORT }
    }

    pub fn hostname(&self) -> (r: &String)
        ensures
            r@ == self@.0,
    {
        &self.hostname
    }

    pub fn port(&self) -> (r: u16)
        ensures
            r == self@.1,
    {
        self.port
    }

    fn copy(&self) -> (r: Self)
        ensures
            r@ == self@,
    {
        Self { hostname: self.hostname.clone(), port: self.port }
    }
}

/// Whether `c` is an ASCII decimal digit.
pub open spec fn is_digit(c: char) -> bool {
    '0' <= c && c <= '9'
}

/// The number written by the decimal digits `s`.
pub open spec fn digits_value(s: Seq<char>) -> nat
    decreases s.len(),
{
    if s.len() == 0 {
        0
    } else {
        digits_value(s.drop_last()) * 10 + (s.last() as nat - 48) as nat
    }
}

/// `s` without one leading `+`.
pub open spec fn unsigned_digits(s: Seq<char>) -> Seq<char> {
    if s.len() > 0 && s[0] == '+' {
        s.drop_first()
    } else {
        s
    }
}

/// Every character of `s` is a decimal digit.
pub open spec fn all_digits(s: Seq<char>) -> bool {
    forall|i: int| 0 <= i < s.len() ==> is_digit(#[trigger] s[i])
}

/// The port that `s` writes, as `u16::from_str` reads it: an optional `+`,
/// then one or more decimal digits whose value fits in 16 bits.
pub open spec fn port_of(s: Seq<char>) -> Option<u16> {
    let digits = unsigned_digits(s);
    if digits.len() > 0 && all_digits(digits) && digits_value(digits) <= 65535 {
        Some(digits_value(digits) as u16)
    } else {
        None
    }
}

/// Index of the last `:` of `s`, or -1 when there is none.
pub open spec fn last_colon(s: Seq<char>) -> int
    decreases s.len(),
{
    if s.len() == 0 {
        -1
    } else if s.last() == ':' {
        s.len() - 1
    } else {
        last_colon(s.drop_last())
    }
}

proof fn lemma_last_colon(s: Seq<char>)
    ensures
        -1 <= last_colon(s) < s.len(),
        last_colon(s) >= 0 ==> s[last_colon(s)] == ':',
        forall|j: int| last_colon(s) < j < s.len() ==> s[j] != ':',
    decreases s.len(),
{
    if s.len() > 0 && s.last() != ':' {
        lemma_last_colon(s.drop_last());
        assert forall|j: int| last_colon(s) < j < s.len() implies s[j] != ':' by {
            if j < s.len() - 1 {
                assert(s.drop_last()[j] == s[j]);
            }
        }
    }
}

/// The port written in `text`, read as `port_of` says.
fn parse_port(text: &str) -> (r: Option<u16>)
    ensures
        r == port_of(text@),
{
    let len = text.unicode_len();
    let mut start: usize = 0;
    if len > 0 && text.get_char(0) == '+' {
        start = 1;
    }
    let ghost digits = unsigned_digits(text@);
    assert(digits =~= text@.skip(start as int));
    if start == len {
        return None;
    }
    let mut value: u32 = 0;
    let mut i: usize = start;
    while i < len
        invariant
            start <= i <= len,
            len == text@.len(),
            digits == unsigned_digits(text@),
            digits == text@.skip(start as int),
            value == digits_value(digits.take(i - start)),
            value <= 65535,
            forall|k: int| 0 <= k < i - start ==> is_digit(#[trigger] digits[k]),
        decreases len - i,
    {
        let c = text.get_char(i);
        assert(digits.take(i - start + 1).drop_last() =~= digits.take(i - start));
        assert(digits.take(i - start + 1).last() == c);
        assert(digits[i - start] == c);
        if c < '0' || c > '9' {
            assert(!is_digit(digits[i - start]));
            assert(!all_digits(digits));
            return None;
        }
        let d = (c as u32) - 48;
        let next = value * 10 + d;
        if next > 65535 {
            proof {
                lemma_digits_value_grows(digits, (i - start + 1) as nat);
            }
            return None;
        }
        value = next;
        i = i + 1;
    }
    assert(digits.take(len - start) =~= digits);
    Some(value as u16)
}

/// Once a prefix of decimal digits is worth more than 65535, so is every
/// longer prefix.
proof fn lemma_digits_value_grows(s: Seq<char>, n: nat)
    requires
        n <= s.len(),
        digits_value(s.take(n as int)) > 65535,
    ensures
        all_digits(s) ==> digits_value(s) > 65535,
    decreases s.len() - n,
{
    if n < s.len() {
        assert(s.take((n + 1) as int).drop_last() =~= s.take(n as int));
        lemma_digits_value_grows(s, n + 1);
    } else {
        assert(s.take(n as int) =~= s);
    }
}

/// The address that `text` names: `host:port` split at its last colon, or
/// a bare hostname on the default port.
pub fn to_server_addr(text: &str) -> (r: Result<ServerAddr, Error>)
    ensures
        last_colon(text@) < 0 ==> (r matches Ok(a) && a@ == (text@, DEFAULT_PORT)),
        last_colon(text@) >= 0 ==> match port_of(text@.skip(last_colon(text@) + 1)) {
            Some(port) => r matches Ok(a) && a@ == (text@.take(last_colon(text@)), port),
            None => r matches Err(Error::AddressConvertError(m)) && m@
                == "invalid port number, parse failed"@,
        },
{
    proof {
        lemma_last_colon(text@);
    }
    let len = text.unicode_len();
    let mut i: usize = len;
    while i > 0
        invariant
            i <= len,
            len == text@.len(),
            forall|j: int| i <= j < len ==> text@[j] != ':',
        decreases i,
    {
        if text.get_char(i - 1) == ':' {
            let colon = i - 1;
            assert(colon == last_colon(text@)) by {
                lemma_last_colon(text@);
                if last_colon(text@) > colon {
                    assert(text@[last_colon(text@)] == ':');
                }
            }
            let hostname = text.substring_char(0, colon);
            let port_text = text.substring_char(colon + 1, len);
            assert(text@.subrange(0, colon as int) =~= text@.take(colon as int));
            assert(text@.subrange(colon + 1, len as int) =~= text@.skip(colon + 1));
            return match parse_port(port_text) {
                Some(port) => Ok(ServerAddr::new(hostname, port)),
                None => Err(Error::AddressConvertError("invalid port number, parse failed".to_owned())),
            };
        }
        i = i - 1;
    }
    assert(last_colon(text@) < 0);
    Ok(ServerAddr::from_hostname(text))
}

/// The frame of the handshake that a client at `addr` sends to ask for
/// `next_state`.
pub open spec fn handshake_frame(addr: (Seq<char>, u16), next_state: NextState) -> Seq<u8> {
    frame_bytes(
        PacketType::HandShake,
        handshake_body(SUPPORTED_VERSION, addr.0, addr.1, next_state.code()),
    )
}

/// The frame of a status request.
pub open spec fn list_request_frame() -> Seq<u8> {
    frame_bytes(PacketType::List, Seq::empty())
}

/// The JSON text of the status response at the front of `s`, read in
/// `state`.
pub open spec fn list_response_decode(s: Seq<u8>, state: State) -> Result<Seq<char>, Error> {
    match frame_decode(s, state) {
        Err(e) => Err(Error::PacketRWError(e)),
        Ok((_, body, _)) => match string_decode(body, STRING_MAX as nat) {
            Ok((text, _)) => Ok(text),
            Err(e) => Err(Error::PacketError(packet::Error::DataRWError(e))),
        },
    }
}

/// One connection's protocol state.
pub struct Client {
    server_addr: ServerAddr,
    state: State,
}

impl View for Client {
    /// Server address and connection state.
    type V = ((Seq<char>, u16), State);

    closed spec fn view(&self) -> ((Seq<char>, u16), State) {
        (self.server_addr@, self.state)
    }
}

proof fn lemma_handshake_body_len(address: Seq<char>, port: u16, next_state: i32)
    requires
        utf8_bytes(address).len() <= STRING_MAX,
    ensures
        handshake_body(SUPPORTED_VERSION, address, port, next_state).len() <= STRING_MAX + 17,
{
    data_rw::lemma_varint_round_trip(SUPPORTED_VERSION, Seq::empty());
    data_rw::lemma_varint_round_trip(utf8_bytes(address).len() as i32, Seq::empty());
    data_rw::lemma_varint_round_trip(next_state, Seq::empty());
}

impl Client {
    /// A connection to `server_addr` that has not shaken hands yet.
    pub fn new(server_addr: &ServerAddr) -> (r: Self)
        ensures
            r@ == (server_addr@, State::HandShaking),
    {
        Client { server_addr: server_addr.copy(), state: State::HandShaking }
    }

    pub fn state(&self) -> (r: State)
        ensures
            r == self@.1,
    {
        self.state
    }

    pub fn server_addr(&self) -> (r: &ServerAddr)
        ensures
            r@ == self@.0,
    {
        &self.server_addr
    }

    /// The handshake frame to send for `next_state`. Only a connection that
    /// is handshaking can make it; the state stays as it is until
    /// `handshake_sent` reports the frame written.
    pub fn handshake(&self, next_state: NextState) -> (r: Result<Vec<u8>, Error>)
        ensures
            self@.1 == State::HandShakeDone ==> r == Err::<Vec<u8>, Error>(
                Error::StateError(state::Error::AlreadyDone(State::HandShaking)),
            ),
            self@.1 == State::HandShaking && utf8_bytes(self@.0.0).len() <= STRING_MAX ==> (
            r matches Ok(bytes) && bytes@ == handshake_frame(self@.0, next_state)),
            self@.1 == State::HandShaking && utf8_bytes(self@.0.0).len() > STRING_MAX ==> r
                == Err::<Vec<u8>, Error>(
                Error::PacketError(packet::Error::DataRWError(data_rw::Error::StringIsTooLong)),
            ),
    {
        if self.state != State::HandShaking {
            return Err(Error::StateError(state::Error::AlreadyDone(State::HandShaking)));
        }
        let packet = HandShakePacket::new(
            SUPPORTED_VERSION,
            self.server_addr.hostname.as_str(),
            self.server_addr.port,
            next_state,
        );
        let general = match packet.to_general_packet() {
            Ok(p) => p,
            Err(e) => return Err(Error::PacketError(e)),
        };
        proof {
            lemma_handshake_body_len(self.server_addr@.0, self.server_addr@.1, next_state.code());
            data_rw::lemma_varint_round_trip(0, Seq::empty());
        }
        let mut bytes: Vec<u8> = Vec::new();
        match write_general_packet(&mut bytes, &general) {
            Ok(()) => {},
            Err(e) => return Err(Error::PacketRWError(e)),
        }
        assert(bytes@ =~= handshake_frame(self.server_addr@, next_state));
        Ok(bytes)
    }

    /// Records that the handshake frame has been written: the connection is
    /// done handshaking.
    pub fn handshake_sent(&mut self)
        requires
            old(self)@.1 == State::HandShaking,
        ensures
            final(self)@ == (old(self)@.0, State::HandShakeDone),
    {
        self.state = State::HandShakeDone;
    }

    /// The bytes that ask for the server's status: the handshake first when
    /// it has not been made, then the status request. The state stays as it
    /// is until `list_sent` reports the bytes written.
    pub fn list(&self) -> (r: Result<Vec<u8>, Error>)
        ensures
            self@.1 == State::HandShakeDone ==> (r matches Ok(bytes) && bytes@
                == list_request_frame()),
            self@.1 == State::HandShaking && utf8_bytes(self@.0.0).len() <= STRING_MAX ==> (
            r matches Ok(bytes) && bytes@ == handshake_frame(self@.0, NextState::Status)
                + list_request_frame()),
            self@.1 == State::HandShaking && utf8_bytes(self@.0.0).len() > STRING_MAX ==> r
                == Err::<Vec<u8>, Error>(
                Error::PacketError(packet::Error::DataRWError(data_rw::Error::StringIsTooLong)),
            ),
    {
        let mut bytes: Vec<u8> = if self.state == State::HandShaking {
            match self.handshake(NextState::Status) {
                Ok(b) => b,
                Err(e) => return Err(e),
            }
        } else {
            Vec::new()
        };
        let ghost before = bytes@;
        let request = ListRequestPacket::new().to_general_packet();
        proof {
            data_rw::lemma_varint_round_trip(0, Seq::empty());
        }
        match write_general_packet(&mut bytes, &request) {
            Ok(()) => {},
            Err(e) => return Err(Error::PacketRWError(e)),
        }
        assert(request.body@ =~= Seq::<u8>::empty());
        assert(bytes@ =~= before + list_request_frame());
        Ok(bytes)
    }

    /// Records that the bytes of `list` have been written; they held the
    /// handshake when it was due, so the connection is done handshaking.
    pub fn list_sent(&mut self)
        ensures
            final(self)@ == (old(self)@.0, State::HandShakeDone),
    {
        self.state = State::HandShakeDone;
    }

    /// The JSON text of the status response at the front of `data`, read in
    /// the connection's current state.
    pub fn read_list_response(&self, data: &[u8]) -> (r: Result<String, Error>)
        ensures
            match list_response_decode(data@, self@.1) {
                Ok(text) => r matches Ok(s) && s@ == text,
                Err(e) => r matches Err(f) && f == e,
            },
    {
        let packet = match read_general_packet(data, self.state) {
            Ok(c) => c.content,
            Err(e) => return Err(Error::PacketRWError(e)),
        };
        match ListResponsePacket::status_json(&packet) {
            Ok(text) => Ok(text),
            Err(e) => Err(Error::PacketError(e)),
        }
    }
}

} // verus!
