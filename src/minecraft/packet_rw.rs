//! Framing: a packet on the wire is the VarInt length of what follows, the
//! VarInt packet identifier, then the body.

use crate::minecraft::data_rw::{self, read_varint, varint_bytes, varint_decode, write_varint, ReadContainer};
use crate::minecraft::packet::{GeneralPacket, PacketType};
use crate::minecraft::state::{self, State};
use vstd::prelude::*;

verus! {

/// Failures while framing or unframing a packet.
#[derive(Debug, PartialEq, Eq, Structural)]
pub enum Error {
    DataRWError(data_rw::Error),
    StateError(state::Error),
    /// The length prefix is negative or shorter than the packet identifier.
    PacketHasNegativeLength,
    /// The input ended before the body did.
    UnexpectedEof,
    /// Identifier and body together are longer than a length prefix can
    /// say.
    PacketIsTooLong,
}

/// The frame of a packet of type `packet_type` with body `body`.
pub open spec fn frame_bytes(packet_type: PacketType, body: Seq<u8>) -> Seq<u8> {
    let id = varint_bytes(packet_type.id());
    varint_bytes((id.len() + body.len()) as i32) + id + body
}

/// The frame at the front of `s` read in `state`: the packet type, the body
/// and the number of bytes the frame took.
pub open spec fn frame_decode(s: Seq<u8>, state: State) -> Result<(PacketType, Seq<u8>, nat), Error> {
    match varint_decode(s) {
        Err(e) => Err(Error::DataRWError(e)),
        Ok((len, k)) => {
            if len < 0 {
                Err(Error::PacketHasNegativeLength)
            } else {
                match varint_decode(s.skip(k as int)) {
                    Err(e) => Err(Error::DataRWError(e)),
                    Ok((id, m)) => {
                        if len < m {
                            Err(Error::PacketHasNegativeLength)
                        } else if s.len() < k + len {
                            Err(Error::UnexpectedEof)
                        } else {
                            match state.packet_type_of(id) {
                                Err(e) => Err(Error::StateError(e)),
                                Ok(t) => Ok((t, s.subrange((k + m) as int, k + len), (k + len) as nat)),
                            }
                        }
                    },
                }
            }
        },
    }
}

/// Whether a frame can hold a packet of type `packet_type` with body
/// `body`: its length prefix is a 32-bit VarInt.
pub open spec fn frame_fits(packet_type: PacketType, body: Seq<u8>) -> bool {
    varint_bytes(packet_type.id()).len() + body.len() <= i32::MAX
}

/// Appends the frame of `packet`: the length of identifier and body, the
/// identifier, then the body unchanged. A packet too long for the length
/// prefix is refused and nothing is written.
pub fn write_general_packet(buf: &mut Vec<u8>, packet: &GeneralPacket) -> (r: Result<(), Error>)
    ensures
        frame_fits(packet.packet_id, packet.body@) ==> r is Ok && final(buf)@ == old(buf)@
            + frame_bytes(packet.packet_id, packet.body@),
        !frame_fits(packet.packet_id, packet.body@) ==> r == Err::<(), Error>(Error::PacketIsTooLong)
            && final(buf)@ == old(buf)@,
{
    let mut packet_id_buff: Vec<u8> = Vec::with_capacity(5);
    let id: i32 = packet.packet_id.into();
    write_varint(&mut packet_id_buff, id);
    proof {
        data_rw::lemma_varint_round_trip(packet.packet_id.id(), Seq::empty());
    }
    if packet.body.len() > i32::MAX as usize - packet_id_buff.len() {
        return Err(Error::PacketIsTooLong);
    }
    let len = (packet.body.len() + packet_id_buff.len()) as i32;
    write_varint(buf, len);
    append_bytes(buf, &packet_id_buff);
    append_bytes(buf, &packet.body);
    assert(buf@ =~= old(buf)@ + frame_bytes(packet.packet_id, packet.body@));
    Ok(())
}

/// Appends `bytes` unchanged.
fn append_bytes(buf: &mut Vec<u8>, bytes: &Vec<u8>)
    ensures
        final(buf)@ == old(buf)@ + bytes@,
{
    let ghost start = buf@;
    let mut i: usize = 0;
    while i < bytes.len()
        invariant
            i <= bytes.len(),
            buf@ == start + bytes@.take(i as int),
            start == old(buf)@,
        decreases bytes.len() - i,
    {
        buf.push(bytes[i]);
        assert(bytes@.take(i + 1) =~= bytes@.take(i as int).push(bytes@[i as int]));
        i = i + 1;
    }
    assert(bytes@.take(bytes.len() as int) =~= bytes@);
}

/// Reads the frame at the start of `data`, resolving its identifier in
/// `state`; the result holds the packet and the bytes the frame took.
pub fn read_general_packet(data: &[u8], state: State) -> (r: Result<ReadContainer<GeneralPacket>, Error>)
    ensures
        match frame_decode(data@, state) {
            Ok((t, body, n)) => r matches Ok(c) && c.content.packet_id == t && c.content.body@ == body
                && c.read_len == n,
            Err(e) => r matches Err(f) && f == e,
        },
{
    assert(data@.skip(0) =~= data@);
    let len_container = match read_varint(data, 0) {
        Ok(c) => c,
        Err(e) => return Err(Error::DataRWError(e)),
    };
    let len = len_container.content;
    if len < 0 {
        return Err(Error::PacketHasNegativeLength);
    }
    let start = len_container.read_len;
    let packet_id_container = match read_varint(data, start) {
        Ok(c) => c,
        Err(e) => return Err(Error::DataRWError(e)),
    };
    if (len as usize) < packet_id_container.read_len {
        return Err(Error::PacketHasNegativeLength);
    }
    if data.len() - start < len as usize {
        return Err(Error::UnexpectedEof);
    }
    let body_start = start + packet_id_container.read_len;
    let end = start + len as usize;
    let mut body: Vec<u8> = Vec::new();
    let mut i: usize = body_start;
    while i < end
        invariant
            body_start <= i <= end <= data.len(),
            body@ == data@.subrange(body_start as int, i as int),
        decreases end - i,
    {
        body.push(data[i]);
        assert(body@ =~= data@.subrange(body_start as int, i + 1));
        i = i + 1;
    }
    let packet_type = match state.detect_packet_type(packet_id_container.content) {
        Ok(t) => t,
        Err(e) => return Err(Error::StateError(e)),
    };
    Ok(ReadContainer::new(GeneralPacket::with_body_vec(packet_type, body), end))
}

/// How many bytes the frame at the start of `data` takes in all, length
/// prefix included, once the prefix has arrived.
pub fn frame_size(data: &[u8]) -> (r: Result<usize, Error>)
    ensures
        match varint_decode(data@) {
            Ok((len, k)) => if len < 0 {
                r == Err::<usize, Error>(Error::PacketHasNegativeLength)
            } else {
                r == Ok::<usize, Error>((k + len) as usize)
            },
            Err(e) => r == Err::<usize, Error>(Error::DataRWError(e)),
        },
{
    assert(data@.skip(0) =~= data@);
    match read_varint(data, 0) {
        Ok(c) => {
            if c.content < 0 {
                Err(Error::PacketHasNegativeLength)
            } else {
                Ok(c.read_len + c.content as usize)
            }
        },
        Err(e) => Err(Error::DataRWError(e)),
    }
}

/// Reading back the frame of any packet, in a state where its identifier
/// stands for a packet type, gives that type, the body unchanged, and the
/// whole frame's length.
pub proof fn lemma_frame_round_trip(packet_type: PacketType, body: Seq<u8>, state: State)
    requires
        frame_fits(packet_type, body),
        state.packet_type_of(packet_type.id()) is Ok,
    ensures
        frame_decode(frame_bytes(packet_type, body), state) == Ok::<(PacketType, Seq<u8>, nat), Error>(
            (
                state.packet_type_of(packet_type.id())->Ok_0,
                body,
                frame_bytes(packet_type, body).len(),
            ),
        ),
{
    let id = varint_bytes(packet_type.id());
    let len = (id.len() + body.len()) as i32;
    let prefix = varint_bytes(len);
    let s = frame_bytes(packet_type, body);
    data_rw::lemma_varint_round_trip(packet_type.id(), body);
    data_rw::lemma_varint_round_trip(len, id + body);
    assert(s =~= prefix + (id + body));
    assert(s.skip(prefix.len() as int) =~= id + body);
    assert(s.subrange((prefix.len() + id.len()) as int, prefix.len() + len) =~= body);
}

} // verus!
