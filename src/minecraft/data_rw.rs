//! Primitive codec of the protocol: VarInt / VarLong, big-endian fixed-width
//! integers and length-prefixed UTF-8 strings.

use vstd::prelude::*;
use vstd::utf8::{decode_utf8, encode_utf8, encode_utf8_decode_utf8, encode_utf8_valid_utf8, valid_utf8};

verus! {

/// Failures of the primitive codec.
#[derive(Debug, PartialEq, Eq, Structural)]
pub enum Error {
    MaxStringLenIsTooLong,
    StringConvertError,
    StringHasInvalidLength,
    VarIntIsTooShort,
    VarIntIsTooLong,
    VarLongIsTooShort,
    VarLongIsTooLong,
    StringIsTooLong,
    /// The input ended inside a fixed-width field or a string body.
    UnexpectedEof,
}

/// A decoded value with the number of bytes it took.
pub struct ReadContainer<T> {
    pub content: T,
    pub read_len: usize,
}

impl<T> ReadContainer<T> {
    pub fn new(content: T, read_len: usize) -> (r: Self)
        ensures
            r.content == content,
            r.read_len == read_len,
    {
        Self { content, read_len }
    }
}

/// Largest byte length of a string on the wire.
pub const STRING_MAX: usize = 32767;

/// 128 raised to `n`: the weight of the `n`-th seven-bit group.
pub open spec fn pow128(n: nat) -> nat
    decreases n,
{
    if n == 0 {
        1
    } else {
        128 * pow128((n - 1) as nat)
    }
}

/// Seven-bit groups of `u`, least significant first; every byte but the last
/// carries the continuation bit.
pub open spec fn var_bytes(u: nat) -> Seq<u8>
    decreases u,
{
    if u < 128 {
        seq![u as u8]
    } else {
        seq![(u % 128 + 128) as u8] + var_bytes(u / 128)
    }
}

/// The unsigned reinterpretation of a 32-bit value.
pub open spec fn u32_of(v: i32) -> nat {
    if v >= 0 {
        v as nat
    } else {
        (v + 0x1_0000_0000) as nat
    }
}

/// The unsigned reinterpretation of a 64-bit value.
pub open spec fn u64_of(v: i64) -> nat {
    if v >= 0 {
        v as nat
    } else {
        (v + 0x1_0000_0000_0000_0000) as nat
    }
}

/// The VarInt encoding of `v`.
pub open spec fn varint_bytes(v: i32) -> Seq<u8> {
    var_bytes(u32_of(v))
}

/// The VarLong encoding of `v`.
pub open spec fn varlong_bytes(v: i64) -> Seq<u8> {
    var_bytes(u64_of(v))
}

/// Reads seven-bit groups from the front of `s`, at most `limit` of them:
/// the value and the byte count when a byte without the continuation bit
/// ends the number in time, `None` otherwise.
pub open spec fn var_scan(s: Seq<u8>, limit: nat) -> Option<(nat, nat)>
    decreases limit,
{
    if limit == 0 || s.len() == 0 {
        None
    } else if s[0] < 128 {
        Some((s[0] as nat, 1))
    } else {
        match var_scan(s.drop_first(), (limit - 1) as nat) {
            Some((v, n)) => Some((((s[0] - 128) + 128 * v) as nat, n + 1)),
            None => None,
        }
    }
}

/// The 32-bit value whose unsigned reinterpretation is `u` modulo 2^32.
pub open spec fn i32_of(u: nat) -> i32 {
    let w = u % 0x1_0000_0000;
    if w < 0x8000_0000 {
        w as i32
    } else {
        (w - 0x1_0000_0000) as i32
    }
}

/// The 64-bit value whose unsigned reinterpretation is `u` modulo 2^64.
pub open spec fn i64_of(u: nat) -> i64 {
    let w = u % 0x1_0000_0000_0000_0000;
    if w < 0x8000_0000_0000_0000 {
        w as i64
    } else {
        (w - 0x1_0000_0000_0000_0000) as i64
    }
}

/// The VarInt at the front of `s` with its byte count. Five groups at most:
/// a fifth byte with the continuation bit is `VarIntIsTooLong`, an input that
/// ends first is `VarIntIsTooShort`.
pub open spec fn varint_decode(s: Seq<u8>) -> Result<(i32, nat), Error> {
    match var_scan(s, 5) {
        Some((u, n)) => Ok((i32_of(u), n)),
        None => Err(
            if s.len() < 5 {
                Error::VarIntIsTooShort
            } else {
                Error::VarIntIsTooLong
            },
        ),
    }
}

/// The VarLong at the front of `s` with its byte count; ten groups at most.
pub open spec fn varlong_decode(s: Seq<u8>) -> Result<(i64, nat), Error> {
    match var_scan(s, 10) {
        Some((u, n)) => Ok((i64_of(u), n)),
        None => Err(
            if s.len() < 10 {
                Error::VarLongIsTooShort
            } else {
                Error::VarLongIsTooLong
            },
        ),
    }
}

proof fn lemma_low_groups(u: u64)
    by (bit_vector)
    ensures
        u & 0x7f == u % 128,
        u >> 7 == u / 128,
        (u % 128) < 128,
{
}

proof fn lemma_set_continuation(b: u8)
    by (bit_vector)
    requires
        b < 128,
    ensures
        b | 0x80 == b + 128,
{
}

/// Appends the seven-bit groups of `value`.
fn write_var(buf: &mut Vec<u8>, value: u64)
    ensures
        final(buf)@ == old(buf)@ + var_bytes(value as nat),
{
    let mut uval: u64 = value;
    loop
        invariant_except_break
            buf@ + var_bytes(uval as nat) == old(buf)@ + var_bytes(value as nat),
        ensures
            buf@ == old(buf)@ + var_bytes(value as nat),
        decreases uval,
    {
        proof {
            lemma_low_groups(uval);
        }
        let low: u8 = (uval & 0x7f) as u8;
        let ghost before = uval;
        uval = uval >> 7;
        if uval != 0 {
            proof {
                lemma_set_continuation(low);
            }
            buf.push(low | 0x80);
            assert(var_bytes(before as nat) == seq![(low + 128) as u8] + var_bytes(uval as nat));
            assert(buf@ + var_bytes(uval as nat) =~= old(buf)@ + var_bytes(value as nat));
        } else {
            buf.push(low);
            assert(var_bytes(before as nat) == seq![low]);
            assert(buf@ =~= old(buf)@ + var_bytes(value as nat));
            break;
        }
    }
}

/// The unsigned reinterpretation of `value`, computed without a truncating cast.
fn u32_bits(value: i32) -> (r: u32)
    ensures
        r as nat == u32_of(value),
{
    if value >= 0 {
        value as u32
    } else {
        ((value as i64) + 0x1_0000_0000i64) as u32
    }
}

/// The unsigned reinterpretation of `value`, computed without a truncating cast.
fn u64_bits(value: i64) -> (r: u64)
    ensures
        r as nat == u64_of(value),
{
    if value >= 0 {
        value as u64
    } else {
        ((value as i128) + 0x1_0000_0000_0000_0000i128) as u64
    }
}

/// Appends the VarInt encoding of `value`.
pub fn write_varint(buf: &mut Vec<u8>, value: i32)
    ensures
        final(buf)@ == old(buf)@ + varint_bytes(value),
{
    let bits = u32_bits(value);
    write_var(buf, bits as u64);
}

/// Appends the VarLong encoding of `value`.
pub fn write_varlong(buf: &mut Vec<u8>, value: i64)
    ensures
        final(buf)@ == old(buf)@ + varlong_bytes(value),
{
    let bits = u64_bits(value);
    write_var(buf, bits);
}

proof fn lemma_pow128_bound(n: nat)
    requires
        n <= 10,
    ensures
        1 <= pow128(n) <= pow128(10),
        pow128(10) == 0x40_0000_0000_0000_0000,
    decreases 10 - n,
{
    reveal_with_fuel(pow128, 11);
    if n < 10 {
        lemma_pow128_bound(n + 1);
    }
}

/// Scans the groups of a number that starts at `pos`, as `var_scan` does.
fn scan_groups(data: &[u8], pos: usize, limit: usize) -> (r: Option<(u128, usize)>)
    requires
        pos <= data.len(),
        limit <= 10,
    ensures
        match var_scan(data@.skip(pos as int), limit as nat) {
            Some((u, n)) => r == Some((u as u128, n as usize)) && 1 <= n <= limit && pos + n
                <= data.len() && u < pow128(n)
                && u < 0x40_0000_0000_0000_0000,
            None => r is None,
        },
{
    let ghost s = data@.skip(pos as int);
    let mut acc: u128 = 0;
    let mut mult: u128 = 1;
    let mut i: usize = 0;
    assert(s.skip(0) =~= s);
    while i < limit && i < data.len() - pos
        invariant
            pos <= data.len(),
            s == data@.skip(pos as int),
            limit <= 10,
            i <= limit,
            i <= data.len() - pos,
            mult == pow128(i as nat),
            acc < mult,
            var_scan(s, limit as nat) == match var_scan(s.skip(i as int), (limit - i) as nat) {
                Some((v, n)) => Some(((acc + mult * v) as nat, (n + i) as nat)),
                None => None,
            },
        decreases limit - i,
    {
        proof {
            lemma_pow128_bound(i as nat);
            lemma_pow128_bound((i + 1) as nat);
        }
        let b = data[pos + i];
        let ghost t = s.skip(i as int);
        assert(t[0] == b);
        assert(t.drop_first() =~= s.skip(i + 1));
        if b < 128 {
            assert(acc + mult * b < mult * 128) by (nonlinear_arith)
                requires b < 128, acc < mult;
            let value = acc + mult * (b as u128);
            proof {
                assert(var_scan(t, (limit - i) as nat) == Some((b as nat, 1nat)));
                assert(pow128((i + 1) as nat) == 128 * pow128(i as nat));
                lemma_pow128_bound((i + 1) as nat);
            }
            return Some((value, i + 1));
        }
        let low = (b - 128) as u128;
        assert(acc + mult * low < mult * 128) by (nonlinear_arith)
            requires acc < mult, low < 128;
        proof {
            let rest = var_scan(s.skip(i + 1), (limit - i - 1) as nat);
            match rest {
                Some((v, n)) => {
                    assert(acc + mult * (low + 128 * v) == (acc + mult * low) + (mult * 128) * v)
                        by (nonlinear_arith);
                },
                None => {},
            }
        }
        acc = acc + mult * low;
        mult = mult * 128;
        i = i + 1;
    }
    None
}

/// The 32-bit value with unsigned reinterpretation `w`, computed without a
/// truncating cast.
fn i32_from_bits(w: u32) -> (r: i32)
    ensures
        r == i32_of(w as nat),
{
    if w < 0x8000_0000 {
        w as i32
    } else {
        ((w - 0x8000_0000) as i32) + i32::MIN
    }
}

/// The 64-bit value with unsigned reinterpretation `w`, computed without a
/// truncating cast.
fn i64_from_bits(w: u64) -> (r: i64)
    ensures
        r == i64_of(w as nat),
{
    if w < 0x8000_0000_0000_0000 {
        w as i64
    } else {
        ((w - 0x8000_0000_0000_0000) as i64) + i64::MIN
    }
}

/// Reads the VarInt that starts at `pos`.
pub fn read_varint(data: &[u8], pos: usize) -> (r: Result<ReadContainer<i32>, Error>)
    requires
        pos <= data.len(),
    ensures
        match varint_decode(data@.skip(pos as int)) {
            Ok((v, n)) => r matches Ok(c) && c.content == v && c.read_len == n,
            Err(e) => r == Err::<ReadContainer<i32>, Error>(e),
        },
        r matches Ok(c) ==> 1 <= c.read_len <= data.len() - pos && c.read_len <= 5,
{
    match scan_groups(data, pos, 5) {
        Some((acc, n)) => {
            let w = (acc % 0x1_0000_0000) as u32;
            let v = i32_from_bits(w);
            assert(v == i32_of(acc as nat));
            Ok(ReadContainer::new(v, n))
        },
        None => {
            if data.len() - pos < 5 {
                Err(Error::VarIntIsTooShort)
            } else {
                Err(Error::VarIntIsTooLong)
            }
        },
    }
}

/// Reads the VarLong that starts at `pos`.
pub fn read_varlong(data: &[u8], pos: usize) -> (r: Result<ReadContainer<i64>, Error>)
    requires
        pos <= data.len(),
    ensures
        match varlong_decode(data@.skip(pos as int)) {
            Ok((v, n)) => r matches Ok(c) && c.content == v && c.read_len == n,
            Err(e) => r == Err::<ReadContainer<i64>, Error>(e),
        },
{
    match scan_groups(data, pos, 10) {
        Some((acc, n)) => {
            let w = (acc % 0x1_0000_0000_0000_0000) as u64;
            let v = i64_from_bits(w);
            assert(v == i64_of(acc as nat));
            Ok(ReadContainer::new(v, n))
        },
        None => {
            if data.len() - pos < 10 {
                Err(Error::VarLongIsTooShort)
            } else {
                Err(Error::VarLongIsTooLong)
            }
        },
    }
}

proof fn lemma_var_bytes_len(u: nat, k: nat)
    requires
        k >= 1,
        u < pow128(k),
    ensures
        1 <= var_bytes(u).len() <= k,
    decreases k,
{
    if u >= 128 {
        assert(u / 128 < pow128((k - 1) as nat));
        lemma_var_bytes_len(u / 128, (k - 1) as nat);
    }
}

proof fn lemma_var_scan_bytes(u: nat, rest: Seq<u8>, limit: nat)
    requires
        var_bytes(u).len() <= limit,
    ensures
        var_scan(var_bytes(u) + rest, limit) == Some((u, var_bytes(u).len())),
    decreases u,
{
    let s = var_bytes(u) + rest;
    if u >= 128 {
        lemma_var_scan_bytes(u / 128, rest, (limit - 1) as nat);
        assert(s.drop_first() =~= var_bytes(u / 128) + rest);
    }
}

/// Decoding the VarInt encoding of any `v`, whatever follows it, gives `v`
/// back and consumes exactly the encoding, which is one to five bytes long.
pub proof fn lemma_varint_round_trip(v: i32, rest: Seq<u8>)
    ensures
        1 <= varint_bytes(v).len() <= 5,
        varint_decode(varint_bytes(v) + rest) == Ok::<(i32, nat), Error>((v, varint_bytes(v).len())),
{
    reveal_with_fuel(pow128, 6);
    lemma_var_bytes_len(u32_of(v), 5);
    lemma_var_scan_bytes(u32_of(v), rest, 5);
}

/// Decoding the VarLong encoding of any `v`, whatever follows it, gives `v`
/// back and consumes exactly the encoding, which is one to ten bytes long.
pub proof fn lemma_varlong_round_trip(v: i64, rest: Seq<u8>)
    ensures
        1 <= varlong_bytes(v).len() <= 10,
        varlong_decode(varlong_bytes(v) + rest) == Ok::<(i64, nat), Error>((v, varlong_bytes(v).len())),
{
    lemma_pow128_bound(10);
    lemma_var_bytes_len(u64_of(v), 10);
    lemma_var_scan_bytes(u64_of(v), rest, 10);
}

/// Big-endian bytes of a 16-bit value.
pub open spec fn u16_bytes(v: u16) -> Seq<u8> {
    seq![(v / 256) as u8, (v % 256) as u8]
}

/// Big-endian bytes of a 32-bit value.
pub open spec fn u32_bytes(v: u32) -> Seq<u8> {
    seq![
        (v / 0x100_0000) as u8,
        (v / 0x1_0000 % 256) as u8,
        (v / 256 % 256) as u8,
        (v % 256) as u8,
    ]
}

/// Appends one byte.
pub fn write_byte(buf: &mut Vec<u8>, val: u8)
    ensures
        final(buf)@ == old(buf)@.push(val),
{
    buf.push(val);
}

/// Appends a big-endian unsigned short.
pub fn write_unsigned_short(buf: &mut Vec<u8>, val: u16)
    ensures
        final(buf)@ == old(buf)@ + u16_bytes(val),
{
    buf.push((val / 256) as u8);
    buf.push((val % 256) as u8);
    assert(buf@ =~= old(buf)@ + u16_bytes(val));
}

/// Appends a big-endian unsigned int.
pub fn write_unsigned_int(buf: &mut Vec<u8>, val: u32)
    ensures
        final(buf)@ == old(buf)@ + u32_bytes(val),
{
    buf.push((val / 0x100_0000) as u8);
    buf.push((val / 0x1_0000 % 256) as u8);
    buf.push((val / 256 % 256) as u8);
    buf.push((val % 256) as u8);
    assert(buf@ =~= old(buf)@ + u32_bytes(val));
}

/// Reads the byte at `pos`.
pub fn read_byte(data: &[u8], pos: usize) -> (r: Result<ReadContainer<u8>, Error>)
    requires
        pos <= data.len(),
    ensures
        pos < data.len() ==> (r matches Ok(c) && c.content == data@[pos as int] && c.read_len == 1),
        pos == data.len() ==> r == Err::<ReadContainer<u8>, Error>(Error::UnexpectedEof),
{
    if pos < data.len() {
        Ok(ReadContainer::new(data[pos], 1))
    } else {
        Err(Error::UnexpectedEof)
    }
}

/// Reads the big-endian unsigned short at `pos`.
pub fn read_unsigned_short(data: &[u8], pos: usize) -> (r: Result<ReadContainer<u16>, Error>)
    requires
        pos <= data.len(),
    ensures
        data.len() - pos >= 2 ==> (r matches Ok(c) && c.read_len == 2 && c.content == data@[pos
            as int] * 256 + data@[pos + 1]),
        data.len() - pos < 2 ==> r == Err::<ReadContainer<u16>, Error>(Error::UnexpectedEof),
{
    if data.len() - pos < 2 {
        return Err(Error::UnexpectedEof);
    }
    let v: u16 = (data[pos] as u16) * 256 + (data[pos + 1] as u16);
    Ok(ReadContainer::new(v, 2))
}

/// Reads the big-endian unsigned int at `pos`.
pub fn read_unsigned_int(data: &[u8], pos: usize) -> (r: Result<ReadContainer<u32>, Error>)
    requires
        pos <= data.len(),
    ensures
        data.len() - pos >= 4 ==> (r matches Ok(c) && c.read_len == 4 && c.content == ((data@[pos
            as int] * 256 + data@[pos + 1]) * 256 + data@[pos + 2]) * 256 + data@[pos + 3]),
        data.len() - pos < 4 ==> r == Err::<ReadContainer<u32>, Error>(Error::UnexpectedEof),
{
    if data.len() - pos < 4 {
        return Err(Error::UnexpectedEof);
    }
    let v: u32 = (((data[pos] as u32) * 256 + (data[pos + 1] as u32)) * 256 + (data[pos + 2] as u32))
        * 256 + (data[pos + 3] as u32);
    Ok(ReadContainer::new(v, 4))
}

/// The UTF-8 bytes of a string.
pub open spec fn utf8_bytes(s: Seq<char>) -> Seq<u8> {
    encode_utf8(s)
}

/// A string on the wire: the VarInt byte length, then the UTF-8 bytes.
pub open spec fn string_bytes(s: Seq<char>) -> Seq<u8> {
    varint_bytes(utf8_bytes(s).len() as i32) + utf8_bytes(s)
}

/// The string at the front of `s` with its byte count, accepting at most
/// `max_len` bytes of body. A length of zero is refused as
/// `StringHasInvalidLength`, so an empty string, though it can be written,
/// cannot be read back.
pub open spec fn string_decode(s: Seq<u8>, max_len: nat) -> Result<(Seq<char>, nat), Error> {
    match varint_decode(s) {
        Err(e) => Err(e),
        Ok((len, k)) => {
            if max_len > STRING_MAX {
                Err(Error::MaxStringLenIsTooLong)
            } else if len < 0 || len > max_len {
                Err(Error::StringIsTooLong)
            } else if len == 0 {
                Err(Error::StringHasInvalidLength)
            } else if s.len() < k + len {
                Err(Error::UnexpectedEof)
            } else if !valid_utf8(s.subrange(k as int, k + len)) {
                Err(Error::StringConvertError)
            } else {
                Ok((decode_utf8(s.subrange(k as int, k + len)), (k + len) as nat))
            }
        },
    }
}

/// Relies on `String::from_utf8`: it accepts exactly the valid UTF-8 byte
/// sequences, and the string it returns consists of those bytes.
#[verifier::external_body]
fn string_from_utf8(bytes: Vec<u8>) -> (r: Option<String>)
    ensures
        r is Some <==> valid_utf8(bytes@),
        r matches Some(s) ==> encode_utf8(s@) == bytes@,
{
    String::from_utf8(bytes).ok()
}

/// Appends a string as its VarInt byte length and UTF-8 bytes; a string of
/// more than `STRING_MAX` bytes is refused and nothing is written.
pub fn write_string(buf: &mut Vec<u8>, string: &str) -> (r: Result<(), Error>)
    ensures
        utf8_bytes(string@).len() <= STRING_MAX ==> r is Ok && final(buf)@ == old(buf)@
            + string_bytes(string@),
        utf8_bytes(string@).len() > STRING_MAX ==> r == Err::<(), Error>(Error::StringIsTooLong)
            && final(buf)@ == old(buf)@,
{
    let bytes = string.as_bytes();
    let len = bytes.len();
    if len > STRING_MAX {
        return Err(Error::StringIsTooLong);
    }
    write_varint(buf, len as i32);
    let ghost start = buf@;
    let mut i: usize = 0;
    while i < len
        invariant
            len == bytes@.len(),
            bytes@ == utf8_bytes(string@),
            i <= len,
            buf@ == start + bytes@.take(i as int),
        decreases len - i,
    {
        buf.push(bytes[i]);
        assert(bytes@.take(i + 1) =~= bytes@.take(i as int).push(bytes@[i as int]));
        i = i + 1;
    }
    assert(bytes@.take(len as int) =~= bytes@);
    Ok(())
}

/// Reads the string that starts at `pos`, with a body of at most `max_len`
/// bytes.
pub fn read_string_with_max_len(data: &[u8], pos: usize, max_len: usize) -> (r: Result<
    ReadContainer<String>,
    Error,
>)
    requires
        pos <= data.len(),
    ensures
        match string_decode(data@.skip(pos as int), max_len as nat) {
            Ok((s, n)) => r matches Ok(c) && c.content@ == s && c.read_len == n,
            Err(e) => r matches Err(f) && f == e,
        },
        r matches Ok(c) ==> c.read_len <= data.len() - pos,
{
    let ghost s = data@.skip(pos as int);
    let len_container = match read_varint(data, pos) {
        Ok(c) => c,
        Err(e) => return Err(e),
    };
    if max_len > STRING_MAX {
        return Err(Error::MaxStringLenIsTooLong);
    }
    let len_value = len_container.content;
    if len_value < 0 || len_value as usize > max_len {
        return Err(Error::StringIsTooLong);
    }
    if len_value == 0 {
        return Err(Error::StringHasInvalidLength);
    }
    let len = len_value as usize;
    let start = pos + len_container.read_len;
    if data.len() - start < len {
        return Err(Error::UnexpectedEof);
    }
    let mut body: Vec<u8> = Vec::new();
    let mut i: usize = 0;
    while i < len
        invariant
            start + len <= data.len(),
            i <= len,
            body@ == data@.subrange(start as int, start + i),
        decreases len - i,
    {
        body.push(data[start + i]);
        assert(body@ =~= data@.subrange(start as int, start + i + 1));
        i = i + 1;
    }
    assert(body@ =~= s.subrange(len_container.read_len as int, len_container.read_len + len));
    match string_from_utf8(body) {
        Some(text) => {
            proof {
                encode_utf8_decode_utf8(text@);
            }
            Ok(ReadContainer::new(text, len + len_container.read_len))
        },
        None => Err(Error::StringConvertError),
    }
}

/// Reads the string that starts at `pos`, of at most `STRING_MAX` bytes.
pub fn read_string(data: &[u8], pos: usize) -> (r: Result<ReadContainer<String>, Error>)
    requires
        pos <= data.len(),
    ensures
        match string_decode(data@.skip(pos as int), STRING_MAX as nat) {
            Ok((s, n)) => r matches Ok(c) && c.content@ == s && c.read_len == n,
            Err(e) => r matches Err(f) && f == e,
        },
        r matches Ok(c) ==> c.read_len <= data.len() - pos,
{
    read_string_with_max_len(data, pos, STRING_MAX)
}

/// Decoding the encoding of any non-empty string of at most `STRING_MAX`
/// bytes, whatever follows it, gives the string back and consumes exactly
/// the encoding.
pub proof fn lemma_string_round_trip(s: Seq<char>, rest: Seq<u8>)
    requires
        1 <= utf8_bytes(s).len() <= STRING_MAX,
    ensures
        string_decode(string_bytes(s) + rest, STRING_MAX as nat) == Ok::<(Seq<char>, nat), Error>(
            (s, string_bytes(s).len()),
        ),
{
    let len = utf8_bytes(s).len() as i32;
    let prefix = varint_bytes(len);
    let whole = string_bytes(s) + rest;
    lemma_varint_round_trip(len, utf8_bytes(s) + rest);
    assert(whole =~= prefix + (utf8_bytes(s) + rest));
    assert(whole.subrange(prefix.len() as int, prefix.len() + len) =~= utf8_bytes(s));
    encode_utf8_valid_utf8(s);
    encode_utf8_decode_utf8(s);
}

} // verus!
