use mcnotify::minecraft::data_rw as rw;
use mcnotify::minecraft::data_rw::{
    read_byte, read_unsigned_int, read_unsigned_short, write_byte, write_unsigned_int, Error,
    STRING_MAX,
};

const VARINT_DATA: [(i32, &[u8]); 10] = [
    (0_i32, &[0x00_u8]),
    (1_i32, &[0x01_u8]),
    (2_i32, &[0x02_u8]),
    (19_i32, &[0x13_u8]),
    (127_i32, &[0x7f_u8]),
    (128_i32, &[0x80_u8, 0x01_u8]),
    (255_i32, &[0xff_u8, 0x01_u8]),
    (2147483647_i32, &[0xff_u8, 0xff_u8, 0xff_u8, 0xff_u8, 0x07_u8]),
    (-1_i32, &[0xff_u8, 0xff_u8, 0xff_u8, 0xff_u8, 0x0f_u8]),
    (-2147483648_i32, &[0x80_u8, 0x80_u8, 0x80_u8, 0x80_u8, 0x08_u8]),
];

const VARLONG_DATA: [(i64, &[u8]); 11] = [
    (0_i64, &[0x00_u8]),
    (1_i64, &[0x01_u8]),
    (2_i64, &[0x02_u8]),
    (127_i64, &[0x7f_u8]),
    (128_i64, &[0x80_u8, 0x01_u8]),
    (255_i64, &[0xff_u8, 0x01_u8]),
    (2147483647_i64, &[0xff_u8, 0xff_u8, 0xff_u8, 0xff_u8, 0x07_u8]),
    (
        9223372036854775807_i64,
        &[0xff_u8, 0xff_u8, 0xff_u8, 0xff_u8, 0xff_u8, 0xff_u8, 0xff_u8, 0xff_u8, 0x7f],
    ),
    (
        -1_i64,
        &[0xff_u8, 0xff_u8, 0xff_u8, 0xff_u8, 0xff_u8, 0xff_u8, 0xff_u8, 0xff_u8, 0xff_u8, 0x01],
    ),
    (
        -2147483648_i64,
        &[0x80_u8, 0x80_u8, 0x80_u8, 0x80_u8, 0xf8_u8, 0xff_u8, 0xff_u8, 0xff_u8, 0xff_u8, 0x01],
    ),
    (
        -9223372036854775808_i64,
        &[0x80_u8, 0x80_u8, 0x80_u8, 0x80_u8, 0x80_u8, 0x80_u8, 0x80_u8, 0x80_u8, 0x80_u8, 0x01],
    ),
];

const STRING_DATA: (&str, &[u8]) = (
    "hello world😆",
    &[15, 104, 101, 108, 108, 111, 32, 119, 111, 114, 108, 100, 240, 159, 152, 134],
);

#[test]
fn write_varint() {
    for &(given, expect) in VARINT_DATA.iter() {
        let mut buf = Vec::new();
        rw::write_varint(&mut buf, given);
        assert_eq!(buf.as_slice(), expect);
    }
}

#[test]
fn write_varlong() {
    for &(given, expect) in VARLONG_DATA.iter() {
        let mut buf = Vec::new();
        rw::write_varlong(&mut buf, given);
        assert_eq!(buf.as_slice(), expect);
    }
}

#[test]
fn read_varint() {
    for &(expect, given) in VARINT_DATA.iter() {
        let result = rw::read_varint(given, 0).unwrap();
        assert_eq!(result.content, expect);
        assert_eq!(result.read_len, given.len());
    }
}

#[test]
fn read_varlong() {
    for &(expect, given) in VARLONG_DATA.iter() {
        let result = rw::read_varlong(given, 0).unwrap();
        assert_eq!(result.content, expect);
        assert_eq!(result.read_len, given.len());
    }
}

#[test]
fn write_unsigned_short() {
    let mut buf = Vec::new();
    rw::write_unsigned_short(&mut buf, 517_u16);
    assert_eq!(&buf, &vec![2_u8, 5_u8]);
}

#[test]
fn write_string() {
    let mut buf = Vec::new();
    rw::write_string(&mut buf, "hello world😆").unwrap();
    assert_eq!(
        &buf,
        &vec![15, 104, 101, 108, 108, 111, 32, 119, 111, 114, 108, 100, 240, 159, 152, 134]
    );
}

#[test]
fn read_string() {
    let (expected, given) = STRING_DATA;
    let s = rw::read_string(given, 0).unwrap();
    assert_eq!(&s.content, expected);
}

#[test]
fn read_string_with_max_len() {
    let (expected, given) = STRING_DATA;
    let s = rw::read_string_with_max_len(given, 0, expected.len()).unwrap();
    assert_eq!(&s.content, expected);
}

#[test]
fn varint_round_trip_on_samples() {
    let samples = [0, 1, 127, 128, 300, 25565, 2097151, 2097152, i32::MAX, -1, -300, i32::MIN];
    for &v in samples.iter() {
        let mut buf = Vec::new();
        rw::write_varint(&mut buf, v);
        buf.extend_from_slice(&[0xAA, 0xBB]);
        let back = rw::read_varint(&buf, 0).unwrap();
        assert_eq!(back.content, v);
        assert_eq!(back.read_len, buf.len() - 2);
    }
}

#[test]
fn varlong_round_trip_on_samples() {
    let samples = [0, 1, 127, 128, 1 << 35, (1 << 62) + 7, i64::MAX, -1, -(1 << 40), i64::MIN];
    for &v in samples.iter() {
        let mut buf = Vec::new();
        rw::write_varlong(&mut buf, v);
        let back = rw::read_varlong(&buf, 0).unwrap();
        assert_eq!(back.content, v);
        assert_eq!(back.read_len, buf.len());
    }
}

#[test]
fn varint_with_six_groups_is_too_long() {
    let given = [0x80_u8, 0x80, 0x80, 0x80, 0x80, 0x01];
    assert_eq!(rw::read_varint(&given, 0).err(), Some(Error::VarIntIsTooLong));
}

#[test]
fn varint_that_ends_early_is_too_short() {
    let given = [0x80_u8, 0x80];
    assert_eq!(rw::read_varint(&given, 0).err(), Some(Error::VarIntIsTooShort));
    assert_eq!(rw::read_varint(&given, 2).err(), Some(Error::VarIntIsTooShort));
}

#[test]
fn varlong_errors() {
    let long = [0xff_u8; 10];
    assert_eq!(rw::read_varlong(&long, 0).err(), Some(Error::VarLongIsTooLong));
    let short = [0xff_u8; 9];
    assert_eq!(rw::read_varlong(&short, 0).err(), Some(Error::VarLongIsTooShort));
}

#[test]
fn varint_fifth_group_wraps_to_32_bits() {
    // 0x7f in the fifth group: only its low four bits fit in 32 bits.
    let given = [0xff_u8, 0xff, 0xff, 0xff, 0x7f];
    assert_eq!(rw::read_varint(&given, 0).unwrap().content, -1);
}

#[test]
fn read_varint_at_offset() {
    let given = [0x05_u8, 0x80, 0x01, 0x00];
    let c = rw::read_varint(&given, 1).unwrap();
    assert_eq!(c.content, 128);
    assert_eq!(c.read_len, 2);
}

#[test]
fn fixed_width_integers_are_big_endian() {
    let mut buf = Vec::new();
    write_byte(&mut buf, 7);
    rw::write_unsigned_short(&mut buf, 0xBEEF);
    write_unsigned_int(&mut buf, 0x0102_0304);
    assert_eq!(buf, vec![7, 0xBE, 0xEF, 1, 2, 3, 4]);
    assert_eq!(read_byte(&buf, 0).unwrap().content, 7);
    assert_eq!(read_unsigned_short(&buf, 1).unwrap().content, 0xBEEF);
    let int = read_unsigned_int(&buf, 3).unwrap();
    assert_eq!(int.content, 0x0102_0304);
    assert_eq!(int.read_len, 4);
    assert_eq!(read_unsigned_int(&buf, 4).err(), Some(Error::UnexpectedEof));
    assert_eq!(read_byte(&buf, 7).err(), Some(Error::UnexpectedEof));
}

#[test]
fn string_round_trip_on_samples() {
    for s in ["a", "hello world😆", "日本語のテキスト", &"x".repeat(STRING_MAX)] {
        let mut buf = Vec::new();
        rw::write_string(&mut buf, s).unwrap();
        buf.push(0x42);
        let back = rw::read_string(&buf, 0).unwrap();
        assert_eq!(back.content, s);
        assert_eq!(back.read_len, buf.len() - 1);
    }
}

#[test]
fn string_longer_than_limit_is_refused() {
    let mut buf = vec![9_u8];
    let long = "y".repeat(STRING_MAX + 1);
    assert_eq!(rw::write_string(&mut buf, &long), Err(Error::StringIsTooLong));
    assert_eq!(buf, vec![9_u8]);
}

#[test]
fn empty_string_is_refused_on_read() {
    let mut buf = Vec::new();
    rw::write_string(&mut buf, "").unwrap();
    assert_eq!(buf, vec![0_u8]);
    assert_eq!(rw::read_string(&buf, 0).err(), Some(Error::StringHasInvalidLength));
}

#[test]
fn string_read_errors() {
    let (_, given) = STRING_DATA;
    assert_eq!(rw::read_string_with_max_len(given, 0, 14).err(), Some(Error::StringIsTooLong));
    assert_eq!(
        rw::read_string_with_max_len(given, 0, STRING_MAX + 1).err(),
        Some(Error::MaxStringLenIsTooLong)
    );
    assert_eq!(rw::read_string(&given[..10], 0).err(), Some(Error::UnexpectedEof));
    let invalid = [2_u8, 0xC3, 0x28];
    assert_eq!(rw::read_string(&invalid, 0).err(), Some(Error::StringConvertError));
    let negative = [0xff_u8, 0xff, 0xff, 0xff, 0x0f];
    assert_eq!(rw::read_string(&negative, 0).err(), Some(Error::StringIsTooLong));
}
