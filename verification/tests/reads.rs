use binary_parser::{BinaryParser, Endian, ParseError};

fn little(bytes: &[u8]) -> BinaryParser {
    let mut parse = BinaryParser::from_u8_slice(bytes);
    parse.set_little_endian();
    parse
}

#[test]
fn reads_u8_and_i8() {
    let mut parse = BinaryParser::from_u8_slice(&[0x80, 0x7f, 0xff, 0x2a]);
    assert_eq!(parse.read_i8(), Ok(-128));
    assert_eq!(parse.read_i8(), Ok(127));
    assert_eq!(parse.read_i8(), Ok(-1));
    assert_eq!(parse.read_u8(), Ok(42));
    assert_eq!(parse.position(), 4);
    assert_eq!(parse.read_u8(), Err(ParseError::OutOfBounds));
    assert_eq!(parse.read_i8(), Err(ParseError::OutOfBounds));
    assert_eq!(parse.position(), 4);

    let mut parse = little(&[0x80, 0xfe]);
    assert_eq!(parse.read_u8(), Ok(128));
    assert_eq!(parse.read_i8(), Ok(-2));
}

#[test]
fn reads_u16_big_and_little() {
    let mut parse = BinaryParser::from_u8_slice(&[0x01, 0x02]);
    assert_eq!(parse.read_u16(), Ok(258));
    assert_eq!(parse.position(), 2);
    let mut parse = little(&[0x01, 0x02]);
    assert_eq!(parse.read_u16(), Ok(513));
    assert_eq!(parse.position(), 2);
}

#[test]
fn reads_i16_big_and_little() {
    let mut parse = BinaryParser::from_u8_slice(&[0xff, 0xfe, 0x7f, 0xff]);
    assert_eq!(parse.read_i16(), Ok(-2));
    assert_eq!(parse.read_i16(), Ok(32767));
    let mut parse = little(&[0xff, 0xfe, 0x00, 0x80]);
    assert_eq!(parse.read_i16(), Ok(-257));
    assert_eq!(parse.read_i16(), Ok(-32768));
    assert_eq!(parse.position(), 4);
}

#[test]
fn reads_u32_big_and_little() {
    let mut parse = BinaryParser::from_u8_slice(&[0x01, 0x02, 0x03, 0x04]);
    assert_eq!(parse.read_u32(), Ok(16_909_060));
    assert_eq!(parse.position(), 4);
    let mut parse = little(&[0x01, 0x02, 0x03, 0x04]);
    assert_eq!(parse.read_u32(), Ok(67_305_985));
    assert_eq!(parse.position(), 4);
}

#[test]
fn reads_i32_big_and_little() {
    let mut parse = BinaryParser::from_u8_slice(&[0xff, 0xff, 0xff, 0xfe]);
    assert_eq!(parse.read_i32(), Ok(-2));
    let mut parse = little(&[0xff, 0xff, 0xff, 0xfe]);
    assert_eq!(parse.read_i32(), Ok(-16_777_217));
    assert_eq!(parse.position(), 4);
}

#[test]
fn reads_u64_big_and_little() {
    let bytes = [0x01, 0x02, 0x03, 0x04, 0x05, 0x06, 0x07, 0x08];
    let mut parse = BinaryParser::from_u8_slice(&bytes);
    assert_eq!(parse.read_u64(), Ok(72_623_859_790_382_856));
    assert_eq!(parse.position(), 8);
    let mut parse = little(&bytes);
    assert_eq!(parse.read_u64(), Ok(578_437_695_752_307_201));
    assert_eq!(parse.position(), 8);
}

#[test]
fn reads_i64_big_and_little() {
    let bytes = [0xff, 0xff, 0xff, 0xff, 0xff, 0xff, 0xff, 0xfe];
    let mut parse = BinaryParser::from_u8_slice(&bytes);
    assert_eq!(parse.read_i64(), Ok(-2));
    let mut parse = little(&bytes);
    assert_eq!(parse.read_i64(), Ok(-72_057_594_037_927_937));
    assert_eq!(parse.position(), 8);
}

#[test]
fn reads_take_their_bytes_at_the_position() {
    let mut parse = BinaryParser::from_u8_slice(&[0xaa, 0x00, 0x01, 0x00, 0x00, 0x00, 0x02, 0xbb]);
    assert_eq!(parse.read_u8(), Ok(0xaa));
    assert_eq!(parse.read_u16(), Ok(1));
    assert_eq!(parse.read_i32(), Ok(2));
    assert_eq!(parse.read_u8(), Ok(0xbb));
    assert_eq!(parse.position(), 8);
}

#[test]
fn short_reads_fail_and_leave_the_position() {
    let mut parse = BinaryParser::from_u8_slice(&[0x01, 0x02, 0x03, 0x04, 0x05, 0x06, 0x07]);
    assert_eq!(parse.read_u64(), Err(ParseError::OutOfBounds));
    assert_eq!(parse.read_i64(), Err(ParseError::OutOfBounds));
    assert_eq!(parse.read_f64(), Err(ParseError::OutOfBounds));
    assert_eq!(parse.position(), 0);
    parse.set_position(4);
    assert_eq!(parse.read_u32(), Err(ParseError::OutOfBounds));
    assert_eq!(parse.read_i32(), Err(ParseError::OutOfBounds));
    assert_eq!(parse.read_f32(), Err(ParseError::OutOfBounds));
    assert_eq!(parse.position(), 4);
    parse.set_position(6);
    assert_eq!(parse.read_u16(), Err(ParseError::OutOfBounds));
    assert_eq!(parse.read_i16(), Err(ParseError::OutOfBounds));
    assert_eq!(parse.position(), 6);
    assert_eq!(parse.read_u8(), Ok(7));
    assert_eq!(parse.read_u8(), Err(ParseError::OutOfBounds));
    assert_eq!(parse.read_i8(), Err(ParseError::OutOfBounds));
    assert_eq!(parse.position(), 7);
}

#[test]
fn a_failed_read_can_be_followed_by_a_narrower_one() {
    let mut parse = BinaryParser::from_u8_slice(&[0x12, 0x34, 0x56]);
    assert_eq!(parse.read_u32(), Err(ParseError::OutOfBounds));
    assert_eq!(parse.read_u16(), Ok(0x1234));
    assert_eq!(parse.read_u16(), Err(ParseError::OutOfBounds));
    assert_eq!(parse.read_u8(), Ok(0x56));
}

#[test]
fn a_new_parser_is_big_endian_at_zero() {
    let parse = BinaryParser::from_u8_slice(&[1, 2, 3]);
    assert_eq!(parse.position(), 0);
    assert_eq!(parse.len(), 3);
    assert_eq!(parse.endian(), Endian::Big);
    let parse = little(&[]);
    assert_eq!(parse.endian(), Endian::Little);
    assert_eq!(parse.len(), 0);
}

#[test]
fn the_three_constructors_agree() {
    static BYTES: [u8; 4] = [0xde, 0xad, 0xbe, 0xef];
    let owned = vec![0xde, 0xad, 0xbe, 0xef];
    let mut from_vec = BinaryParser::from_vec(&owned);
    let mut from_static = BinaryParser::from_u8(&BYTES);
    let mut from_slice = BinaryParser::from_u8_slice(&owned[..]);
    assert_eq!(from_vec.read_u32(), Ok(0xdead_beef));
    assert_eq!(from_static.read_u32(), Ok(0xdead_beef));
    assert_eq!(from_slice.read_u32(), Ok(0xdead_beef));
}

#[test]
fn the_parser_keeps_its_own_copy() {
    let mut source = vec![0x01, 0x02, 0x03, 0x04];
    let mut parse = BinaryParser::from_vec(&source);
    source[0] = 0xff;
    source.clear();
    assert_eq!(parse.len(), 4);
    assert_eq!(parse.read_u32(), Ok(0x0102_0304));
}

#[test]
fn errors_describe_themselves() {
    assert_eq!(ParseError::OutOfBounds.message(), "read past the end of the buffer");
    assert_eq!(ParseError::InvalidEncoding.message(), "string is not valid UTF-8");
    assert_ne!(ParseError::OutOfBounds, ParseError::InvalidEncoding);
}
