//! The span and the fixed-width reads on it.

use vault::data::span::Span;
use vault::errors::ParseError;

#[test]
fn new_span_covers_the_buffer() {
    let data = [9u8, 8, 7];
    let span = Span::new(&data);
    assert_eq!(span.fragment(), &data[..]);
    assert_eq!(span.len(), 3);
    assert_eq!(span.location_offset(), 0);
}

#[test]
fn take_splits_at_the_count() {
    let data = [1u8, 2, 3, 4, 5];
    let (rest, taken) = Span::new(&data).take(2).unwrap();
    assert_eq!(taken.fragment(), &[1u8, 2][..]);
    assert_eq!(taken.location_offset(), 0);
    assert_eq!(rest.fragment(), &[3u8, 4, 5][..]);
    assert_eq!(rest.location_offset(), 2);
}

#[test]
fn take_of_everything_leaves_nothing() {
    let data = [1u8, 2, 3];
    let (rest, taken) = Span::new(&data).take(3).unwrap();
    assert_eq!(taken.fragment(), &data[..]);
    assert_eq!(rest.len(), 0);
    assert_eq!(rest.location_offset(), 3);
}

#[test]
fn take_of_nothing_changes_nothing() {
    let data = [1u8, 2, 3];
    let (rest, taken) = Span::new(&data).take(0).unwrap();
    assert_eq!(taken.len(), 0);
    assert_eq!(rest.fragment(), &data[..]);
    assert_eq!(rest.location_offset(), 0);
}

#[test]
fn take_beyond_the_end_is_reported() {
    let data = [1u8, 2, 3];
    assert_eq!(Span::new(&data).take(4).err(), Some(ParseError::InsufficientBytes));
}

#[test]
fn skip_advances_the_offset() {
    let data = [1u8, 2, 3, 4];
    let (rest, ()) = Span::new(&data).skip(3).unwrap();
    assert_eq!(rest.fragment(), &[4u8][..]);
    assert_eq!(rest.location_offset(), 3);
    assert_eq!(rest.skip(2).err(), Some(ParseError::InsufficientBytes));
}

#[test]
fn read_u8_takes_the_first_byte() {
    let data = [0xfeu8, 0x01];
    let (rest, value) = Span::new(&data).read_u8().unwrap();
    assert_eq!(value, 0xfe);
    assert_eq!(rest.fragment(), &[0x01u8][..]);
    assert_eq!(rest.location_offset(), 1);
    let empty: [u8; 0] = [];
    assert_eq!(Span::new(&empty).read_u8().err(), Some(ParseError::InsufficientBytes));
}

#[test]
fn read_u16_is_little_endian() {
    let data = [0x00u8, 0x03, 0x61];
    let (rest, value) = Span::new(&data).read_u16().unwrap();
    assert_eq!(value, 0x0300);
    assert_eq!(rest.fragment(), &[0x61u8][..]);
    assert_eq!(rest.location_offset(), 2);
    assert_eq!(Span::new(&data[..1]).read_u16().err(), Some(ParseError::InsufficientBytes));
}

#[test]
fn read_u32_is_little_endian() {
    let data = [0x00u8, 0x03, 0x05, 0x07, 0xaa];
    let (rest, value) = Span::new(&data).read_u32().unwrap();
    assert_eq!(value, 0x0705_0300);
    assert_eq!(rest.fragment(), &[0xaau8][..]);
    assert_eq!(rest.location_offset(), 4);
}

#[test]
fn read_u32_needs_four_bytes() {
    let data = [1u8, 2, 3];
    assert_eq!(Span::new(&data).read_u32().err(), Some(ParseError::InsufficientBytes));
}

#[test]
fn read_u32_of_the_largest_value() {
    let data = [0xffu8, 0xff, 0xff, 0xff];
    let (rest, value) = Span::new(&data).read_u32().unwrap();
    assert_eq!(value, u32::MAX);
    assert_eq!(rest.len(), 0);
}

#[test]
fn read_u64_is_little_endian() {
    let data = [0x00u8, 0x01, 0x02, 0x03, 0x04, 0x05, 0x06, 0x07, 0x08];
    let (rest, value) = Span::new(&data).read_u64().unwrap();
    assert_eq!(value, 0x0706_0504_0302_0100);
    assert_eq!(rest.fragment(), &[0x08u8][..]);
    assert_eq!(rest.location_offset(), 8);
    assert_eq!(Span::new(&data[..7]).read_u64().err(), Some(ParseError::InsufficientBytes));
}

#[test]
fn reads_chain_through_the_buffer() {
    let data = [0x2au8, 0x01, 0x00, 0x02, 0x00, 0x00, 0x00];
    let (rest, a) = Span::new(&data).read_u8().unwrap();
    let (rest, b) = rest.read_u16().unwrap();
    let (rest, c) = rest.read_u32().unwrap();
    assert_eq!((a, b, c), (0x2a, 1, 2));
    assert_eq!(rest.len(), 0);
    assert_eq!(rest.location_offset(), 7);
}
