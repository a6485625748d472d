use nbtrs::{Error, Tag, Taglike};

fn test_tag(data: Vec<u8>, name: &str, tag: Tag) {
    let (n, t) = Tag::parse(&data).unwrap();
    assert_eq!(n, name);
    assert_eq!(t, tag);
}

#[test]
fn test_tag_byte() {
    let data = vec![1, 0, 5, 'h' as u8, 'e' as u8, 'l' as u8, 'l' as u8, 'o' as u8, 69];
    test_tag(data, "hello", Tag::TagByte(69));
}

#[test]
fn test_tag_byte_array() {
    let data = vec![7, 0, 5, 'h' as u8, 'e' as u8, 'l' as u8, 'l' as u8, 'o' as u8, 0, 0, 0,
                    3, 69, 250, 123];
    test_tag(data, "hello", Tag::TagByteArray(vec![69, 250, 123]));
}

#[test]
fn test_tag_string() {
    let data = vec![8, 0, 5, 'h' as u8, 'e' as u8, 'l' as u8, 'l' as u8, 'o' as u8, 0, 3,
                    'c' as u8, 'a' as u8, 't' as u8];
    test_tag(data, "hello", Tag::TagString("cat".to_string()));
}

#[test]
fn test_tag_list() {
    let data = vec![9, 0, 2, 'h' as u8, 'i' as u8, 1, 0, 0, 0, 3, 1, 2, 3];
    test_tag(data,
             "hi",
             Tag::TagList(vec![Tag::TagByte(1), Tag::TagByte(2), Tag::TagByte(3)]));
}

#[test]
fn scalar_byte_roundtrip_through_accessor() {
    let data = vec![1, 0, 5, b'h', b'e', b'l', b'l', b'o', 69];
    let (name, t) = Tag::parse(&data).unwrap();
    assert_eq!(name, "hello");
    assert_eq!(t.as_i8().unwrap(), 69);
}

#[test]
fn scalar_short_negative() {
    // 0xFFFE is -2 in two's complement.
    let data = vec![2, 0, 0, 0xFF, 0xFE];
    let (_, t) = Tag::parse(&data).unwrap();
    assert_eq!(t.as_i16().unwrap(), -2);
}

#[test]
fn scalar_int_and_long() {
    let data = vec![3, 0, 0, 0x00, 0x01, 0xE2, 0x40];
    let (_, t) = Tag::parse(&data).unwrap();
    assert_eq!(t.as_i32().unwrap(), 123456);

    let data = vec![4, 0, 0, 0xFF, 0xFF, 0xFF, 0xFF, 0xFF, 0xFF, 0xFF, 0xFF];
    let (_, t) = Tag::parse(&data).unwrap();
    assert_eq!(t.as_i64().unwrap(), -1);
}

#[test]
fn scalar_float_bits() {
    // 1.5f32 is 0x3FC00000; -2.5f64 is 0xC004000000000000.
    let data = vec![5, 0, 0, 0x3F, 0xC0, 0x00, 0x00];
    let (_, t) = Tag::parse(&data).unwrap();
    assert_eq!(f32::from_bits(t.as_f32_bits().unwrap()), 1.5f32);

    let data = vec![6, 0, 0, 0xC0, 0x04, 0, 0, 0, 0, 0, 0];
    let (_, t) = Tag::parse(&data).unwrap();
    assert_eq!(f64::from_bits(t.as_f64_bits().unwrap()), -2.5f64);
}

#[test]
fn int_array_and_long_array() {
    let data = vec![11, 0, 0, 0, 0, 0, 2, 0, 0, 0, 7, 0xFF, 0xFF, 0xFF, 0xFF];
    let (_, t) = Tag::parse(&data).unwrap();
    assert_eq!(t.as_ints().unwrap(), &vec![7u32, 0xFFFF_FFFFu32]);

    let data = vec![12, 0, 0, 0, 0, 0, 1, 0, 0, 0, 0, 0, 0, 1, 2];
    let (_, t) = Tag::parse(&data).unwrap();
    assert_eq!(t.as_longs().unwrap(), &vec![258u64]);
}

#[test]
fn compound_duplicate_key_keeps_later_value() {
    // A compound holding the key "a" twice: first 1, then 2.
    let data = vec![
        10, 0, 0, // root compound named ""
        1, 0, 1, b'a', 1, // Byte "a" = 1
        1, 0, 1, b'a', 2, // Byte "a" = 2, overwrites
        0, // end marker
    ];
    let (_, t) = Tag::parse(&data).unwrap();
    assert_eq!(t.key("a").as_i8().unwrap(), 2);
    assert_eq!(t.as_map().unwrap().len(), 1);
}

#[test]
fn list_count_order_and_index_bounds() {
    let data = vec![9, 0, 0, 1, 0, 0, 0, 3, 1, 2, 3];
    let (_, t) = Tag::parse(&data).unwrap();
    let list = t.as_list().unwrap();
    assert_eq!(list.len(), 3);
    assert_eq!(t.index(0).as_i8().unwrap(), 1);
    assert_eq!(t.index(1).as_i8().unwrap(), 2);
    assert_eq!(t.index(2).as_i8().unwrap(), 3);
    assert_eq!(t.index(3).unwrap_err(), Error::InvalidIndex(3));
}

#[test]
fn compound_stops_at_end_marker() {
    // One entry, then the end marker, then trailing bytes that must be
    // ignored and never decoded as entries.
    let data = vec![
        10, 0, 0, // root compound named ""
        1, 0, 1, b'x', 5, // Byte "x" = 5
        0, // end marker consumed, not stored
        1, 0, 1, b'y', 9, // trailing garbage past the root value
    ];
    let (_, t) = Tag::parse(&data).unwrap();
    let map = t.as_map().unwrap();
    assert_eq!(map.len(), 1);
    assert_eq!(t.key("x").as_i8().unwrap(), 5);
    assert_eq!(t.key("y").unwrap_err(), Error::MissingKey("y".to_string()));
}

#[test]
fn accessor_type_mismatch_is_an_error() {
    let data = vec![8, 0, 0, 0, 2, b'h', b'i'];
    let (_, t) = Tag::parse(&data).unwrap();
    assert_eq!(t.as_string().unwrap().as_str(), "hi");
    assert_eq!(t.as_i32().unwrap_err(), Error::TypeMismatch);
    assert_eq!(t.as_i8().unwrap_err(), Error::TypeMismatch);
    assert_eq!(t.as_map().map(|m| m.len()).unwrap_err(), Error::TypeMismatch);
}

#[test]
fn chain_propagates_first_failure() {
    let data = vec![10, 0, 0, 0];
    let (_, t) = Tag::parse(&data).unwrap();
    // The first failing step decides the error of the whole chain.
    let r = t.key("Data").key("Player").index(7).as_i64();
    assert_eq!(r.unwrap_err(), Error::MissingKey("Data".to_string()));
}

#[test]
fn nested_compound_navigation() {
    let data = vec![
        10, 0, 0, // root compound ""
        10, 0, 5, b'L', b'e', b'v', b'e', b'l', // compound "Level"
        3, 0, 4, b'z', b'P', b'o', b's', 0, 0, 0, 42, // Int "zPos" = 42
        0, // end of "Level"
        0, // end of root
    ];
    let (_, t) = Tag::parse(&data).unwrap();
    assert_eq!(t.key("Level").key("zPos").as_i32().unwrap(), 42);
}

#[test]
fn string_keeps_embedded_zero_bytes() {
    // No byte filtering happens before UTF-8 validation.
    let data = vec![8, 0, 0, 0, 3, b'a', 0, b'b'];
    let (_, t) = Tag::parse(&data).unwrap();
    assert_eq!(t.as_string().unwrap().as_str(), "a\u{0}b");
}

#[test]
fn invalid_utf8_is_bad_encoding() {
    let data = vec![8, 0, 0, 0, 1, 0xFF];
    assert_eq!(Tag::parse(&data).unwrap_err(), Error::BadEncoding);
}

#[test]
fn unknown_type_id_is_unexpected_tag() {
    let data = vec![13, 0, 0];
    assert_eq!(Tag::parse(&data).unwrap_err(), Error::UnexpectedTag(13));
}

#[test]
fn truncated_input_is_unexpected_eof() {
    // The name promises five bytes and the source ends after two.
    let data = vec![1, 0, 5, b'h', b'e'];
    assert_eq!(Tag::parse(&data).unwrap_err(), Error::UnexpectedEof);
    // A byte payload that is missing entirely.
    let data = vec![1, 0, 0];
    assert_eq!(Tag::parse(&data).unwrap_err(), Error::UnexpectedEof);
    // An empty source.
    let data: Vec<u8> = vec![];
    assert_eq!(Tag::parse(&data).unwrap_err(), Error::UnexpectedEof);
}

#[test]
fn empty_list_still_consumes_element_type() {
    // Element type Byte, count zero: the element type byte is consumed and
    // the list is empty.
    let data = vec![9, 0, 0, 1, 0, 0, 0, 0];
    let (_, t) = Tag::parse(&data).unwrap();
    assert_eq!(t.as_list().unwrap().len(), 0);
}

#[test]
fn parse_tag_with_fixed_type() {
    // parse_tag with an explicit type id does not read one from the stream:
    // the first byte is the payload itself.
    let data = vec![1, 7];
    let (t, end) = Tag::parse_tag(&data, 0, Some(1)).unwrap();
    assert_eq!(t, Tag::TagByte(1));
    assert_eq!(end, 1);
    // Without one, the id comes from the stream.
    let (t, end) = Tag::parse_tag(&data, 0, None).unwrap();
    assert_eq!(t, Tag::TagByte(7));
    assert_eq!(end, 2);
}

#[test]
fn type_names() {
    assert_eq!(Tag::TagEnd.get_name(), "TAG_End");
    assert_eq!(Tag::TagByte(0).get_name(), "TAG_Byte");
    assert_eq!(Tag::TagInt(5).get_name(), "TAG_Int");
    assert_eq!(Tag::TagString("x".to_string()).get_name(), "TAG_String");
    assert_eq!(Tag::TagCompound(vec![]).get_name(), "TAG_Compound");
    assert_eq!(Tag::TagLongArray(vec![]).get_name(), "TAG_LongArray");
}

#[test]
fn error_descriptions_are_nonempty() {
    assert_eq!(Error::TypeMismatch.describe(), "type mismatch");
    assert!(!Error::UnexpectedEof.describe().is_empty());
    assert!(!Error::UnexpectedTag(13).describe().is_empty());
}

#[test]
fn longest_string_field() {
    // The largest length a 2-byte prefix can declare.
    let mut data = vec![8, 0, 0, 0xFF, 0xFF];
    data.extend(std::iter::repeat(b'a').take(65535));
    let (_, t) = Tag::parse(&data).unwrap();
    assert_eq!(t.as_string().unwrap().len(), 65535);
}

#[test]
fn end_root_value() {
    let data = vec![0, 0, 2, b'h', b'i'];
    let (name, t) = Tag::parse(&data).unwrap();
    assert_eq!(name, "hi");
    assert_eq!(t, Tag::TagEnd);
}
