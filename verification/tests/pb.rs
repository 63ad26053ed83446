//! The message encoding.

use ezrama::pb::{
    get_varint, last_field, put_bytes, put_message, put_tag, put_uint, put_varint, DecodeError,
    Field, Fields, Message, Value, WIRE_LEN, WIRE_VARINT,
};

fn varint(value: u64) -> Vec<u8> {
    let mut out = Vec::new();
    put_varint(&mut out, value);
    out
}

fn tag(field: u32, wire_type: u32) -> Vec<u8> {
    let mut out = Vec::new();
    put_tag(&mut out, field, wire_type);
    out
}

#[test]
fn varint_edge_values() {
    assert_eq!(varint(0), [0x00]);
    assert_eq!(varint(1), [0x01]);
    assert_eq!(varint(127), [0x7f]);
    assert_eq!(varint(128), [0x80, 0x01]);
    assert_eq!(varint(300), [0xac, 0x02]);
    assert_eq!(varint(16_383), [0xff, 0x7f]);
    assert_eq!(varint(16_384), [0x80, 0x80, 0x01]);
    assert_eq!(
        varint(u64::from(u32::MAX)),
        [0xff, 0xff, 0xff, 0xff, 0x0f]
    );
    assert_eq!(
        varint(u64::MAX),
        [0xff, 0xff, 0xff, 0xff, 0xff, 0xff, 0xff, 0xff, 0xff, 0x01]
    );
}

#[test]
fn tags_for_the_fields_in_use() {
    assert_eq!(tag(1, WIRE_VARINT), [0x08]);
    assert_eq!(tag(1, WIRE_LEN), [0x0a]);
    assert_eq!(tag(2, WIRE_VARINT), [0x10]);
    assert_eq!(tag(10, WIRE_LEN), [0x52]);
    assert_eq!(tag(100, WIRE_LEN), [0xa2, 0x06]);
    assert_eq!(tag(101, WIRE_LEN), [0xaa, 0x06]);
    assert_eq!(tag(102, WIRE_LEN), [0xb2, 0x06]);
    assert_eq!(tag(104, WIRE_LEN), [0xc2, 0x06]);
    assert_eq!(tag(201, WIRE_LEN), [0xca, 0x0c]);
}

#[test]
fn tag_masks_wire_type_to_three_bits() {
    assert_eq!(tag(1, 0xff), [0x0f]);
}

#[test]
fn uint_field_omits_zero() {
    let mut out = Vec::new();
    put_uint(&mut out, 3, 0);
    assert!(out.is_empty());
    put_uint(&mut out, 3, 1);
    assert_eq!(out, [0x18, 0x01]);
}

#[test]
fn bytes_field_omits_empty() {
    let mut out = Vec::new();
    put_bytes(&mut out, 1, b"");
    assert!(out.is_empty());
    put_bytes(&mut out, 1, b"NA");
    assert_eq!(out, [0x0a, 0x02, b'N', b'A']);
}

#[test]
fn message_field_writes_empty_body() {
    let mut out = Vec::new();
    put_message(&mut out, 1, &[]);
    assert_eq!(out, [0x0a, 0x00]);
    put_message(&mut out, 201, &[]);
    assert_eq!(out, [0x0a, 0x00, 0xca, 0x0c, 0x00]);
}

#[test]
fn builder_nests_messages() {
    let header = Message::new().uint(1, 1).uint(2, 5).uint(3, 0);
    assert_eq!(header.as_bytes(), [0x08, 0x01, 0x10, 0x05]);
    let request = Message::new().message(1, &header);
    assert_eq!(request.into_bytes(), [0x0a, 0x04, 0x08, 0x01, 0x10, 0x05]);
}

#[test]
fn builder_writes_present_empty_submessage() {
    let request = Message::new()
        .message(1, &Message::new())
        .message(10, &Message::new().bytes(1, b"hello?"));
    assert_eq!(
        request.as_bytes(),
        [0x0a, 0x00, 0x52, 0x08, 0x0a, 0x06, b'h', b'e', b'l', b'l', b'o', b'?']
    );
}

#[test]
fn builder_length_prefix_uses_varint() {
    let big = vec![0x55; 300];
    let message = Message::new().bytes(7, &big);
    let bytes = message.as_bytes();
    assert_eq!(&bytes[..3], [0x3a, 0xac, 0x02]);
    assert_eq!(bytes.len(), 3 + 300);
}

fn walk(data: &[u8]) -> Result<Vec<Field<'_>>, DecodeError> {
    let mut fields = Fields::new(data);
    let mut all = Vec::new();
    while let Some(field) = fields.next() {
        all.push(field?);
    }
    Ok(all)
}

#[test]
fn get_varint_reads_and_advances() {
    let data = [0xac, 0x02, 0x7f];
    let mut pos = 0;
    assert_eq!(get_varint(&data, &mut pos), Ok(300));
    assert_eq!(pos, 2);
    assert_eq!(get_varint(&data, &mut pos), Ok(127));
    assert_eq!(pos, 3);
    assert_eq!(get_varint(&data, &mut pos), Err(DecodeError::Truncated));
}

#[test]
fn get_varint_rejects_overlong_and_overflowing_input() {
    let eleven = [0x80u8; 11];
    let mut pos = 0;
    assert_eq!(get_varint(&eleven, &mut pos), Err(DecodeError::InvalidVarint));
    let overflow = [0xff, 0xff, 0xff, 0xff, 0xff, 0xff, 0xff, 0xff, 0xff, 0x02];
    pos = 0;
    assert_eq!(get_varint(&overflow, &mut pos), Err(DecodeError::InvalidVarint));
    let max = [0xff, 0xff, 0xff, 0xff, 0xff, 0xff, 0xff, 0xff, 0xff, 0x01];
    pos = 0;
    assert_eq!(get_varint(&max, &mut pos), Ok(u64::MAX));
}

#[test]
fn get_varint_reports_truncation_mid_value() {
    let mut pos = 0;
    assert_eq!(get_varint(&[0x80], &mut pos), Err(DecodeError::Truncated));
    pos = 0;
    assert_eq!(get_varint(&[], &mut pos), Err(DecodeError::Truncated));
}

#[test]
fn walks_every_wire_type_in_order() {
    let data = [
        0x08, 0x05, // field 1 varint 5
        0x11, 1, 0, 0, 0, 0, 0, 0, 0, // field 2 fixed64 1
        0x1a, 0x02, b'N', b'A', // field 3 len "NA"
        0x25, 7, 0, 0, 0, // field 4 fixed32 7
    ];
    assert_eq!(
        walk(&data).unwrap(),
        vec![
            Field { number: 1, value: Value::Varint(5) },
            Field { number: 2, value: Value::Fixed64(1) },
            Field { number: 3, value: Value::Len(b"NA") },
            Field { number: 4, value: Value::Fixed32(7) },
        ]
    );
}

#[test]
fn empty_message_has_no_fields() {
    assert_eq!(walk(&[]).unwrap(), Vec::new());
}

#[test]
fn nested_messages_walk_by_descending() {
    let inner = Message::new().uint(1, 1).uint(2, 5);
    let outer = Message::new().message(1, &inner).message(201, &Message::new());
    let fields = walk(outer.as_bytes()).unwrap();
    assert_eq!(fields.len(), 2);
    assert_eq!(fields[0].number, 1);
    let header = fields[0].value.as_bytes().unwrap();
    assert_eq!(
        walk(header).unwrap(),
        vec![
            Field { number: 1, value: Value::Varint(1) },
            Field { number: 2, value: Value::Varint(5) },
        ]
    );
    assert_eq!(fields[1], Field { number: 201, value: Value::Len(b"") });
}

#[test]
fn unknown_fields_are_yielded_in_position() {
    let known_then_unknown_then_known = Message::new()
        .uint(1, 1)
        .bytes(99, b"future")
        .uint(1000, 3)
        .uint(2, 2);
    let fields = walk(known_then_unknown_then_known.as_bytes()).unwrap();
    let numbers: Vec<u32> = fields.iter().map(|f| f.number).collect();
    assert_eq!(numbers, [1, 99, 1000, 2]);
    assert_eq!(fields[1].value, Value::Len(b"future"));
    assert_eq!(fields[2].value, Value::Varint(3));
}

#[test]
fn truncated_length_delimited_field_is_an_error() {
    assert_eq!(walk(&[0x0a, 0x05, b'a', b'b']), Err(DecodeError::Truncated));
}

#[test]
fn truncated_scalars_are_errors() {
    assert_eq!(walk(&[0x08]), Err(DecodeError::Truncated));
    assert_eq!(walk(&[0x08, 0x80]), Err(DecodeError::Truncated));
    assert_eq!(walk(&[0x11, 1, 2, 3]), Err(DecodeError::Truncated));
    assert_eq!(walk(&[0x25, 1, 2]), Err(DecodeError::Truncated));
}

#[test]
fn invalid_tags_are_errors() {
    assert_eq!(walk(&[0x00]), Err(DecodeError::InvalidTag));
    let too_large = [0x80, 0x80, 0x80, 0x80, 0x10];
    assert_eq!(walk(&too_large), Err(DecodeError::InvalidTag));
}

#[test]
fn deprecated_and_reserved_wire_types_are_errors() {
    for wire_type in [3u32, 4, 6, 7] {
        let tag = (1 << 3) | wire_type as u8;
        assert_eq!(walk(&[tag, 0x00]), Err(DecodeError::UnknownWireType(wire_type)));
    }
}

#[test]
fn iteration_stops_after_the_first_error() {
    let mut fields = Fields::new(&[0x0a, 0x05, b'x', 0x08, 0x01]);
    assert_eq!(fields.next(), Some(Err(DecodeError::Truncated)));
    assert_eq!(fields.next(), None);
}

#[test]
fn last_field_keeps_the_final_occurrence() {
    let data = Message::new().uint(1, 1).uint(1, 2).bytes(2, b"x");
    assert_eq!(last_field(data.as_bytes(), 1), Ok(Some(Value::Varint(2))));
    assert_eq!(last_field(data.as_bytes(), 2), Ok(Some(Value::Len(b"x"))));
    assert_eq!(last_field(data.as_bytes(), 3), Ok(None));
}

#[test]
fn last_field_reports_errors_after_a_match() {
    let data = [0x08, 0x01, 0x0a, 0x09, b'x'];
    assert_eq!(last_field(&data, 1), Err(DecodeError::Truncated));
}

#[test]
fn value_accessors() {
    assert_eq!(Value::Varint(9).as_u64(), Some(9));
    assert_eq!(Value::Fixed64(9).as_u64(), Some(9));
    assert_eq!(Value::Fixed32(9).as_u64(), Some(9));
    assert_eq!(Value::Len(b"9").as_u64(), None);
    assert_eq!(Value::Len(b"9").as_bytes(), Some(&b"9"[..]));
    assert_eq!(Value::Varint(9).as_bytes(), None);
}

#[test]
fn writer_and_reader_round_trip() {
    let request = Message::new()
        .message(1, &Message::new().uint(1, 1).uint(2, 7))
        .message(104, &Message::new());
    let fields = walk(request.as_bytes()).unwrap();
    assert_eq!(fields[0].number, 1);
    assert_eq!(
        last_field(fields[0].value.as_bytes().unwrap(), 2),
        Ok(Some(Value::Varint(7)))
    );
    assert_eq!(fields[1], Field { number: 104, value: Value::Len(b"") });
}

#[test]
fn every_varint_reads_back_wherever_it_stands() {
    for shift in 0..64 {
        for value in [1u64 << shift, (1u64 << shift) - 1, u64::MAX >> shift] {
            let mut out = vec![0xee];
            put_varint(&mut out, value);
            let end = out.len();
            out.push(0x80);
            let mut pos = 1;
            assert_eq!(get_varint(&out, &mut pos), Ok(value));
            assert_eq!(pos, end);
        }
    }
}

#[test]
fn decode_errors_render() {
    let texts: Vec<String> = [
        DecodeError::Truncated,
        DecodeError::InvalidVarint,
        DecodeError::InvalidTag,
        DecodeError::UnknownWireType(6),
    ]
    .iter()
    .map(|error| error.describe())
    .collect();
    assert!(texts[3].contains('6'));
    for (i, a) in texts.iter().enumerate() {
        assert!(texts[i + 1..].iter().all(|b| a != b));
    }
}
