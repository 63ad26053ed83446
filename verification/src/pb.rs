//! Minimal protobuf wire encoding and decoding.
//!
//! Encoding follows proto3 canonical serialization: scalars equal to zero and
//! empty byte strings are omitted, while a sub-message that is present is
//! written even when it has no fields.
//!
//! Decoding walks a message field by field without a schema. Unknown fields
//! are yielded like any other so callers can ignore or preserve them.

use vstd::prelude::*;
use vstd::slice::slice_subrange;

use crate::text;

verus! {

/// Wire type for varint-encoded scalars.
pub const WIRE_VARINT: u32 = 0;

/// Wire type for 64-bit fixed-width values.
pub const WIRE_FIXED64: u32 = 1;

/// Wire type for length-delimited values: bytes, strings, sub-messages.
pub const WIRE_LEN: u32 = 2;

/// Wire type for 32-bit fixed-width values.
pub const WIRE_FIXED32: u32 = 5;

/// Largest field number protobuf allows.
pub const MAX_FIELD: u64 = 536_870_911;

/// Longest varint that fits in 64 bits.
const MAX_VARINT_BYTES: usize = 10;

// ---------------------------------------------------------------------------
// What the encodings are.
// ---------------------------------------------------------------------------

/// `value` in base 128, least significant group first, with the top bit of
/// every byte but the last one set.
pub open spec fn varint(value: nat) -> Seq<u8>
    decreases value,
{
    if value < 128 {
        seq![value as u8]
    } else {
        seq![(value % 128 + 128) as u8] + varint(value / 128)
    }
}

/// The tag of `field` with the low three bits of `wire_type`.
pub open spec fn tag(field: u32, wire_type: u32) -> Seq<u8> {
    varint((field * 8 + wire_type % 8) as nat)
}

/// A varint field; zero is not written.
pub open spec fn uint_field(field: u32, value: u64) -> Seq<u8> {
    if value == 0 {
        Seq::empty()
    } else {
        tag(field, WIRE_VARINT) + varint(value as nat)
    }
}

/// A length-delimited field, written whatever it holds.
pub open spec fn message_field(field: u32, body: Seq<u8>) -> Seq<u8> {
    tag(field, WIRE_LEN) + varint(body.len()) + body
}

/// A length-delimited field; an empty value is not written.
pub open spec fn bytes_field(field: u32, value: Seq<u8>) -> Seq<u8> {
    if value.len() == 0 {
        Seq::empty()
    } else {
        message_field(field, value)
    }
}

/// Appends `value` as a base-128 varint.
pub fn put_varint(out: &mut Vec<u8>, value: u64)
    ensures
        final(out)@ == old(out)@ + varint(value as nat),
{
    let mut value: u64 = value;
    let ghost whole = varint(value as nat);
    while value >= 0x80
        invariant
            out@ + varint(value as nat) == old(out)@ + whole,
        decreases value,
    {
        assert((value as u8 & 0x7f) | 0x80 == (value % 128 + 128) as u8) by (bit_vector);
        assert(value >> 7 == value / 128) by (bit_vector);
        let ghost before = out@;
        out.push((value as u8 & 0x7f) | 0x80);
        assert(before + varint(value as nat) == out@ + varint((value / 128) as nat));
        value >>= 7;
    }
    let ghost before = out@;
    out.push(value as u8);
    assert(out@ == before + varint(value as nat));
}

/// Appends the tag for `field` with the given wire type.
pub fn put_tag(out: &mut Vec<u8>, field: u32, wire_type: u32)
    ensures
        final(out)@ == old(out)@ + tag(field, wire_type),
{
    let number: u64 = field as u64;
    let kind: u32 = wire_type & 0x7;
    assert(kind == wire_type % 8) by (bit_vector)
        requires
            kind == wire_type & 0x7,
    ;
    assert((number << 3) | (kind as u64) == number * 8 + kind) by (bit_vector)
        requires
            number <= 0xffff_ffff,
            kind < 8,
    ;
    put_varint(out, (number << 3) | (kind as u64));
}

/// Appends a varint field. Zero is the proto3 default and is not written.
pub fn put_uint(out: &mut Vec<u8>, field: u32, value: u64)
    ensures
        final(out)@ == old(out)@ + uint_field(field, value),
{
    if value == 0 {
        assert(out@ + uint_field(field, value) == out@);
        return;
    }
    put_tag(out, field, WIRE_VARINT);
    put_varint(out, value);
    assert(out@ == old(out)@ + uint_field(field, value));
}

/// Appends a length-delimited field. An empty value is the proto3 default
/// and is not written.
pub fn put_bytes(out: &mut Vec<u8>, field: u32, value: &[u8])
    ensures
        final(out)@ == old(out)@ + bytes_field(field, value@),
{
    if value.len() == 0 {
        assert(out@ + bytes_field(field, value@) == out@);
        return;
    }
    put_len(out, field, value);
}

/// Appends a sub-message field. Written even when `body` is empty, which is
/// how a present but default-valued message appears on the wire.
pub fn put_message(out: &mut Vec<u8>, field: u32, body: &[u8])
    ensures
        final(out)@ == old(out)@ + message_field(field, body@),
{
    put_len(out, field, body);
}

fn put_len(out: &mut Vec<u8>, field: u32, value: &[u8])
    ensures
        final(out)@ == old(out)@ + message_field(field, value@),
{
    put_tag(out, field, WIRE_LEN);
    put_varint(out, value.len() as u64);
    let ghost before = out@;
    out.extend_from_slice(value);
    assert(out@ == before + value@);
    assert(out@ == old(out)@ + message_field(field, value@));
}

/// Builds a message body field by field.
#[derive(Debug, Clone, PartialEq, Eq)]
pub struct Message {
    buf: Vec<u8>,
}

impl View for Message {
    type V = Seq<u8>;

    /// The bytes written so far.
    closed spec fn view(&self) -> Seq<u8> {
        self.buf@
    }
}

impl Default for Message {
    /// A message without fields.
    fn default() -> (message: Self)
        ensures
            message@ == Seq::<u8>::empty(),
    {
        Message { buf: Vec::new() }
    }
}

impl Message {
    /// A message without fields.
    pub fn new() -> (message: Self)
        ensures
            message@ == Seq::<u8>::empty(),
    {
        Message { buf: Vec::new() }
    }

    /// Adds a varint field; zero is omitted.
    pub fn uint(self, field: u32, value: u64) -> (message: Self)
        ensures
            message@ == self@ + uint_field(field, value),
    {
        let mut buf = self.buf;
        put_uint(&mut buf, field, value);
        Message { buf }
    }

    /// Adds a bytes or string field; empty is omitted.
    pub fn bytes(self, field: u32, value: &[u8]) -> (message: Self)
        ensures
            message@ == self@ + bytes_field(field, value@),
    {
        let mut buf = self.buf;
        put_bytes(&mut buf, field, value);
        Message { buf }
    }

    /// Adds a sub-message field; written even when empty.
    pub fn message(self, field: u32, inner: &Message) -> (message: Self)
        ensures
            message@ == self@ + message_field(field, inner@),
    {
        let mut buf = self.buf;
        put_message(&mut buf, field, inner.buf.as_slice());
        Message { buf }
    }

    /// The bytes written so far.
    pub fn as_bytes(&self) -> (bytes: &[u8])
        ensures
            bytes@ == self@,
    {
        self.buf.as_slice()
    }

    /// The finished bytes.
    pub fn into_bytes(self) -> (bytes: Vec<u8>)
        ensures
            bytes@ == self@,
    {
        self.buf
    }
}


/// Why a message could not be read.
#[derive(Debug, Clone, Copy, PartialEq, Eq, Structural)]
pub enum DecodeError {
    /// The input ended in the middle of a tag, value, or length-prefixed
    /// field.
    Truncated,
    /// A varint ran past ten bytes or did not fit in 64 bits.
    InvalidVarint,
    /// A tag had field number zero or a number above [`MAX_FIELD`].
    InvalidTag,
    /// A tag used a wire type this decoder does not accept.
    UnknownWireType(u32),
}

/// A decoded field value. Length-delimited values borrow from the input.
#[derive(Debug, Clone, Copy, PartialEq, Eq)]
pub enum Value<'a> {
    Varint(u64),
    Fixed64(u64),
    Len(&'a [u8]),
    Fixed32(u32),
}

/// What a [`Value`] holds.
pub enum ValueView {
    Varint(u64),
    Fixed64(u64),
    Len(Seq<u8>),
    Fixed32(u32),
}

impl<'a> View for Value<'a> {
    type V = ValueView;

    open spec fn view(&self) -> ValueView {
        match *self {
            Value::Varint(v) => ValueView::Varint(v),
            Value::Fixed64(v) => ValueView::Fixed64(v),
            Value::Len(bytes) => ValueView::Len(bytes@),
            Value::Fixed32(v) => ValueView::Fixed32(v),
        }
    }
}

impl ValueView {
    /// The value as an unsigned integer, for varint and fixed-width fields.
    pub open spec fn number(self) -> Option<u64> {
        match self {
            ValueView::Varint(v) => Some(v),
            ValueView::Fixed64(v) => Some(v),
            ValueView::Fixed32(v) => Some(v as u64),
            ValueView::Len(_) => None,
        }
    }

    /// The raw bytes of a length-delimited field.
    pub open spec fn bytes(self) -> Option<Seq<u8>> {
        match self {
            ValueView::Len(bytes) => Some(bytes),
            _ => None,
        }
    }
}

impl<'a> Value<'a> {
    /// The value as an unsigned integer, for varint and fixed-width fields.
    pub fn as_u64(&self) -> (number: Option<u64>)
        ensures
            number == self@.number(),
    {
        match *self {
            Value::Varint(v) => Some(v),
            Value::Fixed64(v) => Some(v),
            Value::Fixed32(v) => Some(v as u64),
            Value::Len(_) => None,
        }
    }

    /// The raw bytes of a length-delimited field.
    pub fn as_bytes(&self) -> (bytes: Option<&'a [u8]>)
        ensures
            bytes is Some <==> self@.bytes() is Some,
            bytes is Some ==> bytes->0@ == self@.bytes()->0,
    {
        match *self {
            Value::Len(bytes) => Some(bytes),
            _ => None,
        }
    }
}

/// One field read from a message.
#[derive(Debug, Clone, Copy, PartialEq, Eq)]
pub struct Field<'a> {
    pub number: u32,
    pub value: Value<'a>,
}

/// What a [`Field`] holds.
pub struct FieldView {
    pub number: u32,
    pub value: ValueView,
}

impl<'a> View for Field<'a> {
    type V = FieldView;

    open spec fn view(&self) -> FieldView {
        FieldView { number: self.number, value: self.value@ }
    }
}

// ---------------------------------------------------------------------------
// What decoding means.
// ---------------------------------------------------------------------------

/// The varint that `data` begins with when at most `left` bytes may still
/// belong to it: its value and how many bytes it takes. The last byte of the
/// ten has room for one bit only.
pub open spec fn varint_within(data: Seq<u8>, left: nat) -> Result<(nat, nat), DecodeError>
    decreases left,
{
    if left == 0 {
        Err(DecodeError::InvalidVarint)
    } else if data.len() == 0 {
        Err(DecodeError::Truncated)
    } else if left == 1 && data[0] % 128 > 1 {
        Err(DecodeError::InvalidVarint)
    } else if data[0] < 128 {
        Ok((data[0] as nat, 1))
    } else {
        match varint_within(data.skip(1), (left - 1) as nat) {
            Ok((value, len)) => Ok(((data[0] % 128) as nat + 128 * value, len + 1)),
            Err(error) => Err(error),
        }
    }
}

/// The varint that `data` begins with: its value and how many bytes it takes.
pub open spec fn decode_varint(data: Seq<u8>) -> Result<(nat, nat), DecodeError> {
    varint_within(data, 10)
}

/// The bytes of `data` from `pos` on; none when `pos` lies past the end.
pub open spec fn from_pos(data: Seq<u8>, pos: int) -> Seq<u8> {
    if 0 <= pos <= data.len() {
        data.skip(pos)
    } else {
        Seq::empty()
    }
}

/// Where reading a varint at `pos` stops: past the varint, at the end of the
/// data when it is cut short, or past the tenth byte when it is invalid.
pub open spec fn varint_end(data: Seq<u8>, pos: int) -> int {
    match decode_varint(from_pos(data, pos)) {
        Ok((_, len)) => pos + len,
        Err(DecodeError::Truncated) => if pos < data.len() {
            data.len() as int
        } else {
            pos
        },
        Err(_) => pos + 10,
    }
}

/// The little-endian value of the first four bytes.
pub open spec fn le32(data: Seq<u8>) -> int {
    data[0] + data[1] * 0x100 + data[2] * 0x1_0000 + data[3] * 0x100_0000
}

/// The little-endian value of the first eight bytes.
pub open spec fn le64(data: Seq<u8>) -> int {
    le32(data) + le32(data.skip(4)) * 0x1_0000_0000
}

/// The value of a field with this wire type at the start of `data`, and how
/// many bytes it takes.
pub open spec fn decode_value(data: Seq<u8>, wire_type: nat) -> Result<
    (ValueView, nat),
    DecodeError,
> {
    if wire_type == 0 {
        match decode_varint(data) {
            Ok((value, len)) => Ok((ValueView::Varint(value as u64), len)),
            Err(error) => Err(error),
        }
    } else if wire_type == 1 {
        if data.len() < 8 {
            Err(DecodeError::Truncated)
        } else {
            Ok((ValueView::Fixed64(le64(data) as u64), 8))
        }
    } else if wire_type == 2 {
        match decode_varint(data) {
            Ok((count, len)) => if count > data.len() - len {
                Err(DecodeError::Truncated)
            } else {
                Ok((ValueView::Len(data.subrange(len as int, (len + count) as int)), len + count))
            },
            Err(error) => Err(error),
        }
    } else if wire_type == 5 {
        if data.len() < 4 {
            Err(DecodeError::Truncated)
        } else {
            Ok((ValueView::Fixed32(le32(data) as u32), 4))
        }
    } else {
        Err(DecodeError::UnknownWireType(wire_type as u32))
    }
}

/// The field that `data` begins with and how many bytes it takes.
pub open spec fn decode_field(data: Seq<u8>) -> Result<(FieldView, nat), DecodeError> {
    match decode_varint(data) {
        Err(error) => Err(error),
        Ok((tag, len)) => if tag / 8 == 0 || tag / 8 > MAX_FIELD {
            Err(DecodeError::InvalidTag)
        } else {
            match decode_value(data.skip(len as int), tag % 8) {
                Err(error) => Err(error),
                Ok((value, size)) => Ok(
                    (FieldView { number: (tag / 8) as u32, value }, len + size),
                ),
            }
        },
    }
}

/// A varint takes at least one byte, at most `left` of them, and no more than
/// there are; what it holds fits in seven bits for each byte before the last
/// one of ten.
proof fn lemma_varint_within(data: Seq<u8>, left: nat)
    ensures
        varint_within(data, left) matches Ok((value, len)) ==> 1 <= len <= left && len
            <= data.len(),
        varint_within(data, left) matches Err(error) ==> error == DecodeError::Truncated || error
            == DecodeError::InvalidVarint,
    decreases left,
{
    if left > 0 && data.len() > 0 {
        lemma_varint_within(data.skip(1), (left - 1) as nat);
    }
}

/// A field takes at least two bytes and no more than there are.
pub proof fn field_size(data: Seq<u8>)
    ensures
        decode_field(data) matches Ok((_, size)) ==> 2 <= size <= data.len(),
{
    lemma_varint_within(data, 10);
    if let Ok((tag, len)) = decode_varint(data) {
        lemma_varint_within(data.skip(len as int), 10);
    }
}

/// Reads every field of `data` in wire order, each one taken up by `step`.
/// The first error, of the reading or of `step`, is the result.
pub open spec fn fold_fields<A>(
    data: Seq<u8>,
    acc: A,
    step: spec_fn(A, FieldView) -> Result<A, DecodeError>,
) -> Result<A, DecodeError>
    decreases data.len(),
{
    if data.len() == 0 {
        Ok(acc)
    } else {
        match decode_field(data) {
            Err(error) => Err(error),
            Ok((field, size)) => {
                proof {
                    field_size(data);
                }
                match step(acc, field) {
                    Err(error) => Err(error),
                    Ok(next) => fold_fields(data.skip(size as int), next, step),
                }
            },
        }
    }
}

/// What one unit of the group at `index` of a varint is worth.
spec fn group_scale(index: nat) -> nat
    decreases index,
{
    if index == 0 {
        1
    } else {
        128 * group_scale((index - 1) as nat)
    }
}

/// Reading one more group of a varint: what the groups read so far (`low`,
/// below `scale`) and the rest make together.
proof fn lemma_next_group(low: int, scale: int, bits: int, rest: int)
    ensures
        low + scale * (bits + 128 * rest) == (low + scale * bits) + (scale * 128) * rest,
{
    assert(scale * (bits + 128 * rest) == scale * bits + (scale * 128) * rest)
        by (nonlinear_arith);
}

/// Reads a varint starting at `*pos`, advancing `*pos` past it.
pub fn get_varint(data: &[u8], pos: &mut usize) -> (result: Result<u64, DecodeError>)
    ensures
        match decode_varint(from_pos(data@, *old(pos) as int)) {
            Ok((value, _)) => value <= u64::MAX && result == Ok::<u64, DecodeError>(value as u64),
            Err(error) => result == Err::<u64, DecodeError>(error),
        },
        *final(pos) == varint_end(data@, *old(pos) as int),
{
    let ghost start = *pos as int;
    let ghost whole = decode_varint(from_pos(data@, start));
    let mut value: u64 = 0;
    let mut scale: u64 = 1;
    let mut index: usize = 0;
    while index < MAX_VARINT_BYTES
        invariant
            index <= 10,
            start == *old(pos),
            index > 0 ==> *pos <= data@.len(),
            *pos == start + index,
            whole == decode_varint(from_pos(data@, start)),
            index < 10 ==> value < scale,
            index < 10 ==> scale == group_scale(index as nat),
            match varint_within(from_pos(data@, *pos as int), (10 - index) as nat) {
                Ok((rest, len)) => index < 10 && whole == Ok::<(nat, nat), DecodeError>(
                    ((value + scale * rest) as nat, (len + index) as nat),
                ),
                Err(error) => whole == Err::<(nat, nat), DecodeError>(error),
            },
        decreases 10 - index,
    {
        proof {
            reveal_with_fuel(group_scale, 11);
            lemma_varint_within(from_pos(data@, *pos as int), (10 - index) as nat);
        }
        if *pos >= data.len() {
            return Err(DecodeError::Truncated);
        }
        let byte: u8 = data[*pos];
        let ghost here = from_pos(data@, *pos as int);
        assert(here[0] == byte);
        assert(here.skip(1) == from_pos(data@, *pos + 1));
        *pos = *pos + 1;
        assert(byte & 0x7f == byte % 128) by (bit_vector);
        assert(byte & 0x80 == 0 <==> byte < 128) by (bit_vector);
        let bits: u64 = (byte & 0x7f) as u64;
        if index == MAX_VARINT_BYTES - 1 && bits > 1 {
            return Err(DecodeError::InvalidVarint);
        }
        assert(value + scale * bits < scale * 128 && value + scale * bits <= u64::MAX)
            by (nonlinear_arith)
            requires
                value < scale,
                bits < 128,
                scale <= 0x100_0000_0000_0000 || (scale <= 0x8000_0000_0000_0000 && bits <= 1),
        ;
        proof {
            if let Ok((rest, _)) = varint_within(here.skip(1), (10 - index - 1) as nat) {
                lemma_next_group(value as int, scale as int, bits as int, rest as int);
            }
            assert(scale * bits >= 0) by (nonlinear_arith)
                requires
                    scale >= 0,
                    bits >= 0,
            ;
        }
        value = value + scale * bits;
        if byte & 0x80 == 0 {
            return Ok(value);
        }
        if index < MAX_VARINT_BYTES - 1 {
            scale = scale * 128;
        }
        index = index + 1;
    }
    Err(DecodeError::InvalidVarint)
}

/// The little-endian value of four bytes.
fn le32_value(bytes: &[u8]) -> (value: u32)
    requires
        bytes@.len() == 4,
    ensures
        value == le32(bytes@),
{
    bytes[0] as u32 + bytes[1] as u32 * 0x100 + bytes[2] as u32 * 0x1_0000 + bytes[3] as u32
        * 0x100_0000
}

/// The little-endian value of eight bytes.
fn le64_value(bytes: &[u8]) -> (value: u64)
    requires
        bytes@.len() == 8,
    ensures
        value == le64(bytes@),
{
    let low: u32 = le32_value(slice_subrange(bytes, 0, 4));
    let high: u32 = le32_value(slice_subrange(bytes, 4, 8));
    low as u64 + high as u64 * 0x1_0000_0000
}

/// Iterates over the fields of a message in wire order.
///
/// The first error ends the iteration.
#[derive(Debug, Clone)]
pub struct Fields<'a> {
    data: &'a [u8],
    pos: usize,
    failed: bool,
}

impl<'a> Fields<'a> {
    /// The bytes that are still to be read; none after an error.
    pub closed spec fn rest(&self) -> Seq<u8> {
        if self.failed {
            Seq::empty()
        } else {
            from_pos(self.data@, self.pos as int)
        }
    }

    /// Starts at the first field of `data`.
    pub fn new(data: &'a [u8]) -> (fields: Self)
        ensures
            fields.rest() == data@,
    {
        let fields = Fields { data, pos: 0, failed: false };
        assert(fields.rest() == data@);
        fields
    }

    fn read_field(&mut self) -> (result: Result<Field<'a>, DecodeError>)
        requires
            !old(self).failed,
            old(self).pos <= old(self).data@.len(),
        ensures
            final(self).data == old(self).data,
            !final(self).failed,
            match decode_field(old(self).rest()) {
                Ok((field, size)) => {
                    &&& result matches Ok(read) && read@ == field
                    &&& final(self).pos == old(self).pos + size
                },
                Err(error) => result == Err::<Field<'a>, DecodeError>(error),
            },
    {
        let ghost rest = self.rest();
        proof {
            lemma_varint_within(rest, 10);
        }
        let tag: u64 = get_varint(self.data, &mut self.pos)?;
        let ghost after = rest.skip(self.pos - old(self).pos);
        assert(after == from_pos(self.data@, self.pos as int));
        assert(tag >> 3 == tag / 8) by (bit_vector);
        assert((tag & 0x7) as u32 == tag % 8) by (bit_vector);
        let number: u64 = tag >> 3;
        if number == 0 || number > MAX_FIELD {
            return Err(DecodeError::InvalidTag);
        }
        let wire_type: u32 = (tag & 0x7) as u32;
        proof {
            lemma_varint_within(after, 10);
        }
        let value = if wire_type == WIRE_VARINT {
            Value::Varint(get_varint(self.data, &mut self.pos)?)
        } else if wire_type == WIRE_FIXED64 {
            let bytes = self.take(8)?;
            proof {
                assert(bytes@ == after.take(8));
                assert(bytes@.skip(4)[0] == after.skip(4)[0]);
                assert(le64(bytes@) == le64(after));
            }
            Value::Fixed64(le64_value(bytes))
        } else if wire_type == WIRE_LEN {
            let count: u64 = get_varint(self.data, &mut self.pos)?;
            let remaining: u64 = (self.data.len() - self.pos) as u64;
            if count > remaining {
                return Err(DecodeError::Truncated);
            }
            let start: usize = self.pos;
            self.pos = self.pos + count as usize;
            let bytes = slice_subrange(self.data, start, self.pos);
            let ghost len = start - (self.data@.len() - after.len());
            assert(bytes@ == after.subrange(len, len + count));
            Value::Len(bytes)
        } else if wire_type == WIRE_FIXED32 {
            let bytes = self.take(4)?;
            assert(bytes@ == after.take(4));
            Value::Fixed32(le32_value(bytes))
        } else {
            return Err(DecodeError::UnknownWireType(wire_type));
        };
        Ok(Field { number: number as u32, value })
    }

    /// The next `count` bytes.
    fn take(&mut self, count: usize) -> (result: Result<&'a [u8], DecodeError>)
        requires
            old(self).pos <= old(self).data@.len(),
        ensures
            final(self).data == old(self).data,
            final(self).failed == old(self).failed,
            if count > old(self).data@.len() - old(self).pos {
                result == Err::<&'a [u8], DecodeError>(DecodeError::Truncated) && final(self).pos
                    == old(self).pos
            } else {
                &&& result matches Ok(bytes) && bytes@ == old(self).data@.subrange(
                    old(self).pos as int,
                    old(self).pos + count,
                )
                &&& final(self).pos == old(self).pos + count
            },
    {
        if count > self.data.len() - self.pos {
            return Err(DecodeError::Truncated);
        }
        let start: usize = self.pos;
        self.pos = start + count;
        Ok(slice_subrange(self.data, start, start + count))
    }

    /// The next field, or `None` at the end of the message or after an
    /// error.
    pub fn next(&mut self) -> (item: Option<Result<Field<'a>, DecodeError>>)
        ensures
            if old(self).rest().len() == 0 {
                item is None && final(self).rest() == old(self).rest()
            } else {
                match decode_field(old(self).rest()) {
                    Ok((field, size)) => {
                        &&& item matches Some(Ok(read)) && read@ == field
                        &&& final(self).rest() == old(self).rest().skip(size as int)
                    },
                    Err(error) => {
                        &&& item == Some(Err::<Field<'a>, DecodeError>(error))
                        &&& final(self).rest().len() == 0
                    },
                }
            },
    {
        if self.failed || self.pos >= self.data.len() {
            return None;
        }
        proof {
            field_size(self.rest());
        }
        match self.read_field() {
            Ok(field) => {
                assert(self.rest() == old(self).rest().skip(self.pos - old(self).pos));
                Some(Ok(field))
            },
            Err(error) => {
                self.failed = true;
                Some(Err(error))
            },
        }
    }
}

impl DecodeError {
    /// What [`DecodeError::describe`] says.
    pub open spec fn text(self) -> Seq<char> {
        match self {
            DecodeError::Truncated => "protobuf message is truncated"@,
            DecodeError::InvalidVarint => "protobuf varint is invalid"@,
            DecodeError::InvalidTag => "protobuf field tag is invalid"@,
            DecodeError::UnknownWireType(t) => "protobuf wire type "@ + crate::text::decimal(
                t as nat,
            ) + " is not supported"@,
        }
    }

    /// The error in words.
    pub fn describe(&self) -> (text: String)
        ensures
            text@ == self.text(),
    {
        match *self {
            DecodeError::Truncated => "protobuf message is truncated".to_owned(),
            DecodeError::InvalidVarint => "protobuf varint is invalid".to_owned(),
            DecodeError::InvalidTag => "protobuf field tag is invalid".to_owned(),
            DecodeError::UnknownWireType(t) => text::join3(
                "protobuf wire type ",
                text::number(t as u128).as_str(),
                " is not supported",
            ),
        }
    }
}

/// Remembers the value of every field with this number, so that the last one
/// stays.
pub open spec fn keep_last(number: u32) -> spec_fn(
    Option<ValueView>,
    FieldView,
) -> Result<Option<ValueView>, DecodeError> {
    |found: Option<ValueView>, field: FieldView|
        if field.number == number {
            Ok(Some(field.value))
        } else {
            Ok(found)
        }
}

/// Returns the last occurrence of `number` in `data`, which is the value a
/// schema-aware parser would keep for a non-repeated field. The whole
/// message is walked, so any malformed field is reported even after a match.
pub fn last_field(data: &[u8], number: u32) -> (result: Result<Option<Value<'_>>, DecodeError>)
    ensures
        match fold_fields(data@, None, keep_last(number)) {
            Ok(last) => {
                &&& result matches Ok(found)
                &&& found is Some <==> last is Some
                &&& found is Some ==> found->0@ == last->0
            },
            Err(error) => result == Err::<Option<Value<'_>>, DecodeError>(error),
        },
{
    let mut found: Option<Value<'_>> = None;
    let ghost mut last: Option<ValueView> = None;
    let mut fields = Fields::new(data);
    loop
        invariant
            found is Some <==> last is Some,
            found is Some ==> found->0@ == last->0,
            fold_fields(fields.rest(), last, keep_last(number)) == fold_fields(
                data@,
                None,
                keep_last(number),
            ),
        ensures
            found is Some <==> last is Some,
            found is Some ==> found->0@ == last->0,
            fold_fields(data@, None, keep_last(number)) == Ok::<Option<ValueView>, DecodeError>(
                last,
            ),
        decreases fields.rest().len(),
    {
        proof {
            field_size(fields.rest());
        }
        match fields.next() {
            None => {
                break;
            },
            Some(Err(error)) => {
                return Err(error);
            },
            Some(Ok(field)) => {
                if field.number == number {
                    found = Some(field.value);
                    proof {
                        last = Some(field.value@);
                    }
                }
            },
        }
    }
    Ok(found)
}

// ---------------------------------------------------------------------------
// Laws.
// ---------------------------------------------------------------------------

/// The first value that no varint of `left` bytes can hold, for the last
/// `left` bytes of the ten.
spec fn varint_limit(left: nat) -> nat
    decreases left,
{
    if left <= 1 {
        2
    } else {
        128 * varint_limit((left - 1) as nat)
    }
}

proof fn lemma_varint_round_trip(value: nat, rest: Seq<u8>, left: nat)
    requires
        left >= 1,
        value < varint_limit(left),
    ensures
        varint_within(varint(value) + rest, left) == Ok::<(nat, nat), DecodeError>(
            (value, varint(value).len()),
        ),
        1 <= varint(value).len() <= left,
    decreases left,
{
    let data = varint(value) + rest;
    if value < 128 {
        assert(data[0] == value as u8);
    } else {
        assert(left > 1);
        assert(data[0] == (value % 128 + 128) as u8);
        assert(data.skip(1) == varint(value / 128) + rest);
        lemma_varint_round_trip(value / 128, rest, (left - 1) as nat);
    }
}

/// Reading a written varint gives back the value and stops right after it,
/// whatever follows; it takes one to ten bytes.
pub proof fn varint_round_trip(value: u64, rest: Seq<u8>)
    ensures
        decode_varint(varint(value as nat) + rest) == Ok::<(nat, nat), DecodeError>(
            (value as nat, varint(value as nat).len()),
        ),
        1 <= varint(value as nat).len() <= 10,
{
    reveal_with_fuel(varint_limit, 11);
    lemma_varint_round_trip(value as nat, rest, 10);
}

/// A written varint field is read back with its number and value.
pub proof fn uint_field_round_trip(field: u32, value: u64, rest: Seq<u8>)
    requires
        1 <= field <= MAX_FIELD,
        value != 0,
    ensures
        decode_field(uint_field(field, value) + rest) == Ok::<(FieldView, nat), DecodeError>(
            (
                FieldView { number: field, value: ValueView::Varint(value) },
                uint_field(field, value).len(),
            ),
        ),
{
    let data = uint_field(field, value) + rest;
    let mark = tag(field, WIRE_VARINT);
    assert(data == mark + (varint(value as nat) + rest));
    varint_round_trip((field * 8 + WIRE_VARINT % 8) as u64, varint(value as nat) + rest);
    assert(data.skip(mark.len() as int) == varint(value as nat) + rest);
    varint_round_trip(value, rest);
}

/// A written length-delimited field, empty or not, is read back with its
/// number and bytes.
pub proof fn message_field_round_trip(field: u32, body: Seq<u8>, rest: Seq<u8>)
    requires
        1 <= field <= MAX_FIELD,
        body.len() <= u64::MAX,
    ensures
        decode_field(message_field(field, body) + rest) == Ok::<(FieldView, nat), DecodeError>(
            (
                FieldView { number: field, value: ValueView::Len(body) },
                message_field(field, body).len(),
            ),
        ),
{
    let data = message_field(field, body) + rest;
    let mark = tag(field, WIRE_LEN);
    let count = varint(body.len());
    assert(data == mark + (count + (body + rest)));
    varint_round_trip((field * 8 + WIRE_LEN % 8) as u64, count + (body + rest));
    let after = data.skip(mark.len() as int);
    assert(after == count + (body + rest));
    varint_round_trip(body.len() as u64, body + rest);
    assert(after.subrange(count.len() as int, (count.len() + body.len()) as int) == body);
}

proof fn lemma_varint_prefix(data: Seq<u8>, more: Seq<u8>, left: nat)
    requires
        varint_within(data, left) is Ok,
    ensures
        varint_within(data + more, left) == varint_within(data, left),
    decreases left,
{
    lemma_varint_within(data, left);
    assert((data + more)[0] == data[0]);
    if data[0] >= 128 {
        assert((data + more).skip(1) == data.skip(1) + more);
        lemma_varint_prefix(data.skip(1), more, (left - 1) as nat);
    }
}

/// What a complete field says does not depend on what follows it.
pub proof fn field_prefix(data: Seq<u8>, more: Seq<u8>)
    requires
        decode_field(data) is Ok,
    ensures
        decode_field(data + more) == decode_field(data),
{
    let (tag, len) = decode_varint(data)->Ok_0;
    lemma_varint_prefix(data, more, 10);
    lemma_varint_within(data, 10);
    let after = data.skip(len as int);
    assert((data + more).skip(len as int) == after + more);
    if tag % 8 == 0 {
        lemma_varint_prefix(after, more, 10);
    } else if tag % 8 == 1 {
        assert((after + more).skip(4)[0] == after.skip(4)[0]);
        assert((after + more).skip(4)[1] == after.skip(4)[1]);
        assert((after + more).skip(4)[2] == after.skip(4)[2]);
        assert((after + more).skip(4)[3] == after.skip(4)[3]);
    } else if tag % 8 == 2 {
        lemma_varint_prefix(after, more, 10);
        lemma_varint_within(after, 10);
        let (count, skip) = decode_varint(after)->Ok_0;
        assert((after + more).subrange(skip as int, (skip + count) as int) == after.subrange(
            skip as int,
            (skip + count) as int,
        ));
    }
}

/// Reading one message after another is reading the two joined: a message
/// that was read without error is taken up first, then the rest.
pub proof fn fold_joined<A>(
    data: Seq<u8>,
    more: Seq<u8>,
    acc: A,
    step: spec_fn(A, FieldView) -> Result<A, DecodeError>,
)
    requires
        fold_fields(data, acc, step) is Ok,
    ensures
        fold_fields(data + more, acc, step) == fold_fields(
            more,
            fold_fields(data, acc, step)->Ok_0,
            step,
        ),
    decreases data.len(),
{
    if data.len() == 0 {
        assert(data + more == more);
    } else {
        let (field, size) = decode_field(data)->Ok_0;
        field_size(data);
        field_prefix(data, more);
        assert((data + more).skip(size as int) == data.skip(size as int) + more);
        fold_joined(data.skip(size as int), more, step(acc, field)->Ok_0, step);
    }
}

proof fn lemma_single_field<A>(
    data: Seq<u8>,
    acc: A,
    step: spec_fn(A, FieldView) -> Result<A, DecodeError>,
)
    requires
        decode_field(data) matches Ok((_, size)) && size == data.len(),
    ensures
        fold_fields(data, acc, step) == step(acc, decode_field(data)->Ok_0.0),
{
    reveal_with_fuel(fold_fields, 2);
    field_size(data);
    assert(data.skip(data.len() as int).len() == 0);
}

/// Adding a field to a readable message adds exactly that field at the end of
/// what is read: zero adds none, any other number one varint field.
pub proof fn uint_field_is_added<A>(
    data: Seq<u8>,
    field: u32,
    value: u64,
    acc: A,
    step: spec_fn(A, FieldView) -> Result<A, DecodeError>,
)
    requires
        1 <= field <= MAX_FIELD,
        fold_fields(data, acc, step) is Ok,
    ensures
        fold_fields(data + uint_field(field, value), acc, step) == if value == 0 {
            fold_fields(data, acc, step)
        } else {
            step(
                fold_fields(data, acc, step)->Ok_0,
                FieldView { number: field, value: ValueView::Varint(value) },
            )
        },
{
    let more = uint_field(field, value);
    fold_joined(data, more, acc, step);
    if value == 0 {
        assert(data + more == data);
    } else {
        uint_field_round_trip(field, value, Seq::empty());
        assert(more + Seq::<u8>::empty() == more);
        lemma_single_field(more, fold_fields(data, acc, step)->Ok_0, step);
    }
}

/// Adding a sub-message to a readable message adds exactly that field at the
/// end of what is read, even when it is empty.
pub proof fn message_field_is_added<A>(
    data: Seq<u8>,
    field: u32,
    body: Seq<u8>,
    acc: A,
    step: spec_fn(A, FieldView) -> Result<A, DecodeError>,
)
    requires
        1 <= field <= MAX_FIELD,
        body.len() <= u64::MAX,
        fold_fields(data, acc, step) is Ok,
    ensures
        fold_fields(data + message_field(field, body), acc, step) == step(
            fold_fields(data, acc, step)->Ok_0,
            FieldView { number: field, value: ValueView::Len(body) },
        ),
{
    let more = message_field(field, body);
    fold_joined(data, more, acc, step);
    message_field_round_trip(field, body, Seq::empty());
    assert(more + Seq::<u8>::empty() == more);
    lemma_single_field(more, fold_fields(data, acc, step)->Ok_0, step);
}

/// The value that stays of a field is the one of its last occurrence: what
/// was added last wins, and adding a field leaves the others as they were.
pub proof fn last_occurrence_wins(data: Seq<u8>, field: u32, value: u64, number: u32)
    requires
        1 <= field <= MAX_FIELD,
        value != 0,
        fold_fields(data, None, keep_last(number)) is Ok,
    ensures
        fold_fields(data + uint_field(field, value), None, keep_last(number)) == if field
            == number {
            Ok::<Option<ValueView>, DecodeError>(Some(ValueView::Varint(value)))
        } else {
            fold_fields(data, None, keep_last(number))
        },
{
    uint_field_is_added(data, field, value, None, keep_last(number));
}

/// Each error is told in its own words.
pub proof fn decode_errors_say_what_is_wrong(error: DecodeError)
    ensures
        error is Truncated <==> error.text() == "protobuf message is truncated"@,
        error is InvalidVarint <==> error.text() == "protobuf varint is invalid"@,
        error is InvalidTag <==> error.text() == "protobuf field tag is invalid"@,
        error matches DecodeError::UnknownWireType(kind) ==> error.text() == "protobuf wire type "@
            + crate::text::decimal(kind as nat) + " is not supported"@,
{
    reveal_strlit("protobuf message is truncated");
    reveal_strlit("protobuf varint is invalid");
    reveal_strlit("protobuf field tag is invalid");
    reveal_strlit("protobuf wire type ");
    reveal_strlit(" is not supported");
    assert("protobuf message is truncated"@[9] == 'm' && "protobuf varint is invalid"@[9] == 'v'
        && "protobuf field tag is invalid"@[9] == 'f');
    if let DecodeError::UnknownWireType(kind) = error {
        assert(error.text()[9] == 'w');
    }
}

} // verus!
