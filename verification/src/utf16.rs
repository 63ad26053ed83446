//! UTF-16 text as Windows hands it over: NUL-terminated, little-endian.

use vstd::prelude::*;

verus! {

/// The UTF-16 units of one character.
pub open spec fn units_of(c: char) -> Seq<u16> {
    let code = c as u32;
    if code < 0x1_0000 {
        seq![code as u16]
    } else {
        seq![
            (0xd800 + (code - 0x1_0000) / 0x400) as u16,
            (0xdc00 + (code - 0x1_0000) % 0x400) as u16,
        ]
    }
}

/// `text` in UTF-16.
pub open spec fn utf16_of(text: Seq<char>) -> Seq<u16>
    decreases text.len(),
{
    if text.len() == 0 {
        Seq::empty()
    } else {
        utf16_of(text.drop_last()) + units_of(text.last())
    }
}

/// `text` in UTF-16.
pub fn encode(text: &str) -> (units: Vec<u16>)
    ensures
        units@ == utf16_of(text@),
{
    let mut units: Vec<u16> = Vec::new();
    for c in iter: text.chars()
        invariant
            iter.seq() == text@,
            units@ == utf16_of(text@.take(iter.index())),
    {
        let ghost done = text@.take(iter.index());
        let ghost more = text@.take(iter.index() + 1);
        assert(more.drop_last() == done);
        assert(more.last() == c);
        let code: u32 = c as u32;
        let ghost before = units@;
        if code < 0x1_0000 {
            units.push(code as u16);
        } else {
            units.push((0xd800 + (code - 0x1_0000) / 0x400) as u16);
            units.push((0xdc00 + (code - 0x1_0000) % 0x400) as u16);
        }
        assert(units@ == before + units_of(c));
    }
    assert(text@.take(text@.len() as int) == text@);
    units
}

/// Whether a unit is the first half of a surrogate pair.
pub open spec fn is_high(unit: u16) -> bool {
    0xd800 <= unit < 0xdc00
}

/// Whether a unit is the second half of a surrogate pair.
pub open spec fn is_low(unit: u16) -> bool {
    0xdc00 <= unit < 0xe000
}

/// The text in `units`: a surrogate pair is one character, and half of one
/// that stands alone is the replacement character.
pub open spec fn utf16_text(units: Seq<u16>) -> Seq<char>
    decreases units.len(),
{
    if units.len() == 0 {
        Seq::empty()
    } else if units.len() >= 2 && is_high(units[0]) && is_low(units[1]) {
        seq![(0x1_0000 + (units[0] - 0xd800) * 0x400 + (units[1] - 0xdc00)) as char] + utf16_text(
            units.skip(2),
        )
    } else if is_high(units[0]) || is_low(units[0]) {
        seq!['\u{fffd}'] + utf16_text(units.skip(1))
    } else {
        seq![units[0] as char] + utf16_text(units.skip(1))
    }
}

/// The text in `units`.
///
/// Calls `String::from_utf16_lossy`, which decodes UTF-16 and replaces invalid
/// data, that is surrogates without their other half, by U+FFFD.
#[verifier::external_body]
pub(crate) fn decode(units: &[u16]) -> (text: String)
    ensures
        text@ == utf16_text(units@),
{
    String::from_utf16_lossy(units)
}

/// The units in `bytes`, two bytes each, up to the first one that is zero or
/// to the end. A single byte at the end does not count.
pub open spec fn units_until_nul(bytes: Seq<u8>) -> Seq<u16>
    decreases bytes.len(),
{
    if bytes.len() < 2 || (bytes[0] == 0 && bytes[1] == 0) {
        Seq::empty()
    } else {
        seq![(bytes[0] + bytes[1] * 0x100) as u16] + units_until_nul(bytes.skip(2))
    }
}

/// The units in `bytes` from `start` on, up to the first one that is zero.
pub fn read_units(bytes: &[u8], start: usize) -> (units: Vec<u16>)
    ensures
        units@ == if start <= bytes@.len() {
            units_until_nul(bytes@.skip(start as int))
        } else {
            Seq::<u16>::empty()
        },
{
    let mut units: Vec<u16> = Vec::new();
    if start > bytes.len() {
        return units;
    }
    let mut at: usize = start;
    let ghost whole = units_until_nul(bytes@.skip(start as int));
    while bytes.len() - at >= 2 && !(bytes[at] == 0 && bytes[at + 1] == 0)
        invariant
            start <= at <= bytes@.len(),
            whole == units@ + units_until_nul(bytes@.skip(at as int)),
        decreases bytes@.len() - at,
    {
        let ghost rest = bytes@.skip(at as int);
        let unit: u16 = bytes[at] as u16 + bytes[at + 1] as u16 * 0x100;
        units.push(unit);
        at = at + 2;
        assert(bytes@.skip(at as int) == rest.skip(2));
        assert(units_until_nul(rest) == seq![unit] + units_until_nul(rest.skip(2)));
    }
    assert(units_until_nul(bytes@.skip(at as int)).len() == 0);
    assert(units@ == whole);
    units
}

/// The two bytes of a unit, least significant first.
pub open spec fn unit_bytes(unit: u16) -> Seq<u8> {
    seq![(unit % 0x100) as u8, (unit / 0x100) as u8]
}

/// The bytes of `units`, two each, least significant first.
pub open spec fn bytes_of(units: Seq<u16>) -> Seq<u8>
    decreases units.len(),
{
    if units.len() == 0 {
        Seq::empty()
    } else {
        bytes_of(units.drop_last()) + unit_bytes(units.last())
    }
}

/// The bytes of `units`, two each, least significant first.
pub fn to_bytes(units: &[u16]) -> (bytes: Vec<u8>)
    ensures
        bytes@ == bytes_of(units@),
{
    let mut bytes: Vec<u8> = Vec::new();
    let mut i: usize = 0;
    while i < units.len()
        invariant
            i <= units@.len(),
            bytes@ == bytes_of(units@.take(i as int)),
        decreases units@.len() - i,
    {
        let ghost before = bytes@;
        bytes.push((units[i] % 0x100) as u8);
        bytes.push((units[i] / 0x100) as u8);
        assert(bytes@ == before + unit_bytes(units@[i as int]));
        i = i + 1;
        assert(units@.take(i as int).drop_last() == units@.take(i - 1));
    }
    assert(units@.take(i as int) == units@);
    bytes
}

/// The units before the first one that is zero, or all of them.
pub open spec fn before_nul(units: Seq<u16>) -> Seq<u16>
    decreases units.len(),
{
    if units.len() == 0 || units[0] == 0 {
        Seq::empty()
    } else {
        seq![units[0]] + before_nul(units.skip(1))
    }
}

/// The text in `units` before the first unit that is zero.
pub fn text_before_nul(units: &[u16]) -> (text: String)
    ensures
        text@ == utf16_text(before_nul(units@)),
{
    let mut kept: Vec<u16> = Vec::new();
    let mut i: usize = 0;
    assert(units@.skip(0) == units@);
    let ghost whole = before_nul(units@);
    while i < units.len() && units[i] != 0
        invariant
            i <= units@.len(),
            whole == kept@ + before_nul(units@.skip(i as int)),
        decreases units@.len() - i,
    {
        let ghost rest = units@.skip(i as int);
        kept.push(units[i]);
        assert(rest.skip(1) == units@.skip(i + 1));
        i = i + 1;
    }
    assert(before_nul(units@.skip(i as int)).len() == 0);
    assert(kept@ == whole);
    decode(kept.as_slice())
}

// ---------------------------------------------------------------------------
// Laws.
// ---------------------------------------------------------------------------

proof fn lemma_first_character(c: char, rest: Seq<u16>)
    ensures
        utf16_text(units_of(c) + rest) == seq![c] + utf16_text(rest),
{
    let code = c as u32;
    let units = units_of(c) + rest;
    assert(code < 0xd800 || 0xe000 <= code <= 0x10_ffff);
    if code < 0x1_0000 {
        assert(units.skip(1) == rest);
    } else {
        assert(units.skip(2) == rest);
    }
}

proof fn lemma_encoding_front(text: Seq<char>)
    requires
        text.len() > 0,
    ensures
        utf16_of(text) == units_of(text[0]) + utf16_of(text.skip(1)),
    decreases text.len(),
{
    let init = text.drop_last();
    if init.len() == 0 {
        assert(utf16_of(init) == Seq::<u16>::empty());
        assert(text.skip(1) == Seq::<char>::empty());
        assert(utf16_of(text.skip(1)) == Seq::<u16>::empty());
    } else {
        lemma_encoding_front(init);
        assert(text.skip(1).drop_last() == init.skip(1));
        assert(text.skip(1).last() == text.last());
        assert(units_of(text[0]) + utf16_of(init.skip(1)) + units_of(text.last()) == units_of(
            text[0],
        ) + (utf16_of(init.skip(1)) + units_of(text.last())));
    }
}

/// Text that is encoded and decoded again comes back as it was.
pub proof fn encoded_text_round_trips(text: Seq<char>)
    ensures
        utf16_text(utf16_of(text)) == text,
    decreases text.len(),
{
    if text.len() > 0 {
        lemma_encoding_front(text);
        lemma_first_character(text[0], utf16_of(text.skip(1)));
        encoded_text_round_trips(text.skip(1));
        assert(seq![text[0]] + text.skip(1) == text);
    } else {
        assert(utf16_of(text) == Seq::<u16>::empty());
    }
}

proof fn lemma_units_front(units: Seq<u16>, rest: Seq<u8>)
    requires
        forall|i: int| 0 <= i < units.len() ==> #[trigger] units[i] != 0,
    ensures
        units_until_nul(bytes_of(units) + rest) == units + units_until_nul(rest),
    decreases units.len(),
{
    if units.len() == 0 {
        assert(bytes_of(units) + rest == rest);
        assert(units + units_until_nul(rest) == units_until_nul(rest));
    } else {
        let init = units.drop_last();
        let last = units.last();
        let tail = unit_bytes(last) + rest;
        assert(bytes_of(units) + rest == bytes_of(init) + tail);
        assert forall|i: int| 0 <= i < init.len() implies #[trigger] init[i] != 0 by {
            assert(units[i] != 0);
        }
        lemma_units_front(init, tail);
        assert(tail.skip(2) == rest);
        assert(units[units.len() - 1] != 0);
        assert(!(tail[0] == 0 && tail[1] == 0));
        assert((tail[0] + tail[1] * 0x100) as u16 == last);
        assert(units_until_nul(tail) == seq![last] + units_until_nul(rest));
        assert(init + (seq![last] + units_until_nul(rest)) == units + units_until_nul(rest));
    }
}

/// Units that were written out with a terminator are read back, whatever
/// stands behind the terminator.
pub proof fn terminated_units_round_trip(units: Seq<u16>, junk: Seq<u8>)
    requires
        forall|i: int| 0 <= i < units.len() ==> #[trigger] units[i] != 0,
    ensures
        units_until_nul(bytes_of(units) + seq![0u8, 0u8] + junk) == units,
{
    let rest = seq![0u8, 0u8] + junk;
    assert(bytes_of(units) + seq![0u8, 0u8] + junk == bytes_of(units) + rest);
    lemma_units_front(units, rest);
    assert(units_until_nul(rest).len() == 0);
    assert(units + units_until_nul(rest) == units);
}

} // verus!
