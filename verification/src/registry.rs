//! Values of the per-user registry: how their bytes are read and written, and
//! what the status of a registry call means.

use vstd::prelude::*;

use crate::usbprint::WinError;
use crate::utf16;
use crate::win::{
    ERROR_FILE_NOT_FOUND, ERROR_MORE_DATA, ERROR_NO_MORE_ITEMS, ERROR_SUCCESS, REG_DWORD,
    REG_EXPAND_SZ, REG_SZ,
};

verus! {

/// A predefined root key.
#[derive(Debug, Clone, Copy, PartialEq, Eq)]
pub enum Root {
    CurrentUser,
    LocalMachine,
}

/// A value as the registry stores it: its type and its bytes.
pub type Raw = (u32, Vec<u8>);

/// A value under a key: its name, type, and text (empty for non-string
/// types).
#[derive(Debug, Clone, PartialEq, Eq)]
pub struct Value {
    pub name: String,
    pub kind: u32,
    pub text: String,
}

/// The text of a string value.
#[derive(Debug, Clone, PartialEq, Eq)]
pub enum Stored {
    /// The text as it stands.
    Plain(String),
    /// Text whose `%NAME%` references are to be replaced from the environment.
    Expandable(String),
}

// ---------------------------------------------------------------------------
// What a status means.
// ---------------------------------------------------------------------------

/// Success, or the failure of `call`.
pub fn succeeded(call: &'static str, status: u32) -> (result: Result<(), WinError>)
    ensures
        result == if status == ERROR_SUCCESS {
            Ok::<(), WinError>(())
        } else {
            Err(WinError { call, code: status })
        },
{
    if status != ERROR_SUCCESS {
        return Err(WinError { call, code: status });
    }
    Ok(())
}

/// Whether what `call` was about is there: a missing key or value is no
/// failure.
pub fn found(call: &'static str, status: u32) -> (result: Result<bool, WinError>)
    ensures
        result == if status == ERROR_FILE_NOT_FOUND {
            Ok::<bool, WinError>(false)
        } else if status == ERROR_SUCCESS {
            Ok(true)
        } else {
            Err(WinError { call, code: status })
        },
{
    if status == ERROR_FILE_NOT_FOUND {
        return Ok(false);
    }
    if status != ERROR_SUCCESS {
        return Err(WinError { call, code: status });
    }
    Ok(true)
}

/// Whether `call` has listed one more value, or the list has ended. A value
/// that did not fit its buffer counts as listed.
pub fn listed(call: &'static str, status: u32) -> (result: Result<bool, WinError>)
    ensures
        result == if status == ERROR_NO_MORE_ITEMS {
            Ok::<bool, WinError>(false)
        } else if status == ERROR_SUCCESS || status == ERROR_MORE_DATA {
            Ok(true)
        } else {
            Err(WinError { call, code: status })
        },
{
    if status == ERROR_NO_MORE_ITEMS {
        return Ok(false);
    }
    if status != ERROR_SUCCESS && status != ERROR_MORE_DATA {
        return Err(WinError { call, code: status });
    }
    Ok(true)
}

// ---------------------------------------------------------------------------
// Reading.
// ---------------------------------------------------------------------------

/// The text of a NUL-terminated little-endian UTF-16 value.
pub open spec fn stored_text(bytes: Seq<u8>) -> Seq<char> {
    utf16::utf16_text(utf16::units_until_nul(bytes))
}

/// Decodes a NUL-terminated little-endian UTF-16 value.
pub fn utf16_string(bytes: &[u8]) -> (text: String)
    ensures
        text@ == stored_text(bytes@),
{
    assert(bytes@.skip(0) == bytes@);
    utf16::decode(utf16::read_units(bytes, 0).as_slice())
}

/// Whether values of this type hold text.
pub open spec fn is_text(kind: u32) -> bool {
    kind == REG_SZ || kind == REG_EXPAND_SZ
}

/// A string value as stored. Expandable strings still have to have their
/// `%NAME%` references replaced from the environment.
pub fn registry_string(kind: u32, bytes: &[u8]) -> (stored: Stored)
    ensures
        match stored {
            Stored::Expandable(text) => kind == REG_EXPAND_SZ && text@ == stored_text(bytes@),
            Stored::Plain(text) => kind != REG_EXPAND_SZ && text@ == stored_text(bytes@),
        },
{
    let text = utf16_string(bytes);
    if kind == REG_EXPAND_SZ {
        Stored::Expandable(text)
    } else {
        Stored::Plain(text)
    }
}

/// The string in a value that was read. A missing value, or one of another
/// type, is none.
pub fn read_string(raw: &Option<Raw>) -> (stored: Option<Stored>)
    ensures
        match *raw {
            None => stored is None,
            Some((kind, bytes)) => match stored {
                None => !is_text(kind),
                Some(Stored::Expandable(text)) => kind == REG_EXPAND_SZ && text@ == stored_text(
                    bytes@,
                ),
                Some(Stored::Plain(text)) => kind == REG_SZ && text@ == stored_text(bytes@),
            },
        },
{
    match raw {
        Some(raw) => {
            if raw.0 == REG_SZ || raw.0 == REG_EXPAND_SZ {
                Some(registry_string(raw.0, raw.1.as_slice()))
            } else {
                None
            }
        },
        None => None,
    }
}

/// `text` after its `%NAME%` references were replaced. The system first said
/// that it `needed` so many units, then wrote `written` of them to `buffer`;
/// where it failed, the text stays as it is. Only the units before the
/// terminator count.
pub fn expand_environment(text: &str, needed: u32, written: u32, buffer: &[u16]) -> (expanded:
    String)
    ensures
        expanded@ == if needed == 0 || written == 0 || written > needed {
            text@
        } else {
            utf16::utf16_text(utf16::before_nul(buffer@))
        },
{
    if needed == 0 || written == 0 || written > needed {
        return text.to_owned();
    }
    utf16::text_before_nul(buffer)
}

/// The least of a length that was reported and one that there is.
pub open spec fn at_most(reported: int, there: int) -> int {
    if reported < there {
        reported
    } else {
        there
    }
}

/// A value as an enumeration lists it: the first `name_len` units of `name`,
/// and the first `data_len` bytes of `data` as far as there are so many. The
/// `%NAME%` references of an expandable string are not replaced yet.
pub fn listed_value(
    name: &[u16],
    name_len: usize,
    kind: u32,
    data: &[u8],
    data_len: usize,
) -> (value: Value)
    requires
        name_len <= name@.len(),
    ensures
        value.name@ == utf16::utf16_text(name@.take(name_len as int)),
        value.kind == kind,
        value.text@ == if is_text(kind) {
            stored_text(data@.take(at_most(data_len as int, data@.len() as int)))
        } else {
            Seq::<char>::empty()
        },
{
    let text = if kind == REG_SZ || kind == REG_EXPAND_SZ {
        let end: usize = if data_len < data.len() {
            data_len
        } else {
            data.len()
        };
        assert(data@.subrange(0, end as int) == data@.take(end as int));
        utf16_string(vstd::slice::slice_subrange(data, 0, end))
    } else {
        String::new()
    };
    assert(name@.subrange(0, name_len as int) == name@.take(name_len as int));
    Value { name: utf16::decode(vstd::slice::slice_subrange(name, 0, name_len)), kind, text }
}

// ---------------------------------------------------------------------------
// Writing.
// ---------------------------------------------------------------------------

/// The bytes of a string value: UTF-16 with a terminator.
pub open spec fn text_bytes(text: Seq<char>) -> Seq<u8> {
    utf16::bytes_of(utf16::utf16_of(text).push(0u16))
}

/// What a string value of the given type is written as.
pub fn string_value(text: &str, kind: u32) -> (raw: Raw)
    ensures
        raw.0 == kind,
        raw.1@ == text_bytes(text@),
{
    let mut units = utf16::encode(text);
    units.push(0u16);
    (kind, utf16::to_bytes(units.as_slice()))
}

/// The bytes of a 32-bit value, least significant first.
pub open spec fn number_bytes(value: u32) -> Seq<u8> {
    seq![
        (value % 0x100) as u8,
        (value / 0x100 % 0x100) as u8,
        (value / 0x1_0000 % 0x100) as u8,
        (value / 0x100_0000) as u8,
    ]
}

/// What a 32-bit value is written as.
pub fn number_value(value: u32) -> (raw: Raw)
    ensures
        raw.0 == REG_DWORD,
        raw.1@ == number_bytes(value),
{
    let bytes: Vec<u8> = vec![
        (value % 0x100) as u8,
        (value / 0x100 % 0x100) as u8,
        (value / 0x1_0000 % 0x100) as u8,
        (value / 0x100_0000) as u8,
    ];
    assert(bytes@ == number_bytes(value));
    (REG_DWORD, bytes)
}

// ---------------------------------------------------------------------------
// Laws.
// ---------------------------------------------------------------------------

proof fn lemma_unit_is_not_zero(c: char)
    requires
        c != '\0',
    ensures
        forall|i: int|
            0 <= i < utf16::units_of(c).len() ==> #[trigger] utf16::units_of(c)[i] != 0,
{
}

proof fn lemma_units_are_not_zero(text: Seq<char>)
    requires
        forall|i: int| 0 <= i < text.len() ==> #[trigger] text[i] != '\0',
    ensures
        forall|i: int|
            0 <= i < utf16::utf16_of(text).len() ==> #[trigger] utf16::utf16_of(text)[i] != 0,
    decreases text.len(),
{
    if text.len() > 0 {
        let init = text.drop_last();
        assert forall|i: int| 0 <= i < init.len() implies #[trigger] init[i] != '\0' by {
            assert(text[i] != '\0');
        }
        lemma_units_are_not_zero(init);
        assert(text[text.len() - 1] != '\0');
        let units = utf16::utf16_of(text);
        let last = utf16::units_of(text.last());
        lemma_unit_is_not_zero(text.last());
        assert(units == utf16::utf16_of(init) + last);
        assert forall|i: int| 0 <= i < units.len() implies #[trigger] units[i] != 0 by {
            if i >= utf16::utf16_of(init).len() {
                assert(units[i] == last[i - utf16::utf16_of(init).len()]);
            }
        }
    }
}

/// A string value that was written reads back as its text, unit for unit,
/// provided that the text itself holds no NUL.
pub proof fn string_values_keep_their_units(text: Seq<char>)
    requires
        forall|i: int| 0 <= i < text.len() ==> #[trigger] text[i] != '\0',
    ensures
        utf16::units_until_nul(text_bytes(text)) == utf16::utf16_of(text),
        stored_text(text_bytes(text)) == text,
{
    utf16::encoded_text_round_trips(text);
    lemma_units_are_not_zero(text);
    let units = utf16::utf16_of(text);
    utf16::terminated_units_round_trip(units, Seq::empty());
    assert(units.push(0u16).drop_last() == units);
    assert(utf16::unit_bytes(0u16) == seq![0u8, 0u8]);
    assert(text_bytes(text) == utf16::bytes_of(units) + seq![0u8, 0u8] + Seq::<u8>::empty());
}

/// Two 32-bit values are written alike only if they are the same.
pub proof fn number_values_are_distinct(a: u32, b: u32)
    requires
        number_bytes(a) == number_bytes(b),
    ensures
        a == b,
{
    assert(number_bytes(a)[0] == number_bytes(b)[0]);
    assert(number_bytes(a)[1] == number_bytes(b)[1]);
    assert(number_bytes(a)[2] == number_bytes(b)[2]);
    assert(number_bytes(a)[3] == number_bytes(b)[3]);
}

} // verus!
