//! Text: put together from parts, compared, trimmed, and split.

use vstd::prelude::*;
use vstd::string::{StrSliceExecFns, StringExecFns};

verus! {

/// The digit that stands for `d`.
pub open spec fn digit(d: nat) -> char {
    (d + 48) as char
}

/// `n` in decimal, without leading zeros.
pub open spec fn decimal(n: nat) -> Seq<char>
    decreases n,
{
    if n < 10 {
        seq![digit(n)]
    } else {
        decimal(n / 10).push(digit(n % 10))
    }
}

/// `a` followed by `b`.
pub fn join(a: &str, b: &str) -> (text: String)
    ensures
        text@ == a@ + b@,
{
    let mut text = a.to_owned();
    text.append(b);
    text
}

/// `a` followed by `b` and `c`.
pub fn join3(a: &str, b: &str, c: &str) -> (text: String)
    ensures
        text@ == a@ + b@ + c@,
{
    let mut text = a.to_owned();
    text.append(b);
    text.append(c);
    text
}

/// The text of one digit.
fn digit_text(d: u128) -> (text: &'static str)
    requires
        d < 10,
    ensures
        text@ == seq![digit(d as nat)],
{
    proof {
        reveal_strlit("0");
        reveal_strlit("1");
        reveal_strlit("2");
        reveal_strlit("3");
        reveal_strlit("4");
        reveal_strlit("5");
        reveal_strlit("6");
        reveal_strlit("7");
        reveal_strlit("8");
        reveal_strlit("9");
    }
    if d == 0 {
        "0"
    } else if d == 1 {
        "1"
    } else if d == 2 {
        "2"
    } else if d == 3 {
        "3"
    } else if d == 4 {
        "4"
    } else if d == 5 {
        "5"
    } else if d == 6 {
        "6"
    } else if d == 7 {
        "7"
    } else if d == 8 {
        "8"
    } else {
        "9"
    }
}

/// `n` in decimal, without leading zeros.
pub fn number(n: u128) -> (text: String)
    ensures
        text@ == decimal(n as nat),
    decreases n,
{
    if n < 10 {
        digit_text(n).to_owned()
    } else {
        let mut text = number(n / 10);
        text.append(digit_text(n % 10));
        assert(text@ == decimal((n / 10) as nat).push(digit((n % 10) as nat)));
        text
    }
}

/// An ASCII capital as the small letter, and any other character as it is.
pub open spec fn lower(c: char) -> char {
    if 'A' <= c <= 'Z' {
        (c as u32 + 32) as char
    } else {
        c
    }
}

/// `text` with ASCII capitals as small letters.
pub open spec fn lowercase(text: Seq<char>) -> Seq<char> {
    text.map_values(|c: char| lower(c))
}

/// Whether `part` stands in `text` at `at`.
pub open spec fn stands_at(text: Seq<char>, part: Seq<char>, at: int) -> bool {
    0 <= at && at + part.len() <= text.len() && text.subrange(at, at + part.len()) == part
}

/// Whether `part` stands anywhere in `text`.
pub open spec fn holds(text: Seq<char>, part: Seq<char>) -> bool {
    exists|at: int| stands_at(text, part, at)
}

/// The characters of `text`.
pub fn chars_of(text: &str) -> (chars: Vec<char>)
    ensures
        chars@ == text@,
{
    let mut chars: Vec<char> = Vec::new();
    for c in iter: text.chars()
        invariant
            iter.seq() == text@,
            chars@ == text@.take(iter.index()),
    {
        chars.push(c);
    }
    assert(text@.take(text@.len() as int) == text@);
    chars
}

/// Whether `a`, with an ASCII capital as the small letter, is the small letter
/// of `b`.
pub fn same_letter(a: char, b: char) -> (same: bool)
    ensures
        same == (lower(a) == lower(b)),
{
    let x: u32 = if 'A' <= a && a <= 'Z' {
        a as u32 + 32
    } else {
        a as u32
    };
    let y: u32 = if 'A' <= b && b <= 'Z' {
        b as u32 + 32
    } else {
        b as u32
    };
    x == y
}

/// Whether two texts are the same.
pub fn same(a: &str, b: &str) -> (same: bool)
    ensures
        same == (a@ == b@),
{
    a.to_owned() == b.to_owned()
}

/// Whether two texts are the same but for the case of ASCII letters.
pub fn same_ignoring_case(a: &str, b: &str) -> (same: bool)
    ensures
        same == (lowercase(a@) == lowercase(b@)),
{
    let xs = chars_of(a);
    let ys = chars_of(b);
    if xs.len() != ys.len() {
        assert(lowercase(a@).len() != lowercase(b@).len());
        return false;
    }
    let mut i: usize = 0;
    while i < xs.len()
        invariant
            i <= xs@.len(),
            xs@.len() == ys@.len(),
            xs@ == a@,
            ys@ == b@,
            forall|j: int| 0 <= j < i ==> lower(#[trigger] xs@[j]) == lower(ys@[j]),
        decreases xs@.len() - i,
    {
        if !same_letter(xs[i], ys[i]) {
            assert(lowercase(a@)[i as int] != lowercase(b@)[i as int]);
            return false;
        }
        i = i + 1;
    }
    assert(lowercase(a@) == lowercase(b@));
    true
}

/// Whether `part` stands anywhere in `text`, but for the case of ASCII
/// letters.
pub fn holds_ignoring_case(text: &str, part: &str) -> (found: bool)
    ensures
        found == holds(lowercase(text@), lowercase(part@)),
{
    let xs = chars_of(text);
    let ys = chars_of(part);
    let ghost big = lowercase(text@);
    let ghost small = lowercase(part@);
    if ys.len() > xs.len() {
        return false;
    }
    let mut at: usize = 0;
    while at <= xs.len() - ys.len()
        invariant
            xs@ == text@,
            ys@ == part@,
            ys@.len() <= xs@.len(),
            big == lowercase(text@),
            small == lowercase(part@),
            at <= xs@.len() - ys@.len() + 1,
            forall|k: int| 0 <= k < at ==> !stands_at(big, small, k),
        decreases xs@.len() + 1 - at,
    {
        let mut i: usize = 0;
        while i < ys.len() && same_letter(xs[at + i], ys[i])
            invariant
                xs@ == text@,
                ys@ == part@,
                i <= ys@.len(),
                at + ys.len() <= xs.len(),
                forall|j: int| 0 <= j < i ==> lower(#[trigger] xs@[at + j]) == lower(ys@[j]),
            decreases ys@.len() - i,
        {
            i = i + 1;
        }
        if i == ys.len() {
            proof {
                let piece = big.subrange(at as int, at + small.len());
                assert forall|j: int| 0 <= j < small.len() implies piece[j] == small[j] by {
                    assert(lower(xs@[at + j]) == lower(ys@[j]));
                }
                assert(piece == small);
                assert(stands_at(big, small, at as int));
            }
            return true;
        }
        proof {
            let piece = big.subrange(at as int, at + small.len());
            assert(piece[i as int] == lower(xs@[at + i]));
            assert(small[i as int] == lower(ys@[i as int]));
            assert(!stands_at(big, small, at as int));
        }
        at = at + 1;
    }
    false
}

// ---------------------------------------------------------------------------
// Trimming and splitting.
// ---------------------------------------------------------------------------

/// Whether a character has the Unicode property `White_Space`.
pub open spec fn is_space(c: char) -> bool {
    let code = c as u32;
    ||| 0x09 <= code <= 0x0d
    ||| code == 0x20
    ||| code == 0x85
    ||| code == 0xa0
    ||| code == 0x1680
    ||| 0x2000 <= code <= 0x200a
    ||| code == 0x2028
    ||| code == 0x2029
    ||| code == 0x202f
    ||| code == 0x205f
    ||| code == 0x3000
}

/// Whether a character has the Unicode property `White_Space`.
pub fn is_white_space(c: char) -> (space: bool)
    ensures
        space == is_space(c),
{
    let code: u32 = c as u32;
    (0x09 <= code && code <= 0x0d) || code == 0x20 || code == 0x85 || code == 0xa0 || code == 0x1680
        || (0x2000 <= code && code <= 0x200a) || code == 0x2028 || code == 0x2029 || code == 0x202f
        || code == 0x205f || code == 0x3000
}

/// `text` without the white space at its front.
pub open spec fn trim_front(text: Seq<char>) -> Seq<char>
    decreases text.len(),
{
    if text.len() > 0 && is_space(text[0]) {
        trim_front(text.skip(1))
    } else {
        text
    }
}

/// `text` without the white space at its end.
pub open spec fn trim_back(text: Seq<char>) -> Seq<char>
    decreases text.len(),
{
    if text.len() > 0 && is_space(text.last()) {
        trim_back(text.drop_last())
    } else {
        text
    }
}

/// `text` without the white space at either end.
pub open spec fn trimmed(text: Seq<char>) -> Seq<char> {
    trim_back(trim_front(text))
}

/// The part of `text` from character `from` up to character `to`.
pub fn slice<'a>(text: &'a str, from: usize, to: usize) -> (part: &'a str)
    requires
        from <= to <= text@.len(),
    ensures
        part@ == text@.subrange(from as int, to as int),
{
    text.substring_char(from, to)
}

/// `text` without the white space at either end.
pub fn trim<'a>(text: &'a str) -> (part: &'a str)
    ensures
        part@ == trimmed(text@),
{
    let chars = chars_of(text);
    let mut from: usize = 0;
    assert(chars@.skip(0) == text@);
    while from < chars.len() && is_white_space(chars[from])
        invariant
            from <= chars@.len(),
            chars@ == text@,
            trim_front(text@) == trim_front(chars@.skip(from as int)),
        decreases chars@.len() - from,
    {
        assert(chars@.skip(from as int).skip(1) == chars@.skip(from + 1));
        from = from + 1;
    }
    let ghost front = chars@.skip(from as int);
    assert(trim_front(front) == front);
    let mut to: usize = chars.len();
    assert(chars@.subrange(from as int, to as int) == front);
    while to > from && is_white_space(chars[to - 1])
        invariant
            from <= to <= chars@.len(),
            chars@ == text@,
            trim_back(front) == trim_back(chars@.subrange(from as int, to as int)),
        decreases to,
    {
        let ghost part = chars@.subrange(from as int, to as int);
        assert(part.last() == chars@[to - 1]);
        assert(part.drop_last() == chars@.subrange(from as int, to - 1));
        to = to - 1;
    }
    proof {
        let part = chars@.subrange(from as int, to as int);
        if to > from {
            assert(part.last() == chars@[to - 1]);
        }
        assert(trim_back(part) == part);
    }
    slice(text, from, to)
}

/// The parts of `text` between separators; always one more than there are
/// separators.
pub open spec fn split_at(text: Seq<char>, separator: char) -> Seq<Seq<char>>
    decreases text.len(),
{
    if text.len() == 0 {
        seq![Seq::<char>::empty()]
    } else {
        let before = split_at(text.drop_last(), separator);
        if text.last() == separator {
            before.push(Seq::empty())
        } else {
            before.drop_last().push(before.last().push(text.last()))
        }
    }
}

/// The views of several texts.
pub open spec fn views(texts: Seq<String>) -> Seq<Seq<char>> {
    texts.map_values(|text: String| text@)
}

proof fn lemma_split_is_not_empty(text: Seq<char>, separator: char)
    ensures
        split_at(text, separator).len() >= 1,
    decreases text.len(),
{
    if text.len() > 0 {
        lemma_split_is_not_empty(text.drop_last(), separator);
    }
}

/// The parts of `text` between separators.
pub fn split(text: &str, separator: char) -> (parts: Vec<String>)
    ensures
        views(parts@) == split_at(text@, separator),
{
    let chars = chars_of(text);
    let mut parts: Vec<String> = Vec::new();
    let mut start: usize = 0;
    let mut at: usize = 0;
    proof {
        assert(views(parts@) == Seq::<Seq<char>>::empty());
        assert(chars@.take(0) == Seq::<char>::empty());
        assert(chars@.subrange(0, 0) == Seq::<char>::empty());
        assert(Seq::<Seq<char>>::empty().push(Seq::<char>::empty()) == seq![Seq::<char>::empty()]);
    }
    while at < chars.len()
        invariant
            start <= at <= chars@.len(),
            chars@ == text@,
            split_at(chars@.take(at as int), separator) == views(parts@).push(
                chars@.subrange(start as int, at as int),
            ),
        decreases chars@.len() - at,
    {
        let ghost done = chars@.take(at as int);
        let ghost more = chars@.take(at + 1);
        let ghost before = views(parts@);
        let ghost part = chars@.subrange(start as int, at as int);
        proof {
            assert(more.drop_last() == done);
            assert(before.push(part).drop_last() == before);
        }
        if chars[at] == separator {
            parts.push(slice(text, start, at).to_owned());
            assert(views(parts@) == before.push(part));
            start = at + 1;
            assert(chars@.subrange(start as int, at + 1) == Seq::<char>::empty());
        } else {
            assert(part.push(chars@[at as int]) == chars@.subrange(start as int, at + 1));
        }
        at = at + 1;
    }
    assert(chars@.take(at as int) == text@);
    let ghost before = views(parts@);
    parts.push(slice(text, start, at).to_owned());
    assert(views(parts@) == before.push(chars@.subrange(start as int, at as int)));
    parts
}

/// `parts` with `separator` between them.
pub open spec fn joined(parts: Seq<Seq<char>>, separator: Seq<char>) -> Seq<char>
    decreases parts.len(),
{
    if parts.len() == 0 {
        Seq::empty()
    } else if parts.len() == 1 {
        parts[0]
    } else {
        joined(parts.drop_last(), separator) + separator + parts.last()
    }
}

/// `parts` with `separator` between them.
pub fn join_all(parts: &Vec<String>, separator: &str) -> (text: String)
    ensures
        text@ == joined(views(parts@), separator@),
{
    let mut text = String::new();
    let mut i: usize = 0;
    let ghost all = views(parts@);
    while i < parts.len()
        invariant
            i <= parts@.len(),
            all == views(parts@),
            text@ == joined(all.take(i as int), separator@),
        decreases parts@.len() - i,
    {
        let ghost more = all.take(i + 1);
        assert(more.drop_last() == all.take(i as int));
        assert(more.last() == parts@[i as int]@);
        if i > 0 {
            text.append(separator);
        }
        text.append(parts[i].as_str());
        i = i + 1;
        assert(i == 1 ==> text@ == parts@[0]@);
    }
    assert(all.take(i as int) == all);
    text
}

/// `text` without the characters `a` and `b` at its end.
pub open spec fn without_end(text: Seq<char>, a: char, b: char) -> Seq<char>
    decreases text.len(),
{
    if text.len() > 0 && (text.last() == a || text.last() == b) {
        without_end(text.drop_last(), a, b)
    } else {
        text
    }
}

/// `text` without the characters `a` and `b` at its end.
pub fn trim_end<'a>(text: &'a str, a: char, b: char) -> (part: &'a str)
    ensures
        part@ == without_end(text@, a, b),
{
    let chars = chars_of(text);
    let mut to: usize = chars.len();
    assert(chars@.take(to as int) == text@);
    while to > 0 && (chars[to - 1] == a || chars[to - 1] == b)
        invariant
            to <= chars@.len(),
            chars@ == text@,
            without_end(text@, a, b) == without_end(chars@.take(to as int), a, b),
        decreases to,
    {
        assert(chars@.take(to as int).last() == chars@[to - 1]);
        assert(chars@.take(to as int).drop_last() == chars@.take(to - 1));
        to = to - 1;
    }
    assert(to > 0 ==> chars@.take(to as int).last() == chars@[to - 1]);
    assert(chars@.take(to as int) == chars@.subrange(0, to as int));
    slice(text, 0, to)
}

/// `text` up to the first `c`, or all of it.
pub open spec fn before(text: Seq<char>, c: char) -> Seq<char>
    decreases text.len(),
{
    if text.len() == 0 || text[0] == c {
        Seq::empty()
    } else {
        seq![text[0]] + before(text.skip(1), c)
    }
}

/// `text` up to the first `c`, or all of it.
pub fn up_to<'a>(text: &'a str, c: char) -> (part: &'a str)
    ensures
        part@ == before(text@, c),
{
    let chars = chars_of(text);
    let mut to: usize = 0;
    assert(chars@.skip(0) == text@);
    assert(chars@.take(0) + before(text@, c) == before(text@, c));
    while to < chars.len() && chars[to] != c
        invariant
            to <= chars@.len(),
            chars@ == text@,
            before(text@, c) == chars@.take(to as int) + before(chars@.skip(to as int), c),
        decreases chars@.len() - to,
    {
        let ghost rest = chars@.skip(to as int);
        assert(rest.skip(1) == chars@.skip(to + 1));
        assert(chars@.take(to as int) + (seq![rest[0]] + before(rest.skip(1), c)) == chars@.take(
            to + 1,
        ) + before(rest.skip(1), c));
        to = to + 1;
    }
    assert(before(chars@.skip(to as int), c).len() == 0);
    assert(before(text@, c) == chars@.subrange(0, to as int));
    slice(text, 0, to)
}

/// Where the last `c` stands, or -1.
pub open spec fn last_at(text: Seq<char>, c: char) -> int
    decreases text.len(),
{
    if text.len() == 0 {
        -1
    } else if text.last() == c {
        text.len() - 1
    } else {
        last_at(text.drop_last(), c)
    }
}

/// Where the last `c` stands.
pub fn find_last(text: &str, c: char) -> (at: Option<usize>)
    ensures
        match at {
            Some(at) => at == last_at(text@, c) && at < text@.len(),
            None => last_at(text@, c) == -1,
        },
{
    let chars = chars_of(text);
    let mut to: usize = chars.len();
    assert(chars@.take(to as int) == text@);
    while to > 0
        invariant
            to <= chars@.len(),
            chars@ == text@,
            last_at(text@, c) == last_at(chars@.take(to as int), c),
        decreases to,
    {
        assert(chars@.take(to as int).last() == chars@[to - 1]);
        assert(chars@.take(to as int).drop_last() == chars@.take(to - 1));
        to = to - 1;
        if chars[to] == c {
            return Some(to);
        }
    }
    None
}

// ---------------------------------------------------------------------------
// Reading numbers.
// ---------------------------------------------------------------------------

/// Whether every character is a decimal digit.
pub open spec fn all_digits(text: Seq<char>) -> bool {
    forall|i: int| 0 <= i < text.len() ==> '0' <= #[trigger] text[i] <= '9'
}

/// The number that decimal digits write.
pub open spec fn digits_value(text: Seq<char>) -> int
    decreases text.len(),
{
    if text.len() == 0 {
        0
    } else {
        digits_value(text.drop_last()) * 10 + (text.last() as u32 - 48)
    }
}

/// Whether `text` has a sign in front.
pub open spec fn signed(text: Seq<char>) -> bool {
    text.len() > 0 && (text[0] == '-' || text[0] == '+')
}

/// `text` without the sign in front.
pub open spec fn magnitude(text: Seq<char>) -> Seq<char> {
    if signed(text) {
        text.skip(1)
    } else {
        text
    }
}

/// Whether `text` writes a 32-bit signed integer: digits, perhaps with a sign
/// in front, and a value in range.
pub open spec fn writes_i32(text: Seq<char>) -> bool {
    let digits = magnitude(text);
    let value = digits_value(digits);
    &&& digits.len() > 0
    &&& all_digits(digits)
    &&& if text[0] == '-' {
        value <= 0x8000_0000
    } else {
        value < 0x8000_0000
    }
}

proof fn lemma_digits_value_grows(text: Seq<char>, n: int)
    requires
        0 <= n <= text.len(),
        all_digits(text),
    ensures
        0 <= digits_value(text.take(n)) <= digits_value(text),
    decreases text.len(), text.len() - n,
{
    if n < text.len() {
        lemma_digits_value_grows(text, n + 1);
        let more = text.take(n + 1);
        assert(more.drop_last() == text.take(n));
        lemma_digit(text[n]);
        lemma_digits_value_is_not_negative(text.take(n));
    } else {
        assert(text.take(n) == text);
        lemma_digits_value_is_not_negative(text);
    }
}

proof fn lemma_digit(c: char)
    requires
        '0' <= c <= '9',
    ensures
        0 <= c as u32 - 48 <= 9,
{
}

proof fn lemma_digits_value_is_not_negative(text: Seq<char>)
    requires
        all_digits(text),
    ensures
        0 <= digits_value(text),
    decreases text.len(),
{
    if text.len() > 0 {
        let init = text.drop_last();
        assert(all_digits(init)) by {
            assert forall|i: int| 0 <= i < init.len() implies '0' <= #[trigger] init[i] <= '9' by {
                assert('0' <= text[i] <= '9');
            }
        }
        lemma_digits_value_is_not_negative(init);
        assert('0' <= text[text.len() - 1] <= '9');
        lemma_digit(text.last());
    }
}

/// Whether `text` writes a 32-bit signed integer.
pub fn is_i32(text: &str) -> (writes: bool)
    ensures
        writes == writes_i32(text@),
{
    let chars = chars_of(text);
    if chars.len() == 0 {
        return false;
    }
    let start: usize = if chars[0] == '-' || chars[0] == '+' {
        1
    } else {
        0
    };
    let ghost digits = magnitude(text@);
    assert(digits == chars@.skip(start as int));
    if start == chars.len() {
        return false;
    }
    let limit: u64 = if chars[0] == '-' {
        0x8000_0000
    } else {
        0x7fff_ffff
    };
    let mut value: u64 = 0;
    let mut i: usize = start;
    assert(digits.take(0) == Seq::<char>::empty());
    while i < chars.len()
        invariant
            start <= i <= chars@.len(),
            start <= 1,
            start < chars@.len(),
            digits == chars@.skip(start as int),
            digits == magnitude(text@),
            chars@ == text@,
            limit == if text@[0] == '-' {
                0x8000_0000u64
            } else {
                0x7fff_ffff
            },
            all_digits(digits.take(i - start)),
            value == digits_value(digits.take(i - start)),
            value <= limit,
        decreases chars@.len() - i,
    {
        let c = chars[i];
        assert(digits[i - start] == c);
        if c < '0' || c > '9' {
            assert(!all_digits(digits));
            return false;
        }
        let ghost more = digits.take(i - start + 1);
        proof {
            assert(more.drop_last() == digits.take(i - start));
            assert(more.last() == c);
            lemma_digit(c);
            assert(all_digits(more)) by {
                assert forall|j: int| 0 <= j < more.len() implies '0' <= #[trigger] more[j]
                    <= '9' by {
                    if j < i - start {
                        assert('0' <= digits.take(i - start)[j] <= '9');
                    }
                }
            }
        }
        value = value * 10 + (c as u32 - 48) as u64;
        if value > limit {
            proof {
                if all_digits(digits) {
                    lemma_digits_value_grows(digits, i - start + 1);
                }
            }
            return false;
        }
        i = i + 1;
    }
    assert(digits.take(i - start) == digits);
    true
}

// ---------------------------------------------------------------------------
// Laws.
// ---------------------------------------------------------------------------

proof fn lemma_joined_last(parts: Seq<Seq<char>>, separator: Seq<char>, c: char)
    requires
        parts.len() > 0,
    ensures
        joined(parts.drop_last().push(parts.last().push(c)), separator) == joined(
            parts,
            separator,
        ).push(c),
{
    let more = parts.drop_last().push(parts.last().push(c));
    assert(more.drop_last() == parts.drop_last());
    assert(more.last() == parts.last().push(c));
    if parts.len() > 1 {
        let start = joined(parts.drop_last(), separator) + separator;
        assert(start + parts.last().push(c) == (start + parts.last()).push(c));
    }
}

/// The parts of a text, joined again with the separator, are the text.
pub proof fn split_parts_join_to_the_text(text: Seq<char>, separator: char)
    ensures
        joined(split_at(text, separator), seq![separator]) == text,
    decreases text.len(),
{
    if text.len() > 0 {
        let before = split_at(text.drop_last(), separator);
        lemma_split_is_not_empty(text.drop_last(), separator);
        split_parts_join_to_the_text(text.drop_last(), separator);
        if text.last() == separator {
            let parts = before.push(Seq::empty());
            assert(parts.drop_last() == before);
            assert(joined(parts, seq![separator]) == text.drop_last() + seq![separator]
                + Seq::<char>::empty());
            assert(text.drop_last() + seq![separator] + Seq::<char>::empty() == text);
        } else {
            lemma_joined_last(before, seq![separator], text.last());
            assert(text.drop_last().push(text.last()) == text);
        }
    }
}

/// Text without the separator is one part.
pub proof fn split_of_one_part(text: Seq<char>, separator: char)
    requires
        !text.contains(separator),
    ensures
        split_at(text, separator) == seq![text],
    decreases text.len(),
{
    if text.len() > 0 {
        let init = text.drop_last();
        assert(!init.contains(separator)) by {
            assert forall|i: int| 0 <= i < init.len() implies init[i] != separator by {
                assert(text[i] == init[i]);
            }
        }
        split_of_one_part(init, separator);
        assert(text.contains(text.last())) by {
            assert(text[text.len() - 1] == text.last());
        }
        let before = seq![init];
        assert(before.drop_last().push(before.last().push(text.last())) == seq![text]) by {
            assert(init.push(text.last()) == text);
        }
    } else {
        assert(text == Seq::<char>::empty());
    }
}

/// The parts of two texts with a separator between them are the parts of the
/// one and then the parts of the other.
pub proof fn split_of_two(a: Seq<char>, b: Seq<char>, separator: char)
    ensures
        split_at(a + seq![separator] + b, separator) == split_at(a, separator) + split_at(
            b,
            separator,
        ),
    decreases b.len(),
{
    let whole = a + seq![separator] + b;
    if b.len() == 0 {
        assert(whole.drop_last() == a);
        assert(whole.last() == separator);
        assert(split_at(a, separator).push(Seq::<char>::empty()) == split_at(a, separator) + seq![
            Seq::<char>::empty(),
        ]);
    } else {
        let init = b.drop_last();
        assert(whole.drop_last() == a + seq![separator] + init);
        assert(whole.last() == b.last());
        split_of_two(a, init, separator);
        lemma_split_is_not_empty(init, separator);
        let front = split_at(a, separator);
        let back = split_at(init, separator);
        assert((front + back).last() == back.last());
        assert((front + back).drop_last() == front + back.drop_last());
        if b.last() == separator {
            assert((front + back).push(Seq::<char>::empty()) == front + back.push(
                Seq::<char>::empty(),
            ));
        } else {
            let part = back.last().push(b.last());
            assert((front + back).drop_last().push(part) == front + back.drop_last().push(part));
        }
    }
}

/// No part of a text holds the separator.
pub proof fn split_parts_are_free_of_the_separator(text: Seq<char>, separator: char)
    ensures
        forall|i: int|
            0 <= i < split_at(text, separator).len() ==> !(#[trigger] split_at(
                text,
                separator,
            )[i]).contains(separator),
    decreases text.len(),
{
    let parts = split_at(text, separator);
    if text.len() > 0 {
        split_parts_are_free_of_the_separator(text.drop_last(), separator);
        lemma_split_is_not_empty(text.drop_last(), separator);
        let before = split_at(text.drop_last(), separator);
        let n = before.len() as int;
        assert forall|i: int| 0 <= i < parts.len() implies !(#[trigger] parts[i]).contains(
            separator,
        ) by {
            assert(!before[n - 1].contains(separator));
            if text.last() == separator {
                if i < n {
                    assert(parts[i] == before[i]);
                }
            } else if i < n - 1 {
                assert(parts[i] == before[i]);
            } else {
                let part = before[n - 1];
                assert(parts[i] == part.push(text.last()));
                assert forall|j: int| 0 <= j < parts[i].len() implies parts[i][j] != separator by {
                    if j < part.len() {
                        assert(part.contains(part[j]));
                    }
                }
            }
        }
    }
}

/// Parts without the separator, joined with it, are split into the same parts.
pub proof fn joined_parts_split_again(parts: Seq<Seq<char>>, separator: char)
    requires
        parts.len() > 0,
        forall|i: int| 0 <= i < parts.len() ==> !(#[trigger] parts[i]).contains(separator),
    ensures
        split_at(joined(parts, seq![separator]), separator) == parts,
    decreases parts.len(),
{
    let last = parts.last();
    assert(!parts[parts.len() - 1].contains(separator));
    split_of_one_part(last, separator);
    if parts.len() == 1 {
        assert(seq![last] == parts);
    } else {
        let init = parts.drop_last();
        assert forall|i: int| 0 <= i < init.len() implies !(#[trigger] init[i]).contains(
            separator,
        ) by {
            assert(init[i] == parts[i]);
        }
        joined_parts_split_again(init, separator);
        split_of_two(joined(init, seq![separator]), last, separator);
        assert(init + seq![last] == parts);
    }
}

/// A number that was written in decimal reads back as itself: it consists of
/// digits, without a zero in front that is not needed, and no two numbers are
/// written alike.
pub proof fn decimal_reads_back(n: nat)
    ensures
        decimal(n).len() > 0,
        all_digits(decimal(n)),
        digits_value(decimal(n)) == n,
        decimal(n).len() > 1 ==> decimal(n)[0] != '0',
        n > 0 ==> decimal(n)[0] != '0',
    decreases n,
{
    if n < 10 {
        assert(decimal(n).drop_last().len() == 0);
        assert(digits_value(decimal(n).drop_last()) == 0);
    } else {
        decimal_reads_back(n / 10);
        assert(decimal(n).drop_last() == decimal(n / 10));
        assert forall|i: int| 0 <= i < decimal(n).len() implies '0' <= #[trigger] decimal(n)[i]
            <= '9' by {
            if i < decimal(n / 10).len() {
                assert(decimal(n)[i] == decimal(n / 10)[i]);
            }
        }
    }
}

} // verus!
