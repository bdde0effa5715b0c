//! Text helpers shared by the other modules.

use vstd::prelude::*;
use vstd::utf8::*;

verus! {

/// The text held by an optional string.
pub open spec fn opt_text(text: Option<String>) -> Option<Seq<char>> {
    match text {
        Some(text) => Some(text@),
        None => None,
    }
}

/// The texts of a sequence of strings.
pub open spec fn texts(items: Seq<String>) -> Seq<Seq<char>> {
    items.map_values(|item: String| item@)
}

/// Tells whether two strings hold the same characters.
pub fn text_eq(left: &str, right: &str) -> (same: bool)
    ensures
        same == (left@ == right@),
{
    let a = left.as_bytes();
    let b = right.as_bytes();
    proof {
        encode_utf8_decode_utf8(left@);
        encode_utf8_decode_utf8(right@);
    }
    if a.len() != b.len() {
        return false;
    }
    let mut i: usize = 0;
    while i < a.len()
        invariant
            i <= a@.len(),
            a@.len() == b@.len(),
            a@ == encode_utf8(left@),
            b@ == encode_utf8(right@),
            forall|j: int| 0 <= j < i ==> a@[j] == b@[j],
        decreases a@.len() - i,
    {
        if a[i] != b[i] {
            return false;
        }
        i += 1;
    }
    assert(a@ =~= b@);
    true
}

/// Tells whether an optional string holds exactly `text`.
pub fn opt_is(value: &Option<String>, text: &str) -> (same: bool)
    ensures
        same == (opt_text(*value) == Some(text@)),
{
    match value {
        Some(value) => text_eq(value.as_str(), text),
        None => false,
    }
}

/// A copy of an optional string.
pub fn opt_clone(value: &Option<String>) -> (copy: Option<String>)
    ensures
        copy == *value,
{
    match value {
        Some(value) => Some(value.clone()),
        None => None,
    }
}

/// The concatenation of two texts.
pub fn concat2(a: &str, b: &str) -> (out: String)
    ensures
        out@ == a@ + b@,
{
    let mut out = a.to_owned();
    out.append(b);
    out
}

/// The concatenation of three texts.
pub fn concat3(a: &str, b: &str, c: &str) -> (out: String)
    ensures
        out@ == a@ + b@ + c@,
{
    let mut out = concat2(a, b);
    out.append(c);
    out
}

/// The concatenation of five texts.
pub fn concat5(a: &str, b: &str, c: &str, d: &str, e: &str) -> (out: String)
    ensures
        out@ == a@ + b@ + c@ + d@ + e@,
{
    let mut out = concat3(a, b, c);
    out.append(d);
    out.append(e);
    out
}

/// The characters of a text.
pub fn chars_of(text: &str) -> (chars: Vec<char>)
    ensures
        chars@ == text@,
{
    let mut chars: Vec<char> = Vec::new();
    for c in iter: text.chars()
        invariant
            iter.seq() == text@,
            chars@ == text@.take(iter.index() as int),
    {
        chars.push(c);
        assert(chars@ =~= text@.take(iter.index() + 1));
    }
    assert(chars@ =~= text@);
    chars
}

/// Whether a pattern stands at a place of a text.
pub open spec fn occurs_at(text: Seq<char>, at: int, pattern: Seq<char>) -> bool {
    0 <= at && at + pattern.len() <= text.len() && text.subrange(at, at + pattern.len()) == pattern
}

/// The first place, from `from` on, at which a pattern stands.
pub open spec fn first_at(text: Seq<char>, from: int, pattern: Seq<char>) -> Option<int>
    decreases text.len() - from + 1,
{
    if from < 0 || from > text.len() {
        None
    } else if occurs_at(text, from, pattern) {
        Some(from)
    } else {
        first_at(text, from + 1, pattern)
    }
}

/// The last place, `from` or before, at which a pattern stands.
pub open spec fn last_at(text: Seq<char>, from: int, pattern: Seq<char>) -> Option<int>
    decreases from + 1,
{
    if from < 0 {
        None
    } else if occurs_at(text, from, pattern) {
        Some(from)
    } else {
        last_at(text, from - 1, pattern)
    }
}

/// Tells whether a pattern stands at a place of a text.
pub fn matches_at(text: &Vec<char>, at: usize, pattern: &Vec<char>) -> (found: bool)
    ensures
        found == occurs_at(text@, at as int, pattern@),
{
    if at > text.len() || pattern.len() > text.len() - at {
        return false;
    }
    let mut i: usize = 0;
    while i < pattern.len()
        invariant
            i <= pattern@.len(),
            at + pattern.len() <= text.len(),
            forall|j: int| 0 <= j < i ==> text@[at + j] == pattern@[j],
        decreases pattern@.len() - i,
    {
        if text[at + i] != pattern[i] {
            assert(text@.subrange(at as int, at + pattern@.len())[i as int] != pattern@[i as int]);
            return false;
        }
        i += 1;
    }
    assert(text@.subrange(at as int, at + pattern@.len()) =~= pattern@);
    true
}

/// Finds the first place, from `from` on, at which a pattern stands.
pub fn find_from(text: &Vec<char>, from: usize, pattern: &Vec<char>) -> (found: Option<usize>)
    requires
        from <= text@.len(),
    ensures
        match found {
            Some(at) => first_at(text@, from as int, pattern@) == Some(at as int) && from <= at
                && at + pattern@.len() <= text@.len(),
            None => first_at(text@, from as int, pattern@) is None,
        },
{
    let mut at: usize = from;
    while at < text.len()
        invariant
            from <= at <= text@.len(),
            first_at(text@, from as int, pattern@) == first_at(text@, at as int, pattern@),
        decreases text@.len() - at,
    {
        if matches_at(text, at, pattern) {
            return Some(at);
        }
        at += 1;
    }
    if matches_at(text, at, pattern) {
        Some(at)
    } else {
        assert(first_at(text@, at + 1, pattern@) is None);
        None
    }
}

/// Finds the last place at which a pattern stands.
pub fn find_last(text: &Vec<char>, pattern: &Vec<char>) -> (found: Option<usize>)
    ensures
        match found {
            Some(at) => last_at(text@, text@.len() as int, pattern@) == Some(at as int) && at
                + pattern@.len() <= text@.len(),
            None => last_at(text@, text@.len() as int, pattern@) is None,
        },
{
    let mut at: usize = text.len();
    while at > 0
        invariant
            at <= text@.len(),
            last_at(text@, text@.len() as int, pattern@) == last_at(text@, at as int, pattern@),
        decreases at,
    {
        if matches_at(text, at, pattern) {
            return Some(at);
        }
        at -= 1;
    }
    if matches_at(text, at, pattern) {
        Some(at)
    } else {
        assert(last_at(text@, -1, pattern@) is None);
        None
    }
}

/// Tells whether a text starts with a prefix.
pub fn starts_with(text: &str, prefix: &str) -> (found: bool)
    ensures
        found == prefix@.is_prefix_of(text@),
{
    let found = matches_at(&chars_of(text), 0, &chars_of(prefix));
    assert(prefix@.len() <= text@.len() ==> text@.subrange(0, prefix@.len() as int) =~= text@.take(
        prefix@.len() as int,
    ));
    found
}

/// Whether a character has Unicode's `White_Space` property.
pub uninterp spec fn white_space(c: char) -> bool;

/// `char::is_whitespace`: tells whether a character has the `White_Space`
/// property. Of the ASCII characters these are the space and the five control
/// characters from the tab to the carriage return.
#[verifier::external_body]
pub(crate) fn is_white_space(c: char) -> (white: bool)
    ensures
        white == white_space(c),
        (c as u32) < 128 ==> white == (c == ' ' || 9 <= c as u32 <= 13),
{
    c.is_whitespace()
}

/// The number of white-space characters at the start of a text.
pub open spec fn leading_white(text: Seq<char>) -> nat
    decreases text.len(),
{
    if text.len() > 0 && white_space(text[0]) {
        1 + leading_white(text.drop_first())
    } else {
        0
    }
}

/// The text without the white space at its start.
pub open spec fn trimmed_start(text: Seq<char>) -> Seq<char> {
    text.skip(leading_white(text) as int)
}

/// The number of characters of a text before its first white space.
pub open spec fn leading_word(text: Seq<char>) -> nat
    decreases text.len(),
{
    if text.len() > 0 && !white_space(text[0]) {
        1 + leading_word(text.drop_first())
    } else {
        0
    }
}

/// White space at the start of a text is part of the text and ends before a
/// character that is none.
pub proof fn lemma_leading_white(text: Seq<char>)
    ensures
        leading_white(text) <= text.len(),
        leading_white(text) < text.len() ==> !white_space(text[leading_white(text) as int]),
        forall|i: int| 0 <= i < leading_white(text) ==> white_space(#[trigger] text[i]),
    decreases text.len(),
{
    if text.len() > 0 && white_space(text[0]) {
        lemma_leading_white(text.drop_first());
        assert forall|i: int| 0 <= i < leading_white(text) implies white_space(
            #[trigger] text[i],
        ) by {
            if i > 0 {
                assert(text.drop_first()[i - 1] == text[i]);
            }
        }
    }
}

/// White space at the start of a text stays the same when more comes behind it
/// and a character that is none.
pub proof fn lemma_trimmed_longer(text: Seq<char>, more: Seq<char>)
    ensures
        trimmed_start(text).len() <= text.len(),
        trimmed_start(text).len() > 0 ==> trimmed_start(text + more) == trimmed_start(text) + more,
        trimmed_start(trimmed_start(text) + more) == trimmed_start(text + more),
    decreases text.len(),
{
    lemma_leading_white(text);
    if text.len() > 0 && white_space(text[0]) {
        let rest = text.drop_first();
        lemma_trimmed_longer(rest, more);
        lemma_leading_white(rest);
        assert((text + more).drop_first() =~= rest + more);
        assert(trimmed_start(text) =~= trimmed_start(rest));
        lemma_leading_white(rest + more);
        assert(trimmed_start(text + more) =~= trimmed_start(rest + more));
    } else {
        assert(trimmed_start(text) =~= text);
        if text.len() > 0 {
            assert((text + more)[0] == text[0]);
            assert(trimmed_start(text + more) =~= text + more);
        }
    }
}

/// The word at the start of a text is part of the text and ends before white
/// space.
pub proof fn lemma_leading_word(text: Seq<char>)
    ensures
        leading_word(text) <= text.len(),
        leading_word(text) < text.len() ==> white_space(text[leading_word(text) as int]),
    decreases text.len(),
{
    if text.len() > 0 && !white_space(text[0]) {
        lemma_leading_word(text.drop_first());
    }
}

/// Counts the white-space characters from `from` on.
pub fn count_leading_white(text: &Vec<char>, from: usize) -> (count: usize)
    requires
        from <= text@.len(),
    ensures
        count == leading_white(text@.skip(from as int)),
        from + count <= text@.len(),
{
    let mut at: usize = from;
    assert(text@.skip(from as int).skip(0) =~= text@.skip(from as int));
    while at < text.len() && is_white_space(text[at])
        invariant
            from <= at <= text@.len(),
            leading_white(text@.skip(from as int)) == (at - from) + leading_white(
                text@.skip(at as int),
            ),
        decreases text@.len() - at,
    {
        assert(text@.skip(at as int).drop_first() =~= text@.skip(at + 1));
        at += 1;
    }
    at - from
}

/// Counts the characters from `from` on that are no white space.
pub fn count_leading_word(text: &Vec<char>, from: usize) -> (count: usize)
    requires
        from <= text@.len(),
    ensures
        count == leading_word(text@.skip(from as int)),
        from + count <= text@.len(),
{
    let mut at: usize = from;
    while at < text.len() && !is_white_space(text[at])
        invariant
            from <= at <= text@.len(),
            leading_word(text@.skip(from as int)) == (at - from) + leading_word(
                text@.skip(at as int),
            ),
        decreases text@.len() - at,
    {
        assert(text@.skip(at as int).drop_first() =~= text@.skip(at + 1));
        at += 1;
    }
    at - from
}

/// The characters between two byte positions of a text.
pub open spec fn chars_between(text: Seq<char>, from: int, to: int) -> Seq<char> {
    decode_utf8(encode_utf8(text).subrange(from, to))
}

/// Whether a byte position of a text lies between two characters.
pub open spec fn between_chars(text: Seq<char>, position: int) -> bool {
    0 <= position <= encode_utf8(text).len() && is_char_boundary(encode_utf8(text), position)
}

/// The bytes of two texts in a row are those of the one and of the other.
proof fn lemma_encode_both(text: Seq<char>, more: Seq<char>)
    ensures
        encode_utf8(text + more) == encode_utf8(text) + encode_utf8(more),
    decreases text.len(),
{
    if text.len() == 0 {
        assert(text + more =~= more);
        assert(encode_utf8(text) + encode_utf8(more) =~= encode_utf8(more));
    } else {
        lemma_encode_both(text.drop_first(), more);
        assert((text + more).drop_first() =~= text.drop_first() + more);
        assert(encode_utf8(text + more) =~= encode_utf8(text) + encode_utf8(more));
    }
}

/// A text has more bytes when more comes behind it.
pub proof fn lemma_longer_bytes(text: Seq<char>, more: Seq<char>)
    ensures
        encode_utf8(text).len() <= encode_utf8(text + more).len(),
        more.len() > 0 ==> encode_utf8(text).len() < encode_utf8(text + more).len(),
{
    lemma_encode_both(text, more);
}

/// More text behind a byte position changes nothing before it and comes last
/// behind it.
pub proof fn lemma_split_longer(text: Seq<char>, more: Seq<char>, position: int)
    requires
        between_chars(text, position),
    ensures
        chars_between(text + more, 0, position) == chars_between(text, 0, position),
        chars_between(text + more, position, encode_utf8(text + more).len() as int)
            == chars_between(text, position, encode_utf8(text).len() as int) + more,
{
    let bytes = encode_utf8(text);
    let longer = encode_utf8(text + more);
    let behind = bytes.subrange(position, bytes.len() as int);
    let rest = decode_utf8(behind);
    lemma_encode_both(text, more);
    assert(longer.subrange(0, position) =~= bytes.subrange(0, position));
    assert(longer.subrange(position, longer.len() as int) =~= behind + encode_utf8(more));
    encode_utf8_valid_utf8(text);
    valid_utf8_split(bytes, position);
    decode_utf8_encode_utf8(behind);
    lemma_encode_both(rest, more);
    encode_utf8_decode_utf8(rest + more);
}

/// Splits a text at a byte position.
pub fn split_at_byte(text: &str, position: usize) -> (parts: (&str, &str))
    requires
        between_chars(text@, position as int),
    ensures
        parts.0@ == chars_between(text@, 0, position as int),
        parts.1@ == chars_between(text@, position as int, encode_utf8(text@).len() as int),
        parts.0@ + parts.1@ == text@,
        position > 0 ==> parts.0@.len() > 0,
{
    let parts = text.split_at(position);
    proof {
        encode_utf8_valid_utf8(text@);
        encode_utf8_decode_utf8(text@);
        encode_utf8_decode_utf8(parts.0@);
        encode_utf8_decode_utf8(parts.1@);
        decode_utf8_split(encode_utf8(text@), position as int);
        if parts.0@.len() == 0 {
            assert(encode_utf8(parts.0@).len() == 0);
        }
    }
    parts
}

/// A position of a text that lies between two characters does so in each part
/// of the text before a later such position.
proof fn lemma_between_chars_of_prefix(text: Seq<char>, from: int, to: int)
    requires
        between_chars(text, from),
        between_chars(text, to),
        from <= to,
    ensures
        between_chars(chars_between(text, 0, to), from),
        encode_utf8(chars_between(text, 0, to)) == encode_utf8(text).subrange(0, to),
{
    let bytes = encode_utf8(text);
    let prefix = bytes.subrange(0, to);
    encode_utf8_valid_utf8(text);
    valid_utf8_split(bytes, to);
    decode_utf8_encode_utf8(prefix);
    if from == to {
        is_char_boundary_start_end_of_seq(prefix);
    } else {
        is_char_boundary_iff_not_is_continuation_byte(bytes, from);
        is_char_boundary_iff_not_is_continuation_byte(prefix, from);
    }
}

/// The part of a text between two byte positions.
pub fn byte_range(text: &str, from: usize, to: usize) -> (part: &str)
    requires
        between_chars(text@, from as int),
        between_chars(text@, to as int),
        from <= to,
    ensures
        part@ == chars_between(text@, from as int, to as int),
{
    let head = split_at_byte(text, to).0;
    proof {
        lemma_between_chars_of_prefix(text@, from as int, to as int);
    }
    let part = split_at_byte(head, from).1;
    assert(encode_utf8(text@).subrange(0, to as int).subrange(from as int, to as int)
        =~= encode_utf8(text@).subrange(from as int, to as int));
    part
}

/// One decimal digit.
pub open spec fn digit_char(digit: int) -> char {
    if digit == 0 {
        '0'
    } else if digit == 1 {
        '1'
    } else if digit == 2 {
        '2'
    } else if digit == 3 {
        '3'
    } else if digit == 4 {
        '4'
    } else if digit == 5 {
        '5'
    } else if digit == 6 {
        '6'
    } else if digit == 7 {
        '7'
    } else if digit == 8 {
        '8'
    } else {
        '9'
    }
}

/// A natural number in decimal.
pub open spec fn decimal(number: nat) -> Seq<char>
    decreases number,
{
    if number < 10 {
        seq![digit_char(number as int)]
    } else {
        decimal(number / 10).push(digit_char((number % 10) as int))
    }
}

/// An integer in decimal.
pub open spec fn decimal_int(number: int) -> Seq<char> {
    if number < 0 {
        seq!['-'] + decimal((-number) as nat)
    } else {
        decimal(number as nat)
    }
}

/// One decimal digit as text.
fn digit_text(digit: u128) -> (shown: &'static str)
    requires
        digit < 10,
    ensures
        shown@ == seq![digit_char(digit as int)],
{
    proof {
        reveal_strlit("0");
        reveal_strlit("1");
        reveal_strlit("2");
        reveal_strlit("3");
        reveal_strlit("4");
        reveal_strlit("5");
        reveal_strlit("6");
        reveal_strlit("7");
        reveal_strlit("8");
        reveal_strlit("9");
    }
    let shown = if digit == 0 {
        "0"
    } else if digit == 1 {
        "1"
    } else if digit == 2 {
        "2"
    } else if digit == 3 {
        "3"
    } else if digit == 4 {
        "4"
    } else if digit == 5 {
        "5"
    } else if digit == 6 {
        "6"
    } else if digit == 7 {
        "7"
    } else if digit == 8 {
        "8"
    } else {
        "9"
    };
    assert(shown@ =~= seq![digit_char(digit as int)]);
    shown
}

/// A natural number in decimal.
pub fn decimal_u128(number: u128) -> (shown: String)
    ensures
        shown@ == decimal(number as nat),
    decreases number,
{
    if number < 10 {
        digit_text(number).to_owned()
    } else {
        let mut shown = decimal_u128(number / 10);
        shown.append(digit_text(number % 10));
        assert(shown@ =~= decimal(number as nat));
        shown
    }
}

/// An integer in decimal.
pub fn decimal_i64(number: i64) -> (shown: String)
    ensures
        shown@ == decimal_int(number as int),
{
    if number >= 0 {
        return decimal_u128(number as u128);
    }
    proof {
        reveal_strlit("-");
    }
    let magnitude: u128 = (-(number + 1)) as u128 + 1;
    let shown = concat2("-", decimal_u128(magnitude).as_str());
    assert(shown@ =~= decimal_int(number as int));
    shown
}

/// A text between double quotes, with its special characters escaped, as std's
/// `Debug` for `str` writes it.
pub uninterp spec fn debug_form(text: Seq<char>) -> Seq<char>;

/// `<str as Debug>::fmt`: a text between double quotes, escaped.
#[verifier::external_body]
pub(crate) fn debug_text(text: &str) -> (shown: String)
    ensures
        shown@ == debug_form(text@),
{
    format!("{text:?}")
}

/// Whether a text holds another one.
pub open spec fn holds(text: Seq<char>, pattern: Seq<char>) -> bool {
    exists|at: int| occurs_at(text, at, pattern)
}

proof fn lemma_first_at(text: Seq<char>, from: int, pattern: Seq<char>)
    requires
        0 <= from,
    ensures
        match first_at(text, from, pattern) {
            Some(at) => occurs_at(text, at, pattern),
            None => forall|at: int| from <= at ==> !#[trigger] occurs_at(text, at, pattern),
        },
    decreases text.len() - from + 1,
{
    if from <= text.len() && !occurs_at(text, from, pattern) {
        lemma_first_at(text, from + 1, pattern);
    }
}

/// Tells whether a text holds another one.
pub fn contains(text: &str, pattern: &str) -> (found: bool)
    ensures
        found == holds(text@, pattern@),
{
    proof {
        lemma_first_at(text@, 0, pattern@);
    }
    find_from(&chars_of(text), 0, &chars_of(pattern)).is_some()
}

/// Some bytes, read as UTF-8.
#[derive(Debug, PartialEq, Eq)]
pub enum Utf8Reading {
    Valid(String),
    /// The bytes up to a place are valid, and no more; `incomplete` where the
    /// end of the bytes came unexpectedly.
    Broken { valid_up_to: usize, incomplete: bool, message: String },
}

/// What std says of bytes that are not valid UTF-8: whether their end came
/// unexpectedly, and its message.
pub uninterp spec fn utf8_error(bytes: Seq<u8>) -> (bool, Seq<char>);

/// `std::str::from_utf8`: the text that some bytes encode, or else how long the
/// longest valid start is, whether the end of the bytes came unexpectedly, and
/// the message. Where it did, one to three bytes are left.
#[verifier::external_body]
pub(crate) fn read_utf8(bytes: &Vec<u8>) -> (reading: Utf8Reading)
    ensures
        match reading {
            Utf8Reading::Valid(text) => valid_utf8(bytes@) && text@ == decode_utf8(bytes@),
            Utf8Reading::Broken { valid_up_to, incomplete, message } => {
                &&& !valid_utf8(bytes@)
                &&& valid_up_to < bytes@.len()
                &&& valid_utf8(bytes@.take(valid_up_to as int))
                &&& forall|longer: int|
                    valid_up_to < longer <= bytes@.len() ==> !valid_utf8(
                        #[trigger] bytes@.take(longer),
                    )
                &&& incomplete ==> bytes@.len() - valid_up_to <= 3
                &&& (incomplete, message@) == utf8_error(bytes@)
            },
        },
{
    match std::str::from_utf8(bytes) {
        Ok(text) => Utf8Reading::Valid(text.to_owned()),
        Err(error) => Utf8Reading::Broken {
            valid_up_to: error.valid_up_to(),
            incomplete: error.error_len().is_none(),
            message: error.to_string(),
        },
    }
}

} // verus!
