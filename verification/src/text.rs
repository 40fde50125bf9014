//! Characters, decimal numbers and the reading of what a user typed.

use vstd::prelude::*;
use vstd::string::*;
use vstd::utf8::*;

verus! {

/// `String::push` appends one character.
pub assume_specification[ String::push ](string: &mut String, character: char)
    ensures
        final(string)@ == old(string)@.push(character),
;

/// The text that `String::from_utf8_lossy` makes of bytes.
pub uninterp spec fn lossy_text(bytes: Seq<u8>) -> Seq<char>;

/// `String::from_utf8_lossy`: the text is a function of the bytes, and for valid UTF-8 it is
/// the decoded text. How invalid bytes are replaced is not stated.
#[verifier::external_body]
pub(crate) fn decode_lossy(bytes: &[u8]) -> (text: String)
    ensures
        text@ == lossy_text(bytes@),
        valid_utf8(bytes@) ==> text@ == decode_utf8(bytes@),
{
    String::from_utf8_lossy(bytes).into_owned()
}

/// `std::str::from_utf8`: succeeds exactly on valid UTF-8, with the text that it encodes.
#[verifier::external_body]
pub(crate) fn decode_strict(bytes: &[u8]) -> (text: Option<String>)
    ensures
        text is Some <==> valid_utf8(bytes@),
        text matches Some(decoded) ==> decoded@ == decode_utf8(bytes@),
{
    match std::str::from_utf8(bytes) {
        Ok(decoded) => Some(decoded.to_owned()),
        Err(_) => None,
    }
}

/// The text that `str::to_lowercase` makes of a text.
pub uninterp spec fn lowercase(text: Seq<char>) -> Seq<char>;

/// `str::to_lowercase`: the result is a function of the text. Which characters change, and how,
/// is not stated.
#[verifier::external_body]
pub(crate) fn to_lowercase(text: &str) -> (lower: String)
    ensures
        lower@ == lowercase(text@),
{
    text.to_lowercase()
}

/// The characters with the Unicode property `White_Space`.
pub open spec fn is_space(character: char) -> bool {
    let code = character as u32;
    ||| 0x09 <= code <= 0x0d
    ||| code == 0x20
    ||| code == 0x85
    ||| code == 0xa0
    ||| code == 0x1680
    ||| 0x2000 <= code <= 0x200a
    ||| code == 0x2028
    ||| code == 0x2029
    ||| code == 0x202f
    ||| code == 0x205f
    ||| code == 0x3000
}

/// The text without the white space that it starts with.
pub open spec fn without_leading_space(text: Seq<char>) -> Seq<char>
    decreases text.len(),
{
    if text.len() > 0 && is_space(text[0]) {
        without_leading_space(text.skip(1))
    } else {
        text
    }
}

/// The text without the white space that it ends with.
pub open spec fn without_trailing_space(text: Seq<char>) -> Seq<char>
    decreases text.len(),
{
    if text.len() > 0 && is_space(text.last()) {
        without_trailing_space(text.drop_last())
    } else {
        text
    }
}

/// The text without the white space around it.
pub open spec fn trimmed(text: Seq<char>) -> Seq<char> {
    without_trailing_space(without_leading_space(text))
}

pub open spec fn is_digit(character: char) -> bool {
    '0' <= character <= '9'
}

/// The character for a number below ten.
pub open spec fn digit(value: nat) -> char {
    ('0' as u32 + value) as u32 as char
}

/// A number in decimal, without leading zeros.
pub open spec fn decimal(value: nat) -> Seq<char>
    decreases value,
{
    if value < 10 {
        seq![digit(value)]
    } else {
        decimal(value / 10).push(digit(value % 10))
    }
}

/// The number that decimal digits stand for.
pub open spec fn digits_value(digits: Seq<char>) -> nat
    decreases digits.len(),
{
    if digits.len() == 0 {
        0
    } else {
        10 * digits_value(digits.drop_last()) + (digits.last() as u32 - '0' as u32) as nat
    }
}

/// The text after a plus sign, or the whole of a text that starts with none.
pub open spec fn unsigned(text: Seq<char>) -> Seq<char> {
    if text.len() > 0 && text[0] == '+' {
        text.skip(1)
    } else {
        text
    }
}

/// One or more decimal digits.
pub open spec fn all_digits(text: Seq<char>) -> bool {
    text.len() > 0 && forall|i: int| 0 <= i < text.len() ==> is_digit(#[trigger] text[i])
}

/// The number that a text stands for: decimal digits, after a plus sign or none, for a number
/// up to `limit`.
pub open spec fn parsed(text: Seq<char>, limit: nat) -> Option<nat> {
    if all_digits(unsigned(text)) && digits_value(unsigned(text)) <= limit {
        Some(digits_value(unsigned(text)))
    } else {
        None
    }
}

/// What a number is written as is read as that number.
pub proof fn lemma_decimal_parses(value: nat, limit: nat)
    requires
        value <= limit,
    ensures
        parsed(decimal(value), limit) == Some(value),
{
    lemma_decimal(value);
    assert(is_digit(decimal(value)[0]));
}

/// The decimal form is made of digits that stand for the number.
pub proof fn lemma_decimal(value: nat)
    ensures
        decimal(value).len() > 0,
        forall|i: int| 0 <= i < decimal(value).len() ==> is_digit(#[trigger] decimal(value)[i]),
        digits_value(decimal(value)) == value,
    decreases value,
{
    if value < 10 {
        assert(decimal(value).drop_last() =~= Seq::empty());
        assert(digits_value(Seq::<char>::empty()) == 0);
        assert(decimal(value).last() == digit(value));
    } else {
        lemma_decimal(value / 10);
        assert(decimal(value).drop_last() =~= decimal(value / 10));
        assert forall|i: int| 0 <= i < decimal(value).len() implies is_digit(#[trigger] decimal(value)[i]) by {
            if i < decimal(value / 10).len() {
                assert(decimal(value)[i] == decimal(value / 10)[i]);
            }
        }
    }
}

/// More digits stand for a number at least as large.
proof fn lemma_value_grows(digits: Seq<char>, count: int)
    requires
        0 <= count <= digits.len(),
        forall|i: int| 0 <= i < digits.len() ==> is_digit(#[trigger] digits[i]),
    ensures
        digits_value(digits.take(count)) <= digits_value(digits),
    decreases digits.len(),
{
    if count == digits.len() {
        assert(digits.take(count) =~= digits);
    } else {
        let rest = digits.drop_last();
        assert forall|i: int| 0 <= i < rest.len() implies is_digit(#[trigger] rest[i]) by {
            assert(rest[i] == digits[i]);
        }
        lemma_value_grows(rest, count);
        assert(rest.take(count) =~= digits.take(count));
    }
}

/// The bytes of two texts in a row are the bytes of each in a row.
pub proof fn lemma_encode_concat(one: Seq<char>, other: Seq<char>)
    ensures
        encode_utf8(one + other) == encode_utf8(one) + encode_utf8(other),
    decreases one.len(),
{
    if one.len() == 0 {
        assert(one + other =~= other);
        assert(encode_utf8(one) =~= Seq::empty());
        assert(encode_utf8(one) + encode_utf8(other) =~= encode_utf8(other));
    } else {
        let whole = one + other;
        assert(whole.drop_first() =~= one.drop_first() + other);
        assert(whole[0] == one[0]);
        lemma_encode_concat(one.drop_first(), other);
        assert(encode_scalar(one[0] as u32) + (encode_utf8(one.drop_first()) + encode_utf8(other)) =~= (encode_scalar(
            one[0] as u32,
        ) + encode_utf8(one.drop_first())) + encode_utf8(other));
    }
}

/// The characters of a text.
pub fn chars_of(text: &str) -> (chars: Vec<char>)
    ensures
        chars@ == text@,
{
    let mut chars: Vec<char> = Vec::new();
    for character in iter: text.chars()
        invariant
            iter.seq() == text@,
            chars@ == text@.take(iter.index()),
    {
        chars.push(character);
    }
    proof {
        assert(chars@ =~= text@);
    }
    chars
}

/// The characters from `start` up to but not including `end`, as a text.
pub fn text_of(chars: &Vec<char>, start: usize, end: usize) -> (text: String)
    requires
        start <= end <= chars@.len(),
    ensures
        text@ == chars@.subrange(start as int, end as int),
{
    let mut text = String::new();
    for i in start..end
        invariant
            start <= i <= end <= chars@.len(),
            text@ == chars@.subrange(start as int, i as int),
    {
        text.push(chars[i]);
        proof {
            assert(text@ =~= chars@.subrange(start as int, i + 1));
        }
    }
    proof {
        assert(chars@.subrange(start as int, start as int) =~= Seq::empty());
    }
    text
}

/// Whether a character is white space.
pub fn is_space_char(character: char) -> (space: bool)
    ensures
        space == is_space(character),
{
    let code: u32 = character as u32;
    (0x09 <= code && code <= 0x0d) || code == 0x20 || code == 0x85 || code == 0xa0 || code == 0x1680 || (0x2000 <= code
        && code <= 0x200a) || code == 0x2028 || code == 0x2029 || code == 0x202f || code == 0x205f || code == 0x3000
}

/// The text without the white space around it.
pub fn trim(text: &str) -> (result: String)
    ensures
        result@ == trimmed(text@),
{
    let chars = chars_of(text);
    let mut start: usize = 0;
    proof {
        assert(chars@.skip(0) =~= chars@);
    }
    while start < chars.len() && is_space_char(chars[start])
        invariant
            start <= chars@.len(),
            without_leading_space(chars@) == without_leading_space(chars@.skip(start as int)),
        decreases chars@.len() - start,
    {
        proof {
            assert(chars@.skip(start as int).skip(1) =~= chars@.skip(start + 1));
        }
        start = start + 1;
    }
    let ghost kept = chars@.skip(start as int);
    let mut end: usize = chars.len();
    proof {
        assert(chars@.subrange(start as int, end as int) =~= kept);
    }
    while end > start && is_space_char(chars[end - 1])
        invariant
            start <= end <= chars@.len(),
            kept == chars@.skip(start as int),
            without_trailing_space(kept) == without_trailing_space(chars@.subrange(start as int, end as int)),
        decreases end,
    {
        proof {
            assert(chars@.subrange(start as int, end as int).drop_last() =~= chars@.subrange(start as int, end - 1));
        }
        end = end - 1;
    }
    text_of(&chars, start, end)
}

/// A number in decimal.
pub fn number(value: u64) -> (text: String)
    ensures
        text@ == decimal(value as nat),
    decreases value,
{
    let last: u32 = (value % 10) as u32;
    let mut text = if value < 10 { String::new() } else { number(value / 10) };
    text.push(digit_char(last));
    proof {
        if value < 10 {
            assert(text@ =~= decimal(value as nat));
        }
    }
    text
}

fn digit_char(value: u32) -> (character: char)
    requires
        value < 10,
    ensures
        character == digit(value as nat),
{
    match value {
        0 => '0',
        1 => '1',
        2 => '2',
        3 => '3',
        4 => '4',
        5 => '5',
        6 => '6',
        7 => '7',
        8 => '8',
        _ => '9',
    }
}

/// Reads a decimal number up to `limit`.
pub fn parse_number(text: &str, limit: u64) -> (value: Option<u64>)
    ensures
        match value {
            Some(value) => parsed(text@, limit as nat) == Some(value as nat),
            None => parsed(text@, limit as nat) == None::<nat>,
        },
{
    let chars = chars_of(text);
    let start: usize = if chars.len() > 0 && chars[0] == '+' { 1 } else { 0 };
    let ghost digits = unsigned(text@);
    if start == chars.len() {
        return None;
    }
    let mut value: u64 = 0;
    proof {
        assert(digits.take(0) =~= Seq::empty());
        assert(digits_value(Seq::<char>::empty()) == 0);
    }
    for i in start..chars.len()
        invariant
            start <= i <= chars@.len(),
            chars@ == text@,
            start <= 1,
            digits == unsigned(text@),
            start == if text@.len() > 0 && text@[0] == '+' { 1int } else { 0 },
            forall|j: int| 0 <= j < i - start ==> is_digit(#[trigger] digits[j]),
            value == digits_value(digits.take(i - start)),
            value <= limit,
    {
        let character = chars[i];
        let ghost place = i - start;
        assert(digits[place] == character);
        if !('0' <= character && character <= '9') {
            assert(!is_digit(digits[place]));
            return None;
        }
        let units: u64 = (character as u32 - '0' as u32) as u64;
        proof {
            assert(digits.take(place + 1).drop_last() =~= digits.take(place));
            if all_digits(digits) {
                lemma_value_grows(digits, place + 1);
            }
        }
        if value > limit / 10 || units > limit - 10 * value {
            proof {
                assert(digits_value(digits.take(place + 1)) > limit);
            }
            return None;
        }
        value = 10 * value + units;
    }
    proof {
        assert(digits.take(digits.len() as int) =~= digits);
    }
    Some(value)
}

/// The number of columns or rows in decimal.
pub fn count(value: usize) -> (text: String)
    ensures
        text@ == decimal(value as nat),
{
    number(value as u64)
}

/// Whether two texts are equal.
pub fn same_text(one: &str, other: &str) -> (same: bool)
    ensures
        same == (one@ == other@),
{
    let left = chars_of(one);
    let right = chars_of(other);
    if left.len() != right.len() {
        return false;
    }
    for i in 0..left.len()
        invariant
            left@.len() == right@.len(),
            left@ == one@,
            right@ == other@,
            forall|j: int| 0 <= j < i ==> left@[j] == right@[j],
    {
        if left[i] != right[i] {
            assert(one@[i as int] != other@[i as int]);
            return false;
        }
    }
    assert(left@ =~= right@);
    true
}

/// Whether a text starts with another.
pub fn starts_with(whole: &str, start: &str) -> (starts: bool)
    ensures
        starts == (start@.len() <= whole@.len() && whole@.take(start@.len() as int) == start@),
{
    let left = chars_of(whole);
    let right = chars_of(start);
    if right.len() > left.len() {
        return false;
    }
    for i in 0..right.len()
        invariant
            right@.len() <= left@.len(),
            left@ == whole@,
            right@ == start@,
            forall|j: int| 0 <= j < i ==> left@[j] == right@[j],
    {
        if left[i] != right[i] {
            assert(whole@.take(start@.len() as int)[i as int] != start@[i as int]);
            return false;
        }
    }
    assert(whole@.take(start@.len() as int) =~= start@);
    true
}

} // verus!
