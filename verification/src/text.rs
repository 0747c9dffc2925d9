//! Text building blocks: every message of the library is assembled from these.

use vstd::prelude::*;
use vstd::string::*;
use vstd::utf8::{encode_utf8, encode_utf8_decode_utf8};

verus! {

/// The number of bytes of `text` in UTF-8.
pub open spec fn utf8_len(text: Seq<char>) -> nat {
    encode_utf8(text).len()
}

/// The views of a sequence of strings.
pub open spec fn texts(values: Seq<String>) -> Seq<Seq<char>> {
    values.map_values(|value: String| value@)
}

/// The view of an optional string.
pub open spec fn text_option(value: Option<String>) -> Option<Seq<char>> {
    match value {
        Some(text) => Some(text@),
        None => None,
    }
}

/// The decimal digits of `value`, without leading zeros.
pub open spec fn decimal_digits(value: nat) -> Seq<char>
    decreases value,
{
    if value < 10 {
        seq![digit_char(value)]
    } else {
        decimal_digits(value / 10).push(digit_char(value % 10))
    }
}

/// The character of one decimal digit.
pub open spec fn digit_char(digit: nat) -> char {
    if digit == 0 {
        '0'
    } else if digit == 1 {
        '1'
    } else if digit == 2 {
        '2'
    } else if digit == 3 {
        '3'
    } else if digit == 4 {
        '4'
    } else if digit == 5 {
        '5'
    } else if digit == 6 {
        '6'
    } else if digit == 7 {
        '7'
    } else if digit == 8 {
        '8'
    } else {
        '9'
    }
}

/// Whether a character is white space: it has the Unicode property `White_Space`.
pub open spec fn whitespace(character: char) -> bool {
    let code = character as u32;
    ||| 0x09 <= code <= 0x0d
    ||| code == 0x20
    ||| code == 0x85
    ||| code == 0xa0
    ||| code == 0x1680
    ||| 0x2000 <= code <= 0x200a
    ||| code == 0x2028
    ||| code == 0x2029
    ||| code == 0x202f
    ||| code == 0x205f
    ||| code == 0x3000
}

/// Whether `text` holds nothing but white space.
pub open spec fn blank(text: Seq<char>) -> bool {
    forall|i: int| 0 <= i < text.len() ==> whitespace(#[trigger] text[i])
}

/// `text` without the white space at its start.
pub open spec fn trim_start(text: Seq<char>) -> Seq<char>
    decreases text.len(),
{
    if text.len() > 0 && whitespace(text[0]) {
        trim_start(text.drop_first())
    } else {
        text
    }
}

/// `text` without the white space at its end.
pub open spec fn trim_end(text: Seq<char>) -> Seq<char>
    decreases text.len(),
{
    if text.len() > 0 && whitespace(text.last()) {
        trim_end(text.drop_last())
    } else {
        text
    }
}

/// `text` without the white space at either end.
pub open spec fn trimmed(text: Seq<char>) -> Seq<char> {
    trim_end(trim_start(text))
}

fn is_whitespace(character: char) -> (result: bool)
    ensures
        result == whitespace(character),
{
    let code: u32 = character as u32;
    (0x09 <= code && code <= 0x0d) || code == 0x20 || code == 0x85 || code == 0xa0 || code == 0x1680
        || (0x2000 <= code && code <= 0x200a) || code == 0x2028 || code == 0x2029 || code == 0x202f
        || code == 0x205f || code == 0x3000
}

/// `String::from_iter` over characters: the string of exactly those characters.
#[verifier::external_body]
pub(crate) fn text_of(characters: &Vec<char>) -> (result: String)
    ensures
        result@ == characters@,
{
    String::from_iter(characters)
}

/// The characters of `text`, in order.
pub fn characters(text: &str) -> (result: Vec<char>)
    ensures
        result@ == text@,
{
    let mut result: Vec<char> = Vec::new();
    for character in iter: text.chars()
        invariant
            iter.seq() == text@,
            result@ == text@.take(iter.index() as int),
    {
        result.push(character);
        assert(result@ =~= text@.take(iter.index() as int + 1));
    }
    assert(text@.take(text@.len() as int) =~= text@);
    result
}

/// The number of bytes of `text` in UTF-8.
pub fn byte_len(text: &str) -> (result: usize)
    ensures
        result == utf8_len(text@),
{
    text.as_bytes().len()
}

/// Whether two texts hold the same characters.
pub fn same_text(left: &str, right: &str) -> (result: bool)
    ensures
        result == (left@ == right@),
{
    let a = left.as_bytes();
    let b = right.as_bytes();
    proof {
        encode_utf8_decode_utf8(left@);
        encode_utf8_decode_utf8(right@);
    }
    if a.len() != b.len() {
        return false;
    }
    let mut i: usize = 0;
    while i < a.len()
        invariant
            i <= a@.len(),
            a@.len() == b@.len(),
            forall|j: int| 0 <= j < i ==> a@[j] == b@[j],
            a@ == encode_utf8(left@),
            b@ == encode_utf8(right@),
        decreases a@.len() - i,
    {
        if a[i] != b[i] {
            return false;
        }
        i += 1;
    }
    assert(a@ =~= b@);
    true
}

/// Whether `text` holds nothing but white space.
pub fn is_blank(text: &str) -> (result: bool)
    ensures
        result == blank(text@),
{
    let all = characters(text);
    let mut i: usize = 0;
    while i < all.len()
        invariant
            i <= all@.len(),
            all@ == text@,
            forall|j: int| 0 <= j < i ==> whitespace(text@[j]),
        decreases all@.len() - i,
    {
        if !is_whitespace(all[i]) {
            assert(!whitespace(text@[i as int]));
            return false;
        }
        i += 1;
    }
    true
}

/// `text` without the white space at either end.
pub fn trim(text: &str) -> (result: String)
    ensures
        result@ == trimmed(text@),
{
    let all = characters(text);
    let mut start: usize = 0;
    assert(text@.skip(0) =~= text@);
    while start < all.len() && is_whitespace(all[start])
        invariant
            start <= all@.len(),
            all@ == text@,
            trim_start(text@) == trim_start(text@.skip(start as int)),
        decreases all@.len() - start,
    {
        assert(text@.skip(start as int).drop_first() =~= text@.skip(start as int + 1));
        start += 1;
    }
    assert(trim_start(text@) == text@.skip(start as int));
    let mut end: usize = all.len();
    let ghost rest = text@.skip(start as int);
    assert(rest =~= text@.subrange(start as int, end as int));
    while end > start && is_whitespace(all[end - 1])
        invariant
            start <= end <= all@.len(),
            all@ == text@,
            trim_end(rest) == trim_end(text@.subrange(start as int, end as int)),
        decreases end,
    {
        assert(text@.subrange(start as int, end as int).drop_last() =~= text@.subrange(
            start as int,
            end - 1,
        ));
        end -= 1;
    }
    text.substring_char(start, end).to_owned()
}

/// The decimal form of `value`.
pub fn decimal(value: u64) -> (result: String)
    ensures
        result@ == decimal_digits(value as nat),
{
    let mut reversed: Vec<char> = Vec::new();
    let mut rest: u64 = value;
    while rest >= 10
        invariant
            decimal_digits(value as nat) == decimal_digits(rest as nat) + reversed@.reverse(),
        decreases rest,
    {
        let before: Ghost<Seq<char>> = Ghost(reversed@);
        let digit: u64 = rest % 10;
        reversed.push(digit_of(digit));
        proof {
            assert(reversed@.reverse() =~= seq![digit_char((rest % 10) as nat)] + before@.reverse());
            assert(decimal_digits(rest as nat) + before@.reverse() =~= decimal_digits(
                (rest / 10) as nat,
            ) + reversed@.reverse());
        }
        rest = rest / 10;
    }
    reversed.push(digit_of(rest));
    let mut digits: Vec<char> = Vec::new();
    let mut i: usize = reversed.len();
    while i > 0
        invariant
            i <= reversed@.len(),
            digits@ =~= reversed@.skip(i as int).reverse(),
        decreases i,
    {
        i -= 1;
        digits.push(reversed[i]);
    }
    proof {
        let before = reversed@.drop_last();
        assert(reversed@.skip(0) =~= reversed@);
        assert(reversed@.reverse() =~= seq![digit_char(rest as nat)] + before.reverse());
        assert(digits@ =~= decimal_digits(value as nat));
    }
    text_of(&digits)
}

fn digit_of(digit: u64) -> (result: char)
    requires
        digit < 10,
    ensures
        result == digit_char(digit as nat),
{
    match digit {
        0 => '0',
        1 => '1',
        2 => '2',
        3 => '3',
        4 => '4',
        5 => '5',
        6 => '6',
        7 => '7',
        8 => '8',
        _ => '9',
    }
}

/// The bytes of two texts one after the other are the bytes of both.
pub proof fn utf8_len_of_joined(first: Seq<char>, second: Seq<char>)
    ensures
        utf8_len(first + second) == utf8_len(first) + utf8_len(second),
    decreases first.len(),
{
    if first.len() == 0 {
        assert(first + second =~= second);
    } else {
        assert((first + second).drop_first() =~= first.drop_first() + second);
        utf8_len_of_joined(first.drop_first(), second);
    }
}

/// Two texts one after the other.
pub fn join2(first: &str, second: &str) -> (result: String)
    ensures
        result@ == first@ + second@,
{
    first.to_owned().concat(second)
}

/// Three texts one after the other.
pub fn join3(first: &str, second: &str, third: &str) -> (result: String)
    ensures
        result@ == first@ + second@ + third@,
{
    first.to_owned().concat(second).concat(third)
}

/// A borrowed text, if there is one.
pub open spec fn borrowed_text(value: Option<&str>) -> Option<Seq<char>> {
    match value {
        Some(text) => Some(text@),
        None => None,
    }
}

/// A copy of an optional string.
pub fn copy_option(value: &Option<String>) -> (result: Option<String>)
    ensures
        result == *value,
{
    match value {
        Some(text) => Some(text.clone()),
        None => None,
    }
}

/// A copy of a list of strings.
pub fn copy_texts(values: &Vec<String>) -> (result: Vec<String>)
    ensures
        result@ == values@,
        texts(result@) == texts(values@),
{
    let mut result: Vec<String> = Vec::new();
    let mut i: usize = 0;
    while i < values.len()
        invariant
            i <= values@.len(),
            result@ =~= values@.take(i as int),
        decreases values@.len() - i,
    {
        result.push(values[i].clone());
        i += 1;
    }
    assert(result@ =~= values@);
    result
}

/// Whether `values` holds `wanted`.
pub fn contains_text(values: &Vec<String>, wanted: &str) -> (result: bool)
    ensures
        result == texts(values@).contains(wanted@),
{
    let mut i: usize = 0;
    while i < values.len()
        invariant
            i <= values@.len(),
            forall|j: int| 0 <= j < i ==> (#[trigger] texts(values@)[j]) != wanted@,
        decreases values@.len() - i,
    {
        if same_text(values[i].as_str(), wanted) {
            assert(texts(values@)[i as int] == wanted@);
            return true;
        }
        i += 1;
    }
    false
}

} // verus!
