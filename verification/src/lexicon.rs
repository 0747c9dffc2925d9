//! How queries and tool metadata are split into terms.

use crate::text::{characters, same_text, text_of, texts, trim, trimmed, utf8_len};
use vstd::prelude::*;
use vstd::string::*;
use vstd::utf8::{encode_scalar, encode_utf8};

verus! {

/// Bytes of a text that terms are taken from.
pub const MAX_DISCOVERY_QUERY_BYTES: usize = 4096;

/// Most terms of one text.
pub const MAX_QUERY_TERMS: usize = 64;

/// Whether a character is an ASCII letter or digit.
pub open spec fn alphanumeric(character: char) -> bool {
    ('0' <= character && character <= '9') || ('A' <= character && character <= 'Z') || ('a'
        <= character && character <= 'z')
}

/// A character with ASCII capitals made small.
pub open spec fn small(character: char) -> char {
    if 'A' <= character && character <= 'Z' {
        ((character as u32 + 32) as u32) as char
    } else {
        character
    }
}

/// Bytes of one character in UTF-8.
pub open spec fn char_bytes(character: char) -> nat {
    let scalar = character as u32;
    if scalar <= 0x7F {
        1
    } else if scalar <= 0x7FF {
        2
    } else if scalar <= 0xFFFF {
        3
    } else {
        4
    }
}

/// The characters of a text that begin before byte `limit`, where the text itself begins at
/// byte `offset`.
pub open spec fn bounded_from(text: Seq<char>, offset: nat, limit: nat) -> Seq<char>
    decreases text.len(),
{
    if text.len() == 0 || offset >= limit {
        Seq::empty()
    } else {
        seq![text[0]] + bounded_from(text.drop_first(), offset + char_bytes(text[0]), limit)
    }
}

/// The characters of a text that begin before byte `limit`.
pub open spec fn bounded(text: Seq<char>, limit: nat) -> Seq<char> {
    bounded_from(text, 0, limit)
}

/// The words of small letters and digits of a text; `current` is what was read of the word
/// at hand.
pub open spec fn words_from(text: Seq<char>, current: Seq<char>) -> Seq<Seq<char>>
    decreases text.len(),
{
    let flushed = if current.len() > 0 {
        seq![current]
    } else {
        Seq::empty()
    };
    if text.len() == 0 {
        flushed
    } else if alphanumeric(text[0]) {
        words_from(text.drop_first(), current.push(small(text[0])))
    } else {
        flushed + words_from(text.drop_first(), Seq::empty())
    }
}

/// At most `count` items of a list.
pub open spec fn at_most(values: Seq<Seq<char>>, count: nat) -> Seq<Seq<char>> {
    if values.len() > count {
        values.take(count as int)
    } else {
        values
    }
}

/// The terms of a text.
pub open spec fn terms_of(text: Seq<char>) -> Seq<Seq<char>> {
    at_most(
        words_from(bounded(text, MAX_DISCOVERY_QUERY_BYTES as nat), Seq::empty()),
        MAX_QUERY_TERMS as nat,
    )
}

/// A text without white space at its ends, bounded, with ASCII capitals made small.
pub open spec fn phrase(text: Seq<char>) -> Seq<char> {
    bounded(trimmed(text), MAX_DISCOVERY_QUERY_BYTES as nat).map_values(
        |character: char| small(character),
    )
}

pub(crate) fn is_alphanumeric(character: char) -> (result: bool)
    ensures
        result == alphanumeric(character),
{
    ('0' <= character && character <= '9') || ('A' <= character && character <= 'Z') || ('a'
        <= character && character <= 'z')
}

pub(crate) fn make_small(character: char) -> (result: char)
    ensures
        result == small(character),
{
    if 'A' <= character && character <= 'Z' {
        let scalar: u8 = character as u8;
        (scalar + 32) as char
    } else {
        character
    }
}

fn bytes_of(character: char) -> (result: usize)
    ensures
        result == char_bytes(character),
        1 <= result <= 4,
{
    let scalar: u32 = character as u32;
    if scalar <= 0x7F {
        1
    } else if scalar <= 0x7FF {
        2
    } else if scalar <= 0xFFFF {
        3
    } else {
        4
    }
}

proof fn char_bytes_encoded(character: char)
    ensures
        encode_scalar(character as u32).len() == char_bytes(character),
{
}

/// The length in bytes is the sum over the characters.
pub proof fn char_bytes_sum(text: Seq<char>)
    requires
        text.len() > 0,
    ensures
        utf8_len(text) == char_bytes(text[0]) + utf8_len(text.drop_first()),
{
    reveal_with_fuel(encode_utf8, 2);
    assert(encode_utf8(text) == encode_scalar(text[0] as u32) + encode_utf8(text.drop_first()));
    char_bytes_encoded(text[0]);
}

/// What is bounded is a beginning of the text, and only its last character may reach past the
/// limit.
pub proof fn bounded_is_short(text: Seq<char>, offset: nat, limit: nat)
    ensures
        ({
            let part = bounded_from(text, offset, limit);
            &&& part.len() <= text.len()
            &&& part == text.take(part.len() as int)
            &&& part.len() > 0 ==> offset + utf8_len(part) < limit + 4
        }),
    decreases text.len(),
{
    if text.len() > 0 && offset < limit {
        let rest = bounded_from(text.drop_first(), offset + char_bytes(text[0]), limit);
        let part = bounded_from(text, offset, limit);
        bounded_is_short(text.drop_first(), offset + char_bytes(text[0]), limit);
        assert(part.drop_first() =~= rest);
        char_bytes_sum(part);
        assert(part =~= text.take(part.len() as int));
        if rest.len() == 0 {
            assert(utf8_len(rest) == 0) by {
                assert(rest =~= Seq::empty());
            }
        }
    } else {
        assert(text.take(0) =~= Seq::empty());
    }
}

/// The characters of a text that begin before byte `limit`.
fn take_bounded(text: &str, limit: usize) -> (result: Vec<char>)
    requires
        limit < 1_000_000,
    ensures
        result@ == bounded(text@, limit as nat),
{
    let all = characters(text);
    let mut part: Vec<char> = Vec::new();
    let mut offset: usize = 0;
    let mut i: usize = 0;
    assert(all@.skip(0) =~= text@);
    assert(part@ + bounded_from(all@.skip(0), 0, limit as nat) =~= bounded(text@, limit as nat));
    while i < all.len() && offset < limit
        invariant
            i <= all@.len(),
            limit < 1_000_000,
            offset < limit + 4,
            part@ + bounded_from(all@.skip(i as int), offset as nat, limit as nat) == bounded(
                text@,
                limit as nat,
            ),
        decreases all@.len() - i,
    {
        let character = all[i];
        let ghost before = part@;
        let ghost rest = all@.skip(i as int);
        part.push(character);
        proof {
            assert(rest[0] == character);
            assert(rest.drop_first() =~= all@.skip(i + 1));
            let tail = bounded_from(
                all@.skip(i + 1),
                offset as nat + char_bytes(character),
                limit as nat,
            );
            assert(before + (seq![character] + tail) =~= part@ + tail);
        }
        offset = offset + bytes_of(character);
        i += 1;
    }
    proof {
        let rest = all@.skip(i as int);
        assert(bounded_from(rest, offset as nat, limit as nat) =~= Seq::empty());
        assert(part@ + Seq::<char>::empty() =~= part@);
    }
    part
}

/// The terms of a text.
pub fn tokenize(text: &str) -> (result: Vec<String>)
    ensures
        texts(result@) == terms_of(text@),
{
    let part = take_bounded(text, MAX_DISCOVERY_QUERY_BYTES);
    let ghost whole = words_from(part@, Seq::empty());
    let mut words: Vec<String> = Vec::new();
    let mut current: Vec<char> = Vec::new();
    let mut i: usize = 0;
    assert(part@.skip(0) =~= part@);
    assert(texts(words@) + words_from(part@.skip(0), current@) =~= whole);
    while i < part.len()
        invariant
            i <= part@.len(),
            whole == words_from(part@, Seq::empty()),
            texts(words@) + words_from(part@.skip(i as int), current@) == whole,
        decreases part@.len() - i,
    {
        let ghost rest = part@.skip(i as int);
        let ghost seen = texts(words@);
        let ghost word = current@;
        proof {
            assert(rest[0] == part@[i as int]);
            assert(rest.drop_first() =~= part@.skip(i + 1));
        }
        if is_alphanumeric(part[i]) {
            current.push(make_small(part[i]));
        } else {
            if current.len() > 0 {
                words.push(text_of(&current));
                assert(texts(words@) =~= seen.push(word));
                assert(seen + (seq![word] + words_from(part@.skip(i + 1), Seq::empty()))
                    =~= texts(words@) + words_from(part@.skip(i + 1), Seq::empty()));
            } else {
                assert(Seq::<Seq<char>>::empty() + words_from(part@.skip(i + 1), Seq::empty())
                    =~= words_from(part@.skip(i + 1), Seq::empty()));
            }
            current = Vec::new();
            assert(current@ =~= Seq::empty());
        }
        i += 1;
    }
    proof {
        assert(part@.skip(i as int) =~= Seq::empty());
    }
    if current.len() > 0 {
        let ghost seen = texts(words@);
        let ghost word = current@;
        words.push(text_of(&current));
        assert(texts(words@) =~= seen.push(word));
        assert(seen.push(word) =~= seen + seq![word]);
    } else {
        assert(texts(words@) + Seq::<Seq<char>>::empty() =~= texts(words@));
    }
    assert(texts(words@) == whole);
    if words.len() > MAX_QUERY_TERMS {
        words.truncate(MAX_QUERY_TERMS);
        assert(texts(words@) =~= whole.take(MAX_QUERY_TERMS as int));
    }
    words
}

/// A text without white space at its ends, bounded, with ASCII capitals made small.
pub fn normalize_phrase(text: &str) -> (result: String)
    ensures
        result@ == phrase(text@),
{
    let core = trim(text);
    let part = take_bounded(core.as_str(), MAX_DISCOVERY_QUERY_BYTES);
    let mut folded: Vec<char> = Vec::new();
    let mut i: usize = 0;
    while i < part.len()
        invariant
            i <= part@.len(),
            folded@.len() == i,
            forall|j: int| 0 <= j < i ==> (#[trigger] folded@[j]) == small(part@[j]),
        decreases part@.len() - i,
    {
        folded.push(make_small(part[i]));
        i += 1;
    }
    assert(folded@ =~= phrase(text@));
    text_of(&folded)
}

/// How often a term occurs in a list.
pub open spec fn term_count(terms: Seq<Seq<char>>, term: Seq<char>) -> nat
    decreases terms.len(),
{
    if terms.len() == 0 {
        0
    } else {
        term_count(terms.drop_last(), term) + (if terms.last() == term {
            1nat
        } else {
            0nat
        })
    }
}

/// How often a term occurs in a list.
pub fn count_term(terms: &Vec<String>, term: &str) -> (count: usize)
    ensures
        count == term_count(texts(terms@), term@),
        count <= terms@.len(),
{
    let mut count: usize = 0;
    let mut i: usize = 0;
    assert(texts(terms@).take(0) =~= Seq::empty());
    while i < terms.len()
        invariant
            i <= terms@.len(),
            count <= i,
            count == term_count(texts(terms@).take(i as int), term@),
        decreases terms@.len() - i,
    {
        proof {
            let longer = texts(terms@).take(i + 1);
            assert(longer.drop_last() =~= texts(terms@).take(i as int));
            assert(longer.last() == terms@[i as int]@);
        }
        if same_text(terms[i].as_str(), term) {
            count += 1;
        }
        i += 1;
    }
    assert(texts(terms@).take(i as int) =~= texts(terms@));
    count
}

} // verus!
