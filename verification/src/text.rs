//! Text as a sequence of characters, and the byte offsets that go with it.
use vstd::prelude::*;
use vstd::utf8::{encode_scalar, encode_utf8, is_ascii_chars, is_ascii_chars_encode_utf8};

verus! {

/// `String::push` appends the character and changes nothing else.
pub assume_specification[ String::push ](s: &mut String, c: char)
    ensures
        final(s)@ == old(s)@.push(c),
;

/// The lower-case form of a text, as `str::to_lowercase` gives it: the Unicode
/// mapping, which can change the number of characters.
pub uninterp spec fn lowercase(text: Seq<char>) -> Seq<char>;

/// An ASCII letter `A` to `Z` in lower case; any other character as it is.
pub open spec fn ascii_lowercase(c: char) -> char {
    if 'A' <= c <= 'Z' {
        (c as u32 + 32) as char
    } else {
        c
    }
}

/// A text with its ASCII letters in lower case.
pub open spec fn ascii_lowercase_text(text: Seq<char>) -> Seq<char> {
    text.map_values(|c: char| ascii_lowercase(c))
}

/// Calls `str::to_lowercase`. Its result is a function of the text alone, named
/// `lowercase`; on ASCII text it maps `A` to `Z` letter by letter and keeps the rest.
#[verifier::external_body]
pub(crate) fn to_lowercase(text: &str) -> (lower: String)
    ensures
        lower@ == lowercase(text@),
        is_ascii_chars(text@) ==> lower@ == ascii_lowercase_text(text@),
{
    text.to_lowercase()
}

/// The offset, in bytes of its UTF-8 form, at which character `i` of `text` begins.
pub open spec fn byte_offset(text: Seq<char>, i: int) -> nat {
    encode_utf8(text.take(i)).len()
}

/// Whether `needle` stands in `text` at character `i`.
pub open spec fn occurs_at(needle: Seq<char>, text: Seq<char>, i: int) -> bool {
    0 <= i && i + needle.len() <= text.len() && text.subrange(i, i + needle.len()) == needle
}

/// The UTF-8 form of one character more is as much longer as that character's own.
pub proof fn lemma_encode_push(text: Seq<char>, c: char)
    ensures
        encode_utf8(text.push(c)) == encode_utf8(text) + encode_scalar(c as u32),
    decreases text.len(),
{
    if text.len() == 0 {
        assert(text.push(c).drop_first() =~= Seq::<char>::empty());
        assert(encode_utf8(text.push(c).drop_first()) =~= Seq::<u8>::empty());
        assert(encode_utf8(text) =~= Seq::<u8>::empty());
    } else {
        assert(text.push(c).drop_first() =~= text.drop_first().push(c));
        lemma_encode_push(text.drop_first(), c);
        assert(encode_utf8(text.push(c)) =~= encode_utf8(text) + encode_scalar(c as u32));
    }
}

/// The UTF-8 form of two texts in a row is that of the one and then that of the other.
pub proof fn lemma_encode_concat(a: Seq<char>, b: Seq<char>)
    ensures
        encode_utf8(a + b) == encode_utf8(a) + encode_utf8(b),
    decreases b.len(),
{
    if b.len() == 0 {
        assert(a + b =~= a);
        assert(encode_utf8(a) + encode_utf8(b) =~= encode_utf8(a));
    } else {
        let rest = b.drop_last();
        lemma_encode_concat(a, rest);
        assert(a + b =~= (a + rest).push(b.last()));
        assert(b =~= rest.push(b.last()));
        lemma_encode_push(a + rest, b.last());
        lemma_encode_push(rest, b.last());
        assert(encode_utf8(a + b) =~= encode_utf8(a) + encode_utf8(b));
    }
}

/// The next character begins where the one before it ends.
pub proof fn lemma_byte_offset_step(text: Seq<char>, i: int)
    requires
        0 <= i < text.len(),
    ensures
        byte_offset(text, i + 1) == byte_offset(text, i) + encode_scalar(text[i] as u32).len(),
        1 <= encode_scalar(text[i] as u32).len() <= 4,
{
    assert(text.take(i + 1) =~= text.take(i).push(text[i]));
    lemma_encode_push(text.take(i), text[i]);
}

/// Byte offsets grow strictly with the character index.
pub proof fn lemma_byte_offset_increases(text: Seq<char>, i: int, j: int)
    requires
        0 <= i <= j <= text.len(),
    ensures
        byte_offset(text, i) + (j - i) <= byte_offset(text, j),
    decreases j - i,
{
    if i < j {
        lemma_byte_offset_increases(text, i, j - 1);
        lemma_byte_offset_step(text, j - 1);
    }
}

/// The lower case of an ASCII text takes one byte for each character of the text.
pub proof fn lemma_ascii_lowercase_bytes(text: Seq<char>)
    requires
        is_ascii_chars(text),
    ensures
        encode_utf8(ascii_lowercase_text(text)).len() == text.len(),
{
    is_ascii_chars_encode_utf8(ascii_lowercase_text(text));
}

/// The bytes that one character takes in UTF-8.
pub(crate) fn char_width(c: char) -> (width: usize)
    ensures
        width == encode_scalar(c as u32).len(),
{
    let code = c as u32;
    if code <= 0x7f {
        1
    } else if code <= 0x7ff {
        2
    } else if code <= 0xffff {
        3
    } else {
        4
    }
}

/// The bytes that a text takes in UTF-8.
pub(crate) fn byte_length(text: &str) -> (length: usize)
    ensures
        length == encode_utf8(text@).len(),
{
    text.as_bytes().len()
}

/// The characters of a text.
pub(crate) fn characters(text: &str) -> (chars: Vec<char>)
    ensures
        chars@ == text@,
{
    let mut chars: Vec<char> = Vec::new();
    for c in it: text.chars()
        invariant
            chars@ == it.seq().take(it.index()),
            it.seq() == text@,
    {
        chars.push(c);
    }
    chars
}

/// Whether `needle` stands in `text` at character `i`.
pub(crate) fn matches_at(needle: &Vec<char>, text: &Vec<char>, i: usize) -> (matches: bool)
    requires
        i <= text@.len(),
    ensures
        matches == occurs_at(needle@, text@, i as int),
{
    if needle.len() > text.len() - i {
        return false;
    }
    let mut k: usize = 0;
    while k < needle.len()
        invariant
            k <= needle@.len(),
            i + needle.len() <= text.len(),
            forall|m: int| 0 <= m < k ==> needle@[m] == text@[i + m],
        decreases needle@.len() - k,
    {
        if needle[k] != text[i + k] {
            assert(text@.subrange(i as int, i + needle@.len())[k as int] != needle@[k as int]);
            return false;
        }
        k += 1;
    }
    assert(text@.subrange(i as int, i + needle@.len()) =~= needle@);
    true
}

/// Whether two texts hold the same characters.
pub(crate) fn same_text(a: &str, b: &str) -> (same: bool)
    ensures
        same == (a@ == b@),
{
    let a_chars = characters(a);
    let b_chars = characters(b);
    if a_chars.len() != b_chars.len() {
        return false;
    }
    let same = matches_at(&a_chars, &b_chars, 0);
    assert(b@.subrange(0, b@.len() as int) =~= b@);
    same
}

/// Whether a text begins with `prefix`.
pub(crate) fn starts_with(text: &str, prefix: &str) -> (starts: bool)
    ensures
        starts == prefix@.is_prefix_of(text@),
{
    matches_at(&characters(prefix), &characters(text), 0)
}

/// Whether a character occurs in a text.
pub(crate) fn contains_char(text: &str, wanted: char) -> (contains: bool)
    ensures
        contains == text@.contains(wanted),
{
    let chars = characters(text);
    let mut i: usize = 0;
    while i < chars.len()
        invariant
            i <= chars@.len(),
            chars@ == text@,
            forall|m: int| 0 <= m < i ==> chars@[m] != wanted,
        decreases chars@.len() - i,
    {
        if chars[i] == wanted {
            return true;
        }
        i += 1;
    }
    false
}

} // verus!
