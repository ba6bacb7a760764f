//! Small conversions between strings, lists of strings and binary text.

use crate::text::{chars_of, split, split_chars, string_of, strings_of, texts};
use vstd::prelude::*;

verus! {

/// The low eight bits of a character's code point.
pub open spec fn low_byte(c: char) -> u8 {
    (c as u32 % 256) as u8
}

/// Binary digit `k` of `b`, counted from the most significant of its eight.
pub open spec fn bit_char(b: u8, k: int) -> char {
    if (b >> ((7 - k) as u8)) & 1 == 1 {
        '1'
    } else {
        '0'
    }
}

/// The eight binary digits of each byte of `bytes`, most significant first,
/// one byte after the other.
pub open spec fn binary_digits(bytes: Seq<u8>) -> Seq<char> {
    Seq::new(8 * bytes.len(), |i: int| bit_char(bytes[i / 8], i % 8))
}

/// Every character of `s` as the eight binary digits of its low byte.
pub open spec fn binary_text(s: Seq<char>) -> Seq<char> {
    binary_digits(Seq::new(s.len(), |i: int| low_byte(s[i])))
}

/// Binary digit `k` of `b`, as a character.
pub(crate) fn bit_of(b: u8, k: u8) -> (c: char)
    requires
        k < 8,
    ensures
        c == bit_char(b, k as int),
{
    if (b >> (7 - k)) & 1 == 1 {
        '1'
    } else {
        '0'
    }
}

/// Renders bytes as binary digits, eight for each byte.
pub fn bytes_to_binary(bytes: &Vec<u8>) -> (out: Vec<char>)
    ensures
        out@ == binary_digits(bytes@),
{
    let mut out: Vec<char> = Vec::new();
    let mut i: usize = 0;
    while i < bytes.len()
        invariant
            i <= bytes.len(),
            out.len() == 8 * i,
            forall|j: int| 0 <= j < 8 * i ==> out@[j] == bit_char(bytes@[j / 8], j % 8),
        decreases bytes.len() - i,
    {
        let b: u8 = bytes[i];
        let mut k: u8 = 0;
        while k < 8
            invariant
                k <= 8,
                i < bytes.len(),
                b == bytes@[i as int],
                out.len() == 8 * i + k,
                forall|j: int| 0 <= j < 8 * i + k ==> out@[j] == bit_char(bytes@[j / 8], j % 8),
            decreases 8 - k,
        {
            out.push(bit_of(b, k));
            k += 1;
        }
        i += 1;
    }
    assert(out@ =~= binary_digits(bytes@));
    out
}

/// Splits `string` at every occurrence of `delim`.
pub fn split_to_string_vec(string: String, delim: &str) -> (parts: Vec<String>)
    ensures
        texts(parts@) == split(string@, delim@),
{
    let s = chars_of(string.as_str());
    let d = chars_of(delim);
    let pieces = split_chars(&s, &d);
    strings_of(&pieces)
}

/// Writes each character of `s` as the eight binary digits of its low byte.
pub fn string_to_binary(s: &str) -> (out: String)
    ensures
        out@ == binary_text(s@),
{
    let cs = chars_of(s);
    let mut bytes: Vec<u8> = Vec::new();
    let mut i: usize = 0;
    while i < cs.len()
        invariant
            i <= cs.len(),
            bytes.len() == i,
            forall|j: int| 0 <= j < i ==> bytes@[j] == low_byte(cs@[j]),
        decreases cs.len() - i,
    {
        let n: u32 = cs[i] as u32;
        bytes.push((n % 256) as u8);
        i += 1;
    }
    assert(bytes@ =~= Seq::new(cs@.len(), |i: int| low_byte(cs@[i])));
    let digits = bytes_to_binary(&bytes);
    string_of(&digits)
}

/// The word for a truth value.
pub fn bool_to_str<'a>(b: bool) -> (word: &'a str)
    ensures
        word@ == (if b {
            "true"@
        } else {
            "false"@
        }),
{
    if b {
        "true"
    } else {
        "false"
    }
}

} // verus!
