//! Script detection.

use vstd::prelude::*;
use crate::text::chars_of;

verus! {

/// Whether the code point `c` lies in one of the CJK blocks that count as
/// Chinese script.
pub open spec fn is_chinese_code_point(c: int) -> bool {
    ||| 0x4E00 <= c <= 0x9FA5
    ||| 0x9FA6 <= c <= 0x9FFF
    ||| 0x3400 <= c <= 0x4DB5
    ||| 0x20000 <= c <= 0x2A6D6
    ||| 0x2A700 <= c <= 0x2B734
    ||| 0x2B740 <= c <= 0x2B81D
    ||| 0x2F00 <= c <= 0x2FD5
    ||| 0x2E80 <= c <= 0x2EF3
    ||| 0xF900 <= c <= 0xFAD9
    ||| 0x2F800 <= c <= 0x2FA1D
    ||| 0xE815 <= c <= 0xE86F
    ||| 0xE400 <= c <= 0xE5E8
    ||| 0xE600 <= c <= 0xE6CF
    ||| 0x31C0 <= c <= 0x31E3
    ||| 0x2FF0 <= c <= 0x2FFB
    ||| 0x3105 <= c <= 0x3120
    ||| 0x31A0 <= c <= 0x31BA
}

/// Whether `c` is a Chinese character.
pub fn is_chinese_char(c: char) -> (b: bool)
    ensures
        b == is_chinese_code_point(c as int),
{
    let v: u32 = c as u32;
    (0x4E00 <= v && v <= 0x9FA5) || (0x9FA6 <= v && v <= 0x9FFF) || (0x3400 <= v && v <= 0x4DB5)
        || (0x20000 <= v && v <= 0x2A6D6) || (0x2A700 <= v && v <= 0x2B734) || (0x2B740 <= v && v
        <= 0x2B81D) || (0x2F00 <= v && v <= 0x2FD5) || (0x2E80 <= v && v <= 0x2EF3) || (0xF900 <= v
        && v <= 0xFAD9) || (0x2F800 <= v && v <= 0x2FA1D) || (0xE815 <= v && v <= 0xE86F) || (0xE400
        <= v && v <= 0xE5E8) || (0xE600 <= v && v <= 0xE6CF) || (0x31C0 <= v && v <= 0x31E3) || (
    0x2FF0 <= v && v <= 0x2FFB) || (0x3105 <= v && v <= 0x3120) || (0x31A0 <= v && v <= 0x31BA)
}

/// The number of Chinese characters in `s`.
pub open spec fn chinese_count(s: Seq<char>) -> nat
    decreases s.len(),
{
    if s.len() == 0 {
        0
    } else {
        chinese_count(s.drop_last()) + if is_chinese_code_point(s.last() as int) {
            1nat
        } else {
            0nat
        }
    }
}

/// Whether more than three tenths of the characters of `s` are Chinese.
pub open spec fn is_chinese_text(s: Seq<char>) -> bool {
    10 * chinese_count(s) > 3 * s.len()
}

/// Whether `text` is to be handled as Chinese: more than three tenths of its
/// characters are Chinese characters. The empty text is not Chinese.
pub fn is_chinese(text: &str) -> (b: bool)
    ensures
        b == is_chinese_text(text@),
{
    let chars = chars_of(text);
    let mut count: usize = 0;
    let mut i: usize = 0;
    while i < chars.len()
        invariant
            i <= chars.len(),
            count <= i,
            count == chinese_count(chars@.take(i as int)),
        decreases chars.len() - i,
    {
        assert(chars@.take(i + 1).drop_last() == chars@.take(i as int));
        if is_chinese_char(chars[i]) {
            count = count + 1;
        }
        i = i + 1;
    }
    assert(chars@.take(i as int) == chars@);
    (count as u128) * 10 > (chars.len() as u128) * 3
}

} // verus!
