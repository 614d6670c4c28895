//! Strings as sequences of characters: the helpers that the rest of the
//! crate shares.

use vstd::prelude::*;
use vstd::string::{StrSliceExecFns, StringExecFns, StringSliceAdditionalSpecFns};
use vstd::utf8::{encode_scalar, encode_utf8};

verus! {

/// The characters of `s`, in order.
pub fn chars_of(s: &str) -> (chars: Vec<char>)
    ensures
        chars@ == s@,
{
    let mut chars: Vec<char> = Vec::new();
    for c in it: s.chars()
        invariant
            it.seq() == s@,
            chars@ == it.seq().take(it.index()),
    {
        chars.push(c);
    }
    chars
}

/// The number of bytes that `c` takes in UTF-8.
pub open spec fn char_width(c: char) -> nat {
    if (c as u32) < 0x80 {
        1
    } else if (c as u32) < 0x800 {
        2
    } else if (c as u32) < 0x10000 {
        3
    } else {
        4
    }
}

/// The number of bytes that `s` takes in UTF-8.
pub open spec fn utf8_len(s: Seq<char>) -> nat
    decreases s.len(),
{
    if s.len() == 0 {
        0
    } else {
        utf8_len(s.drop_last()) + char_width(s.last())
    }
}

/// The byte offset at which the character of index `i` starts in `s`; for
/// `i == s.len()` the byte length of `s`.
pub open spec fn byte_offset(s: Seq<char>, i: int) -> nat {
    utf8_len(s.take(i))
}

/// `char_width` is the length of the character's UTF-8 encoding.
pub proof fn lemma_char_width_is_encoding_len(c: char)
    ensures
        char_width(c) == encode_scalar(c as u32).len(),
{
}

/// The encoding of a text followed by a character is the encoding of the
/// text followed by the encoding of the character.
pub proof fn lemma_encode_push(s: Seq<char>, c: char)
    ensures
        encode_utf8(s.push(c)) == encode_utf8(s) + encode_scalar(c as u32),
    decreases s.len(),
{
    if s.len() == 0 {
        assert(s.push(c).drop_first() =~= s);
        assert(encode_utf8(s) =~= Seq::<u8>::empty());
        assert(encode_utf8(s.push(c)) =~= encode_scalar(c as u32) + encode_utf8(s));
        assert(encode_utf8(s.push(c)) =~= encode_utf8(s) + encode_scalar(c as u32));
    } else {
        lemma_encode_push(s.drop_first(), c);
        assert(s.push(c).drop_first() =~= s.drop_first().push(c));
        assert(s.push(c)[0] == s[0]);
        assert(encode_utf8(s.push(c)) =~= encode_utf8(s) + encode_scalar(c as u32));
    }
}

/// `utf8_len` is the length of the UTF-8 encoding.
pub proof fn lemma_utf8_len_is_encoding_len(s: Seq<char>)
    ensures
        utf8_len(s) == encode_utf8(s).len(),
    decreases s.len(),
{
    if s.len() > 0 {
        lemma_utf8_len_is_encoding_len(s.drop_last());
        lemma_encode_push(s.drop_last(), s.last());
        lemma_char_width_is_encoding_len(s.last());
        assert(s.drop_last().push(s.last()) =~= s);
    }
}

/// Byte offsets grow with the character index, strictly, and end at the
/// byte length of the text.
pub proof fn lemma_byte_offset_monotonic(s: Seq<char>, i: int, j: int)
    requires
        0 <= i <= j <= s.len(),
    ensures
        byte_offset(s, i) <= byte_offset(s, j),
        i < j ==> byte_offset(s, i) < byte_offset(s, j),
        byte_offset(s, s.len() as int) == utf8_len(s),
    decreases j - i,
{
    assert(s.take(s.len() as int) =~= s);
    if i < j {
        lemma_byte_offset_monotonic(s, i, j - 1);
        assert(s.take(j).drop_last() =~= s.take(j - 1));
    }
}

/// The length of `s` in bytes.
pub fn byte_len(s: &str) -> (len: usize)
    ensures
        len == s.spec_bytes().len(),
        len == utf8_len(s@),
{
    proof {
        lemma_utf8_len_is_encoding_len(s@);
    }
    s.as_bytes().len()
}

/// The number of bytes of the character `c` in UTF-8.
pub fn width_of(c: char) -> (w: usize)
    ensures
        w == char_width(c),
{
    let v: u32 = c as u32;
    if v < 0x80 {
        1
    } else if v < 0x800 {
        2
    } else if v < 0x10000 {
        3
    } else {
        4
    }
}

/// The byte offsets of the characters of a text whose characters are
/// `chars` and whose byte length is `total`: one entry for each
/// character, and a last one that is `total`.
pub fn char_offsets(chars: &Vec<char>, total: usize) -> (offsets: Vec<usize>)
    requires
        total == utf8_len(chars@),
    ensures
        offsets@.len() == chars@.len() + 1,
        forall|i: int| 0 <= i <= chars@.len() ==> offsets@[i] == byte_offset(chars@, i),
{
    let mut offsets: Vec<usize> = Vec::new();
    let mut at: usize = 0;
    let mut i: usize = 0;
    offsets.push(0);
    assert(chars@.take(0) =~= Seq::<char>::empty());
    while i < chars.len()
        invariant
            i <= chars.len(),
            total == utf8_len(chars@),
            at == byte_offset(chars@, i as int),
            offsets@.len() == i + 1,
            forall|k: int| 0 <= k <= i ==> offsets@[k] == byte_offset(chars@, k),
        decreases chars.len() - i,
    {
        proof {
            lemma_byte_offset_monotonic(chars@, i + 1, chars@.len() as int);
            assert(chars@.take(i + 1).drop_last() =~= chars@.take(i as int));
        }
        at = at + width_of(chars[i]);
        offsets.push(at);
        i = i + 1;
    }
    offsets
}

/// Whether the byte offset `offset` is where a character of `text` starts,
/// or the end of the text.
pub open spec fn on_char_boundary(text: Seq<char>, offset: nat) -> bool {
    exists|i: int| 0 <= i <= text.len() && #[trigger] byte_offset(text, i) == offset
}

/// Whether `target` is one of the byte offsets `offsets` of the characters
/// `chars`.
pub fn is_char_boundary(chars: &Vec<char>, offsets: &Vec<usize>, target: usize) -> (found: bool)
    requires
        offsets@.len() == chars@.len() + 1,
        forall|i: int| 0 <= i <= chars@.len() ==> offsets@[i] == byte_offset(chars@, i),
    ensures
        found == on_char_boundary(chars@, target as nat),
{
    let mut lo: usize = 0;
    let mut hi: usize = offsets.len();
    while lo < hi
        invariant
            lo <= hi <= offsets@.len(),
            offsets@.len() == chars@.len() + 1,
            forall|i: int| 0 <= i <= chars@.len() ==> offsets@[i] == byte_offset(chars@, i),
            forall|i: int| 0 <= i < lo ==> byte_offset(chars@, i) < target,
            forall|i: int| hi <= i <= chars@.len() ==> byte_offset(chars@, i) > target,
        decreases hi - lo,
    {
        let mid: usize = lo + (hi - lo) / 2;
        let at = offsets[mid];
        if at == target {
            return true;
        }
        if at < target {
            assert forall|i: int| 0 <= i < mid + 1 implies byte_offset(chars@, i) < target by {
                lemma_byte_offset_monotonic(chars@, i, mid as int);
            }
            lo = mid + 1;
        } else {
            assert forall|i: int| mid <= i <= chars@.len() implies byte_offset(chars@, i)
                > target by {
                lemma_byte_offset_monotonic(chars@, mid as int, i);
            }
            hi = mid;
        }
    }
    false
}

/// Whether `needle` stands in `hay` at the character index `i`.
pub open spec fn occurs_at(hay: Seq<char>, needle: Seq<char>, i: int) -> bool {
    &&& 0 <= i
    &&& i + needle.len() <= hay.len()
    &&& hay.subrange(i, i + needle.len()) == needle
}

/// Whether `needle` occurs somewhere in `hay`. The empty text occurs in
/// every text.
pub open spec fn contains_seq(hay: Seq<char>, needle: Seq<char>) -> bool {
    exists|i: int| occurs_at(hay, needle, i)
}

/// Whether `hay` begins with `prefix`.
pub open spec fn starts_with_seq(hay: Seq<char>, prefix: Seq<char>) -> bool {
    occurs_at(hay, prefix, 0)
}

fn matches_at(hay: &Vec<char>, needle: &Vec<char>, i: usize) -> (b: bool)
    requires
        i + needle@.len() <= hay@.len(),
    ensures
        b == occurs_at(hay@, needle@, i as int),
{
    let mut j: usize = 0;
    while j < needle.len()
        invariant
            j <= needle.len(),
            i + needle@.len() <= hay@.len(),
            forall|k: int| 0 <= k < j ==> hay@[i + k] == needle@[k],
        decreases needle.len() - j,
    {
        assert(i + j < hay.len());
        if hay[i + j] != needle[j] {
            assert(hay@.subrange(i as int, i + needle@.len())[j as int] == hay@[i + j]);
            return false;
        }
        j = j + 1;
    }
    assert(hay@.subrange(i as int, i + needle@.len()) =~= needle@);
    true
}

/// Whether the characters `needle` occur in the characters `hay`.
pub fn chars_contain(hay: &Vec<char>, needle: &Vec<char>) -> (b: bool)
    ensures
        b == contains_seq(hay@, needle@),
{
    if needle.len() > hay.len() {
        return false;
    }
    let last: usize = hay.len() - needle.len();
    let mut i: usize = 0;
    while i < last
        invariant
            i <= last,
            last == hay@.len() - needle@.len(),
            forall|k: int| 0 <= k < i ==> !occurs_at(hay@, needle@, k),
        decreases last - i,
    {
        if matches_at(hay, needle, i) {
            return true;
        }
        i = i + 1;
    }
    matches_at(hay, needle, last)
}

/// Whether `needle` occurs in `hay`.
pub fn str_contains(hay: &str, needle: &str) -> (b: bool)
    ensures
        b == contains_seq(hay@, needle@),
{
    let h = chars_of(hay);
    let n = chars_of(needle);
    chars_contain(&h, &n)
}

/// Whether the character `c` occurs in `hay`.
pub fn str_contains_char(hay: &str, c: char) -> (b: bool)
    ensures
        b == hay@.contains(c),
{
    let h = chars_of(hay);
    let mut i: usize = 0;
    while i < h.len()
        invariant
            i <= h.len(),
            h@ == hay@,
            forall|k: int| 0 <= k < i ==> h@[k] != c,
        decreases h.len() - i,
    {
        if h[i] == c {
            return true;
        }
        i = i + 1;
    }
    false
}

/// Whether `hay` begins with `prefix`.
pub fn str_starts_with(hay: &str, prefix: &str) -> (b: bool)
    ensures
        b == starts_with_seq(hay@, prefix@),
{
    let h = chars_of(hay);
    let p = chars_of(prefix);
    if p.len() > h.len() {
        return false;
    }
    matches_at(&h, &p, 0)
}

/// Whether `a` and `b` hold the same characters.
pub fn str_eq(a: &str, b: &str) -> (same: bool)
    ensures
        same == (a@ == b@),
{
    let x = chars_of(a);
    let y = chars_of(b);
    if x.len() != y.len() {
        return false;
    }
    let same = matches_at(&x, &y, 0);
    assert(x@.subrange(0, y@.len() as int) =~= x@);
    same
}

/// Whether `c` is white space: one of the code points with the Unicode
/// property `White_Space`.
pub open spec fn is_white_space(c: char) -> bool {
    let v = c as u32;
    ||| 0x09 <= v <= 0x0D
    ||| v == 0x20
    ||| v == 0x85
    ||| v == 0xA0
    ||| v == 0x1680
    ||| 0x2000 <= v <= 0x200A
    ||| v == 0x2028
    ||| v == 0x2029
    ||| v == 0x202F
    ||| v == 0x205F
    ||| v == 0x3000
}

/// The number of white-space characters at the beginning of a text.
pub open spec fn leading_white(s: Seq<char>) -> nat
    decreases s.len(),
{
    if s.len() > 0 && is_white_space(s[0]) {
        1 + leading_white(s.drop_first())
    } else {
        0
    }
}

/// The number of white-space characters at the end of a text.
pub open spec fn trailing_white(s: Seq<char>) -> nat
    decreases s.len(),
{
    if s.len() > 0 && is_white_space(s.last()) {
        1 + trailing_white(s.drop_last())
    } else {
        0
    }
}

/// A text without its leading and trailing white space.
pub open spec fn trimmed(s: Seq<char>) -> Seq<char> {
    let rest = s.skip(leading_white(s) as int);
    rest.take(rest.len() - trailing_white(rest))
}

/// The unsigned integer that a text spells in decimal, if it spells one that
/// fits in 64 bits.
pub uninterp spec fn parsed_u64(s: Seq<char>) -> Option<u64>;

/// `c` with the letters `A` to `Z` replaced by `a` to `z`.
pub open spec fn ascii_lower_char(c: char) -> char {
    if 'A' <= c <= 'Z' {
        ((c as u8) + 32) as char
    } else {
        c
    }
}

/// `s` with its ASCII capital letters replaced by small ones.
pub open spec fn ascii_lowercase(s: Seq<char>) -> Seq<char> {
    s.map_values(|c: char| ascii_lower_char(c))
}

/// Whether `c` is white space.
pub fn is_white(c: char) -> (white: bool)
    ensures
        white == is_white_space(c),
{
    let v: u32 = c as u32;
    (0x09 <= v && v <= 0x0D) || v == 0x20 || v == 0x85 || v == 0xA0 || v == 0x1680 || (0x2000 <= v
        && v <= 0x200A) || v == 0x2028 || v == 0x2029 || v == 0x202F || v == 0x205F || v == 0x3000
}

/// A text that begins with `a` white-space characters and then ends, or
/// goes on with another character, has `a` leading white-space characters.
pub proof fn lemma_leading_white(s: Seq<char>, a: int)
    requires
        0 <= a <= s.len(),
        forall|k: int| 0 <= k < a ==> is_white_space(s[k]),
        a < s.len() ==> !is_white_space(s[a]),
    ensures
        leading_white(s) == a,
    decreases a,
{
    if a > 0 {
        lemma_leading_white(s.drop_first(), a - 1);
    }
}

/// A text that ends with `b` white-space characters, before which it
/// begins or another character stands, has `b` trailing white-space
/// characters.
pub proof fn lemma_trailing_white(s: Seq<char>, b: int)
    requires
        0 <= b <= s.len(),
        forall|k: int| s.len() - b <= k < s.len() ==> is_white_space(s[k]),
        b < s.len() ==> !is_white_space(s[s.len() - b - 1]),
    ensures
        trailing_white(s) == b,
    decreases b,
{
    if b > 0 {
        lemma_trailing_white(s.drop_last(), b - 1);
    }
}

/// `s` without leading and trailing white space.
pub fn trim(s: &str) -> (inner: &str)
    ensures
        inner@ == trimmed(s@),
{
    let chars = chars_of(s);
    let n = chars.len();
    let mut a: usize = 0;
    while a < n && is_white(chars[a])
        invariant
            a <= n,
            n == chars@.len(),
            forall|k: int| 0 <= k < a ==> is_white_space(chars@[k]),
        decreases n - a,
    {
        a = a + 1;
    }
    let mut b: usize = n;
    while b > a && is_white(chars[b - 1])
        invariant
            a <= b <= n,
            n == chars@.len(),
            forall|k: int| b <= k < n ==> is_white_space(chars@[k]),
        decreases b,
    {
        b = b - 1;
    }
    proof {
        lemma_leading_white(chars@, a as int);
        let rest = chars@.skip(a as int);
        assert forall|k: int| rest.len() - (n - b) <= k < rest.len() implies is_white_space(
            rest[k],
        ) by {
            assert(rest[k] == chars@[a + k]);
        }
        if n - b < rest.len() {
            assert(rest[rest.len() - (n - b) - 1] == chars@[b - 1]);
        }
        lemma_trailing_white(rest, n - b);
        assert(rest.take(rest.len() - (n - b)) =~= chars@.subrange(a as int, b as int));
    }
    s.substring_char(a, b)
}

/// The small letter for the capital letter `c`, as a string.
fn small_letter(c: char) -> (letter: &'static str)
    requires
        'A' <= c <= 'Z',
    ensures
        letter@ == seq![ascii_lower_char(c)],
{
    let letters = "abcdefghijklmnopqrstuvwxyz";
    proof {
        reveal_strlit("abcdefghijklmnopqrstuvwxyz");
    }
    let k: usize = (c as u32 - 65) as usize;
    let letter = letters.substring_ascii(k, k + 1);
    assert(letter@ =~= seq![ascii_lower_char(c)]);
    letter
}

/// `s` with the ASCII letters `A` to `Z` made small and every other
/// character unchanged.
pub fn to_ascii_lowercase(s: &str) -> (lower: String)
    ensures
        lower@ == ascii_lowercase(s@),
{
    let chars = chars_of(s);
    let mut lower = String::new();
    let mut i: usize = 0;
    assert(lower@ =~= ascii_lowercase(chars@.take(0)));
    while i < chars.len()
        invariant
            i <= chars.len(),
            chars@ == s@,
            lower@ == ascii_lowercase(chars@.take(i as int)),
        decreases chars.len() - i,
    {
        let c = chars[i];
        let ghost before = lower@;
        if 'A' <= c && c <= 'Z' {
            lower.append(small_letter(c));
        } else {
            lower.append(s.substring_char(i, i + 1));
            assert(s@.subrange(i as int, i + 1) =~= seq![c]);
        }
        assert(lower@ =~= before + seq![ascii_lower_char(c)]);
        assert(ascii_lowercase(chars@.take(i + 1)) =~= ascii_lowercase(chars@.take(i as int))
            + seq![ascii_lower_char(c)]);
        i = i + 1;
    }
    assert(chars@.take(i as int) =~= chars@);
    lower
}

/// The number that `s` spells, if it spells an unsigned 64-bit integer.
///
/// Trusted: `str::parse::<u64>`. Its result depends on the text alone and is
/// named `parsed_u64`; nothing else is claimed of it.
#[verifier::external_body]
pub(crate) fn parse_u64(s: &str) -> (value: Option<u64>)
    ensures
        value == parsed_u64(s@),
{
    s.parse::<u64>().ok()
}

/// The lower-case form of one character, as the Unicode tables of the
/// standard library give it: one character or more.
pub uninterp spec fn char_lowercase(c: char) -> Seq<char>;

/// A text with each character replaced by its lower-case form.
pub open spec fn lowered_text(s: Seq<char>) -> Seq<char>
    decreases s.len(),
{
    if s.len() == 0 {
        Seq::empty()
    } else {
        lowered_text(s.drop_last()) + char_lowercase(s.last())
    }
}

/// The lower-case form of `c`.
///
/// Trusted: `char::to_lowercase`, collected into a string. Its result
/// depends on the character alone and is named `char_lowercase`; nothing
/// else is claimed of it.
#[verifier::external_body]
pub(crate) fn lower_char(c: char) -> (lower: String)
    ensures
        lower@ == char_lowercase(c),
{
    c.to_lowercase().collect()
}

/// `s` with each character replaced by its lower-case form.
pub fn lower_text(s: &str) -> (lower: String)
    ensures
        lower@ == lowered_text(s@),
{
    let chars = chars_of(s);
    let mut lower = String::new();
    let mut i: usize = 0;
    assert(chars@.take(0) =~= Seq::<char>::empty());
    while i < chars.len()
        invariant
            i <= chars.len(),
            lower@ == lowered_text(chars@.take(i as int)),
        decreases chars.len() - i,
    {
        assert(chars@.take(i + 1).drop_last() =~= chars@.take(i as int));
        let one = lower_char(chars[i]);
        lower.append(one.as_str());
        i = i + 1;
    }
    assert(chars@.take(i as int) =~= chars@);
    lower
}

} // verus!
