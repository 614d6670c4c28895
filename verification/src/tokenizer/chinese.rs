//! Tokens of a Chinese text: the words of a dictionary segmenter, and laid
//! over them, if asked for, their romanized readings.

use vstd::prelude::*;
use vstd::string::StringExecFns;
use vstd::string::StringSliceAdditionalSpecFns;
use jieba_rs::TokenizeMode;
use pinyin::ToPinyin;
use pinyin::ToPinyinMulti;
use crate::text::{
    byte_len, byte_offset, char_offsets, chars_of, lemma_byte_offset_monotonic,
    lemma_utf8_len_is_encoding_len, utf8_len,
};
use crate::tokenizer::{
    spans_text, token_views, well_formed, MetaTokenStream, Token, TokenView,
};

verus! {

/// The segmenter of the `jieba_rs` crate with its dictionary: an opaque
/// value.
#[verifier::external_type_specification]
#[verifier::external_body]
pub struct ExJieba(jieba_rs::Jieba);

/// A word that the segmenter found: its text, and the indices of its first
/// character and of the character behind its last one.
pub struct WordSpan {
    pub word: String,
    pub start: usize,
    pub end: usize,
}

/// A word span as a mathematical value.
pub ghost struct WordSpanView {
    pub word: Seq<char>,
    pub start: nat,
    pub end: nat,
}

impl View for WordSpan {
    type V = WordSpanView;

    open spec fn view(&self) -> WordSpanView {
        WordSpanView { word: self.word@, start: self.start as nat, end: self.end as nat }
    }
}

/// One romanized reading of the character of index `index`.
pub struct Reading {
    pub index: usize,
    pub text: String,
}

/// A reading as a mathematical value.
pub ghost struct ReadingView {
    pub index: nat,
    pub text: Seq<char>,
}

impl View for Reading {
    type V = ReadingView;

    open spec fn view(&self) -> ReadingView {
        ReadingView { index: self.index as nat, text: self.text@ }
    }
}

/// The words of a vector as mathematical values.
pub open spec fn word_views(words: Seq<WordSpan>) -> Seq<WordSpanView> {
    words.map_values(|w: WordSpan| w@)
}

/// The readings of a vector as mathematical values.
pub open spec fn reading_views(readings: Seq<Reading>) -> Seq<ReadingView> {
    readings.map_values(|r: Reading| r@)
}

/// The texts of a vector of strings.
pub open spec fn string_views(strings: Seq<String>) -> Seq<Seq<char>> {
    strings.map_values(|s: String| s@)
}

/// The text with every traditional character replaced by its simplified
/// form.
pub uninterp spec fn simplified(text: Seq<char>) -> Seq<char>;

/// The words that the segmenter, with its built-in dictionary and in search
/// mode, finds in a text: for each word of the best segmentation first the
/// shorter dictionary words inside it, then the word itself.
pub uninterp spec fn search_segmentation(text: Seq<char>) -> Seq<WordSpanView>;

/// The first reading of a character, without tone marks, if it has one.
pub uninterp spec fn pinyin_plain(c: char) -> Option<Seq<char>>;

/// All readings of a character, without tone marks, in the order of the
/// phonetic table; empty if it has none.
pub uninterp spec fn pinyin_plain_all(c: char) -> Seq<Seq<char>>;

/// The simplified form of `text`.
///
/// Trusted: `fast2s::convert`. Its result depends on the text alone and is
/// named `simplified`. It writes one character for each character that it
/// reads, so the result has as many characters as the text.
#[verifier::external_body]
pub(crate) fn to_simplified(text: &str) -> (simple: String)
    ensures
        simple@ == simplified(text@),
        simple@.len() == text@.len(),
{
    fast2s::convert(text)
}

/// The first reading of `c`.
///
/// Trusted: `pinyin::ToPinyin::to_pinyin` on a `char`, and `Pinyin::plain`
/// of what it finds. The result depends on the character alone and is named
/// `pinyin_plain`; nothing else is claimed of it.
#[verifier::external_body]
pub(crate) fn char_pinyin(c: char) -> (reading: Option<String>)
    ensures
        reading is Some <==> pinyin_plain(c) is Some,
        reading is Some ==> reading->0@ == pinyin_plain(c)->0,
{
    c.to_pinyin().map(|p| p.plain().to_string())
}

/// All readings of `c`.
///
/// Trusted: `pinyin::ToPinyinMulti::to_pinyin_multi` on a `char`, and
/// `Pinyin::plain` of each reading that it lists. The result depends on the
/// character alone and is named `pinyin_plain_all`; nothing else is claimed
/// of it.
#[verifier::external_body]
pub(crate) fn char_pinyin_all(c: char) -> (readings: Vec<String>)
    ensures
        string_views(readings@) == pinyin_plain_all(c),
{
    c.to_pinyin_multi().into_iter().flatten().map(|p| p.plain().to_string()).collect()
}

/// The dictionary segmenter. It can only be made by `Segmenter::new`, so it
/// always holds the built-in dictionary.
pub struct Segmenter {
    jieba: jieba_rs::Jieba,
}

impl Segmenter {
    /// A segmenter with the built-in dictionary.
    ///
    /// Trusted: `jieba_rs::Jieba::new`. Nothing is claimed of the result.
    #[verifier::external_body]
    pub(crate) fn new() -> Segmenter {
        Segmenter { jieba: jieba_rs::Jieba::new() }
    }

    /// The words of `text`, in search mode and without the hidden Markov
    /// model for unknown words.
    ///
    /// Trusted: `jieba_rs::Jieba::tokenize`. With the built-in dictionary its
    /// result depends on the text alone and is named `search_segmentation`.
    /// It cuts the text into pieces that follow each other and are never
    /// empty, and counts the characters of the pieces for the spans; so
    /// every span holds at least one character and lies inside the text,
    /// and a text that is not empty has a word.
    #[verifier::external_body]
    pub(crate) fn segment(&self, text: &str) -> (words: Vec<WordSpan>)
        ensures
            word_views(words@) == search_segmentation(text@),
            spans_fit(word_views(words@), text@.len()),
            text@.len() > 0 ==> words@.len() > 0,
    {
        self.jieba.tokenize(text, TokenizeMode::Search, false).into_iter().map(
            |t| WordSpan { word: t.word.to_string(), start: t.start, end: t.end },
        ).collect()
    }
}

/// The readings of the characters of a word that have one, joined.
pub open spec fn word_pinyin(word: Seq<char>) -> Seq<char>
    decreases word.len(),
{
    if word.len() == 0 {
        Seq::empty()
    } else {
        word_pinyin(word.drop_last()) + match pinyin_plain(word.last()) {
            Some(p) => p,
            None => Seq::empty(),
        }
    }
}

/// `items` without the entries that occurred before.
pub open spec fn distinct(items: Seq<Seq<char>>) -> Seq<Seq<char>>
    decreases items.len(),
{
    if items.len() == 0 {
        Seq::empty()
    } else if items.drop_last().contains(items.last()) {
        distinct(items.drop_last())
    } else {
        distinct(items.drop_last()).push(items.last())
    }
}

/// The distinct readings of one character, each with the character's index.
pub open spec fn readings_at(index: nat, c: char) -> Seq<ReadingView> {
    distinct(pinyin_plain_all(c)).map_values(|p: Seq<char>| ReadingView { index, text: p })
}

/// The distinct readings of every character of a text, character by
/// character.
pub open spec fn char_readings(text: Seq<char>) -> Seq<ReadingView>
    decreases text.len(),
{
    if text.len() == 0 {
        Seq::empty()
    } else {
        char_readings(text.drop_last()) + readings_at((text.len() - 1) as nat, text.last())
    }
}

/// The joined reading of each word.
pub open spec fn words_pinyin(words: Seq<WordSpanView>) -> Seq<Seq<char>> {
    words.map_values(|w: WordSpanView| word_pinyin(w.word))
}

/// Whether every word spans at least one of the `n` characters of a text.
pub open spec fn spans_fit(words: Seq<WordSpanView>, n: nat) -> bool {
    forall|i: int| 0 <= i < words.len() ==> (#[trigger] words[i]).start < words[i].end <= n
}

/// Whether every reading belongs to one of the `n` characters of a text,
/// and the readings come in the order of the characters.
pub open spec fn readings_fit(readings: Seq<ReadingView>, n: nat) -> bool {
    &&& forall|i: int| 0 <= i < readings.len() ==> (#[trigger] readings[i]).index < n
    &&& forall|i: int, j: int|
        0 <= i <= j < readings.len() ==> (#[trigger] readings[i]).index <= (
        #[trigger] readings[j]).index
}

/// The token that carries `text` over the characters `start..end` of
/// `source`.
pub open spec fn span_token(
    source: Seq<char>,
    start: nat,
    end: nat,
    text: Seq<char>,
    position: nat,
    total: nat,
) -> TokenView {
    TokenView {
        offset_from: byte_offset(source, start as int),
        offset_to: byte_offset(source, end as int),
        position,
        text,
        position_length: total,
    }
}

/// The tokens of a text without phonetic expansion: one for each word, at
/// the positions 1, 2, 3 and so on.
pub open spec fn plain_tokens(source: Seq<char>, words: Seq<WordSpanView>) -> Seq<TokenView> {
    Seq::new(
        words.len(),
        |i: int|
            span_token(
                source,
                words[i].start,
                words[i].end,
                words[i].word,
                (i + 1) as nat,
                words.len(),
            ),
    )
}

/// The tokens of a text with phonetic expansion. Word `i` stands at position
/// `2 * i + 1` and its reading at `2 * i + 2`, both over the word's
/// characters. Behind them comes one token for each reading of each
/// character, over that character, at the position of the character's index
/// behind all the words' slots. The text takes two slots for each word
/// and one for each character.
pub open spec fn phonetic_tokens(
    source: Seq<char>,
    words: Seq<WordSpanView>,
    pinyins: Seq<Seq<char>>,
    readings: Seq<ReadingView>,
) -> Seq<TokenView> {
    let total = 2 * words.len() + source.len();
    Seq::new(
        2 * words.len() + readings.len(),
        |k: int|
            if k < 2 * words.len() {
                span_token(
                    source,
                    words[k / 2].start,
                    words[k / 2].end,
                    if k % 2 == 0 {
                        words[k / 2].word
                    } else {
                        pinyins[k / 2]
                    },
                    (k + 1) as nat,
                    total,
                )
            } else {
                let r = readings[k - 2 * words.len()];
                span_token(
                    source,
                    r.index,
                    r.index + 1,
                    r.text,
                    2 * words.len() + r.index + 1,
                    total,
                )
            },
    )
}

/// The tokens of a text without phonetic expansion are well formed.
pub proof fn lemma_plain_tokens_well_formed(source: Seq<char>, words: Seq<WordSpanView>)
    requires
        spans_fit(words, source.len()),
    ensures
        well_formed(plain_tokens(source, words), source),
{
    let tokens = plain_tokens(source, words);
    assert forall|i: int| 0 <= i < tokens.len() implies spans_text(#[trigger] tokens[i], source) by {
        lemma_byte_offset_monotonic(source, words[i].start as int, words[i].end as int);
        lemma_byte_offset_monotonic(source, words[i].end as int, source.len() as int);
    }
}

/// The tokens of a text with phonetic expansion are well formed.
pub proof fn lemma_phonetic_tokens_well_formed(
    source: Seq<char>,
    words: Seq<WordSpanView>,
    pinyins: Seq<Seq<char>>,
    readings: Seq<ReadingView>,
)
    requires
        spans_fit(words, source.len()),
        readings_fit(readings, source.len()),
    ensures
        well_formed(phonetic_tokens(source, words, pinyins, readings), source),
{
    let tokens = phonetic_tokens(source, words, pinyins, readings);
    assert forall|k: int| 0 <= k < tokens.len() implies spans_text(#[trigger] tokens[k], source) by {
        if k < 2 * words.len() {
            let w = words[k / 2];
            lemma_byte_offset_monotonic(source, w.start as int, w.end as int);
            lemma_byte_offset_monotonic(source, w.end as int, source.len() as int);
        } else {
            let r = readings[k - 2 * words.len()];
            lemma_byte_offset_monotonic(source, r.index as int, (r.index + 1) as int);
            lemma_byte_offset_monotonic(source, (r.index + 1) as int, source.len() as int);
        }
    }
    assert forall|i: int, j: int| 0 <= i <= j < tokens.len() implies (#[trigger] tokens[i]).position
        <= (#[trigger] tokens[j]).position by {
        if i >= 2 * words.len() {
            let a = readings[i - 2 * words.len()];
            let b = readings[j - 2 * words.len()];
            assert(a.index <= b.index);
        }
    }
}

/// The readings of the characters of a text belong to its characters and
/// come in their order.
pub proof fn lemma_char_readings_fit(text: Seq<char>)
    ensures
        readings_fit(char_readings(text), text.len()),
    decreases text.len(),
{
    if text.len() > 0 {
        lemma_char_readings_fit(text.drop_last());
        let front = char_readings(text.drop_last());
        let back = readings_at((text.len() - 1) as nat, text.last());
        let all = char_readings(text);
        assert(all == front + back);
        assert forall|i: int| 0 <= i < all.len() implies (#[trigger] all[i]).index < text.len() by {
            if i < front.len() {
                assert(all[i] == front[i]);
            } else {
                assert(all[i] == back[i - front.len()]);
            }
        }
        assert forall|i: int, j: int| 0 <= i <= j < all.len() implies (#[trigger] all[i]).index <= (
        #[trigger] all[j]).index by {
            if j < front.len() {
                assert(all[i] == front[i]);
                assert(all[j] == front[j]);
            } else if i < front.len() {
                assert(all[i] == front[i]);
                assert(all[j] == back[j - front.len()]);
            } else {
                assert(all[i] == back[i - front.len()]);
                assert(all[j] == back[j - front.len()]);
            }
        }
    }
}

/// The joined readings of the characters of `word`.
pub fn pinyin_of_word(word: &str) -> (reading: String)
    ensures
        reading@ == word_pinyin(word@),
{
    let chars = chars_of(word);
    let mut reading = String::new();
    let mut i: usize = 0;
    assert(chars@.take(0) =~= Seq::<char>::empty());
    while i < chars.len()
        invariant
            i <= chars.len(),
            chars@ == word@,
            reading@ == word_pinyin(chars@.take(i as int)),
        decreases chars.len() - i,
    {
        assert(chars@.take(i + 1).drop_last() =~= chars@.take(i as int));
        match char_pinyin(chars[i]) {
            Some(p) => {
                reading.append(p.as_str());
            },
            None => {
                assert(reading@ + Seq::<char>::empty() =~= reading@);
            },
        }
        i = i + 1;
    }
    assert(chars@.take(i as int) =~= chars@);
    reading
}

fn occurs_before(items: &Vec<String>, i: usize) -> (found: bool)
    requires
        i < items@.len(),
    ensures
        found == string_views(items@).take(i as int).contains(items@[i as int]@),
{
    let mut k: usize = 0;
    while k < i
        invariant
            k <= i < items@.len(),
            forall|l: int| 0 <= l < k ==> string_views(items@)[l] != items@[i as int]@,
        decreases i - k,
    {
        if items[k] == items[i] {
            assert(string_views(items@).take(i as int)[k as int] == items@[i as int]@);
            return true;
        }
        k = k + 1;
    }
    false
}

/// `items` without the entries that occurred before, in their order.
pub fn distinct_strings(items: &Vec<String>) -> (kept: Vec<String>)
    ensures
        string_views(kept@) == distinct(string_views(items@)),
{
    let mut kept: Vec<String> = Vec::new();
    let mut i: usize = 0;
    assert(string_views(items@).take(0) =~= Seq::<Seq<char>>::empty());
    assert(string_views(kept@) =~= Seq::<Seq<char>>::empty());
    while i < items.len()
        invariant
            i <= items.len(),
            string_views(kept@) == distinct(string_views(items@).take(i as int)),
        decreases items.len() - i,
    {
        let ghost before = string_views(kept@);
        assert(string_views(items@).take(i + 1).drop_last() =~= string_views(items@).take(
            i as int,
        ));
        assert(string_views(items@).take(i + 1).last() == items@[i as int]@);
        if !occurs_before(items, i) {
            kept.push(items[i].clone());
            assert(string_views(kept@) =~= before.push(items@[i as int]@));
        }
        i = i + 1;
    }
    assert(string_views(items@).take(i as int) =~= string_views(items@));
    kept
}

/// The distinct readings of every character of `chars`.
pub fn readings_of(chars: &Vec<char>) -> (readings: Vec<Reading>)
    ensures
        reading_views(readings@) == char_readings(chars@),
{
    let mut readings: Vec<Reading> = Vec::new();
    let mut i: usize = 0;
    assert(chars@.take(0) =~= Seq::<char>::empty());
    assert(reading_views(readings@) =~= Seq::<ReadingView>::empty());
    while i < chars.len()
        invariant
            i <= chars.len(),
            reading_views(readings@) == char_readings(chars@.take(i as int)),
        decreases chars.len() - i,
    {
        let all = char_pinyin_all(chars[i]);
        let unique = distinct_strings(&all);
        let ghost front = reading_views(readings@);
        let ghost back = readings_at(i as nat, chars@[i as int]);
        assert(chars@.take(i + 1).drop_last() =~= chars@.take(i as int));
        assert(back.len() == unique@.len());
        let mut j: usize = 0;
        assert(front + back.take(0) =~= front);
        while j < unique.len()
            invariant
                j <= unique.len(),
                i < chars.len(),
                back.len() == unique@.len(),
                back == readings_at(i as nat, chars@[i as int]),
                string_views(unique@) == distinct(pinyin_plain_all(chars@[i as int])),
                reading_views(readings@) == front + back.take(j as int),
            decreases unique.len() - j,
        {
            let ghost so_far = reading_views(readings@);
            readings.push(Reading { index: i, text: unique[j].clone() });
            assert(string_views(unique@)[j as int] == unique@[j as int]@);
            assert(reading_views(readings@) =~= so_far.push(back[j as int]));
            assert(front + back.take(j + 1) =~= (front + back.take(j as int)).push(back[j as int]));
            j = j + 1;
        }
        assert(back.take(j as int) =~= back);
        i = i + 1;
    }
    assert(chars@.take(i as int) =~= chars@);
    readings
}

/// Whether every word of `words` spans at least one of `n` characters.
pub fn check_spans(words: &Vec<WordSpan>, n: usize) -> (ok: bool)
    ensures
        ok == spans_fit(word_views(words@), n as nat),
{
    let mut i: usize = 0;
    while i < words.len()
        invariant
            i <= words.len(),
            forall|k: int|
                0 <= k < i ==> (#[trigger] word_views(words@)[k]).start < word_views(
                    words@,
                )[k].end <= n,
        decreases words.len() - i,
    {
        let w = &words[i];
        assert(word_views(words@)[i as int] == w@);
        if !(w.start < w.end && w.end <= n) {
            return false;
        }
        i = i + 1;
    }
    true
}

/// The tokens of `text` for the words `words`, without phonetic expansion.
pub fn word_tokens(text: &str, words: &Vec<WordSpan>) -> (tokens: Vec<Token>)
    requires
        spans_fit(word_views(words@), text@.len()),
    ensures
        token_views(tokens@) == plain_tokens(text@, word_views(words@)),
{
    let chars = chars_of(text);
    let total = byte_len(text);
    proof {
        lemma_utf8_len_is_encoding_len(text@);
    }
    let offsets = char_offsets(&chars, total);
    let count = words.len();
    let ghost model = plain_tokens(text@, word_views(words@));
    let mut tokens: Vec<Token> = Vec::new();
    let mut i: usize = 0;
    while i < count
        invariant
            i <= count,
            count == words@.len(),
            chars@ == text@,
            spans_fit(word_views(words@), text@.len()),
            offsets@.len() == chars@.len() + 1,
            forall|k: int| 0 <= k <= chars@.len() ==> offsets@[k] == byte_offset(chars@, k),
            model == plain_tokens(text@, word_views(words@)),
            tokens@.len() == i,
            forall|k: int| 0 <= k < i ==> tokens@[k]@ == model[k],
        decreases count - i,
    {
        let w = &words[i];
        assert(word_views(words@)[i as int] == w@);
        tokens.push(
            Token {
                offset_from: offsets[w.start],
                offset_to: offsets[w.end],
                position: i + 1,
                text: w.word.clone(),
                position_length: count,
            },
        );
        i = i + 1;
    }
    assert(token_views(tokens@) =~= model);
    tokens
}

/// Whether the positions of a text of `n` characters with `words` words fit
/// in `usize`: two slots for each word and one for each character.
pub open spec fn positions_fit(words: nat, n: nat) -> bool {
    2 * words + n <= usize::MAX
}

/// Whether the positions of a text of `n` characters with `words` words fit
/// in `usize`.
pub fn check_positions(words: usize, n: usize) -> (ok: bool)
    ensures
        ok == positions_fit(words as nat, n as nat),
{
    if words > usize::MAX / 2 {
        return false;
    }
    let slots: usize = 2 * words;
    n <= usize::MAX - slots
}

/// The tokens of `text` for the words `words`, with the reading
/// `pinyins[i]` laid over word `i` and the readings `readings` laid over
/// the characters.
pub fn phonetic_word_tokens(
    text: &str,
    words: &Vec<WordSpan>,
    pinyins: &Vec<String>,
    readings: &Vec<Reading>,
) -> (tokens: Vec<Token>)
    requires
        spans_fit(word_views(words@), text@.len()),
        pinyins@.len() == words@.len(),
        forall|i: int| 0 <= i < readings@.len() ==> (#[trigger] readings@[i]).index < text@.len(),
        positions_fit(words@.len(), text@.len()),
    ensures
        token_views(tokens@) == phonetic_tokens(
            text@,
            word_views(words@),
            string_views(pinyins@),
            reading_views(readings@),
        ),
{
    let chars = chars_of(text);
    let total = byte_len(text);
    proof {
        lemma_utf8_len_is_encoding_len(text@);
    }
    let offsets = char_offsets(&chars, total);
    let count = words.len();
    let slots: usize = 2 * count;
    let all: usize = slots + chars.len();
    let ghost model = phonetic_tokens(
        text@,
        word_views(words@),
        string_views(pinyins@),
        reading_views(readings@),
    );
    let mut tokens: Vec<Token> = Vec::new();
    let mut i: usize = 0;
    while i < count
        invariant
            i <= count,
            count == words@.len(),
            pinyins@.len() == words@.len(),
            slots == 2 * count,
            all == slots + chars@.len(),
            chars@ == text@,
            spans_fit(word_views(words@), text@.len()),
            offsets@.len() == chars@.len() + 1,
            forall|k: int| 0 <= k <= chars@.len() ==> offsets@[k] == byte_offset(chars@, k),
            model == phonetic_tokens(
                text@,
                word_views(words@),
                string_views(pinyins@),
                reading_views(readings@),
            ),
            tokens@.len() == 2 * i,
            forall|k: int| 0 <= k < 2 * i ==> tokens@[k]@ == model[k],
        decreases count - i,
    {
        let w = &words[i];
        assert(word_views(words@)[i as int] == w@);
        assert(string_views(pinyins@)[i as int] == pinyins@[i as int]@);
        assert((2 * i) / 2 == i && (2 * i) % 2 == 0);
        assert((2 * i + 1) / 2 == i && (2 * i + 1) % 2 == 1);
        tokens.push(
            Token {
                offset_from: offsets[w.start],
                offset_to: offsets[w.end],
                position: 2 * i + 1,
                text: w.word.clone(),
                position_length: all,
            },
        );
        tokens.push(
            Token {
                offset_from: offsets[w.start],
                offset_to: offsets[w.end],
                position: 2 * i + 2,
                text: pinyins[i].clone(),
                position_length: all,
            },
        );
        i = i + 1;
    }
    let mut j: usize = 0;
    while j < readings.len()
        invariant
            j <= readings.len(),
            count == words@.len(),
            slots == 2 * count,
            all == slots + chars@.len(),
            chars@ == text@,
            positions_fit(words@.len(), text@.len()),
            forall|i: int|
                0 <= i < readings@.len() ==> (#[trigger] readings@[i]).index < text@.len(),
            offsets@.len() == chars@.len() + 1,
            forall|k: int| 0 <= k <= chars@.len() ==> offsets@[k] == byte_offset(chars@, k),
            model == phonetic_tokens(
                text@,
                word_views(words@),
                string_views(pinyins@),
                reading_views(readings@),
            ),
            tokens@.len() == slots + j,
            forall|k: int| 0 <= k < slots + j ==> tokens@[k]@ == model[k],
        decreases readings.len() - j,
    {
        let r = &readings[j];
        assert(reading_views(readings@)[j as int] == r@);
        tokens.push(
            Token {
                offset_from: offsets[r.index],
                offset_to: offsets[r.index + 1],
                position: slots + r.index + 1,
                text: r.text.clone(),
                position_length: all,
            },
        );
        j = j + 1;
    }
    assert(token_views(tokens@) =~= model);
    tokens
}

/// The joined reading of each word of `words`.
pub fn pinyins_of(words: &Vec<WordSpan>) -> (pinyins: Vec<String>)
    ensures
        pinyins@.len() == words@.len(),
        string_views(pinyins@) == words_pinyin(word_views(words@)),
{
    let mut pinyins: Vec<String> = Vec::new();
    let mut i: usize = 0;
    while i < words.len()
        invariant
            i <= words.len(),
            pinyins@.len() == i,
            forall|k: int| 0 <= k < i ==> pinyins@[k]@ == word_pinyin(words@[k].word@),
        decreases words.len() - i,
    {
        pinyins.push(pinyin_of_word(words[i].word.as_str()));
        i = i + 1;
    }
    assert(string_views(pinyins@) =~= words_pinyin(word_views(words@)));
    pinyins
}

/// The tokens of a Chinese text. The text is simplified and segmented. The
/// words stand over the text as it was given, character for character.
/// Where the words do not lie inside the text, or the positions do not fit
/// in `usize`, the text has no tokens.
pub open spec fn chinese_tokens(text: Seq<char>, pinyin: bool) -> Seq<TokenView> {
    let simple = simplified(text);
    let words = search_segmentation(simple);
    if simple.len() != text.len() || !spans_fit(words, text.len()) {
        Seq::empty()
    } else if !pinyin {
        plain_tokens(text, words)
    } else if !positions_fit(words.len(), text.len()) {
        Seq::empty()
    } else {
        phonetic_tokens(text, words, words_pinyin(words), char_readings(simple))
    }
}

/// The tokens of a Chinese text are well formed.
pub proof fn lemma_chinese_tokens_well_formed(text: Seq<char>, pinyin: bool)
    ensures
        well_formed(chinese_tokens(text, pinyin), text),
{
    let simple = simplified(text);
    let words = search_segmentation(simple);
    if simple.len() == text.len() && spans_fit(words, text.len()) {
        if !pinyin {
            lemma_plain_tokens_well_formed(text, words);
        } else {
            lemma_char_readings_fit(simple);
            lemma_phonetic_tokens_well_formed(
                text,
                words,
                words_pinyin(words),
                char_readings(simple),
            );
        }
    }
}

/// Whether every token stands in one of the slots of its text, counted
/// from one, and all tokens give the same number of slots.
pub open spec fn in_slots(tokens: Seq<TokenView>) -> bool {
    &&& forall|i: int|
        0 <= i < tokens.len() ==> 1 <= (#[trigger] tokens[i]).position <= tokens[i].position_length
    &&& forall|i: int, j: int|
        0 <= i < tokens.len() && 0 <= j < tokens.len() ==> (#[trigger] tokens[i]).position_length
            == (#[trigger] tokens[j]).position_length
}

/// The tokens of a Chinese text stand in the slots of the text: `position`
/// never exceeds `position_length`, which is the number of words without
/// phonetic expansion, and with it two for each word and one for each
/// character.
pub proof fn lemma_chinese_tokens_in_slots(text: Seq<char>, pinyin: bool)
    ensures
        in_slots(chinese_tokens(text, pinyin)),
        forall|i: int|
            0 <= i < chinese_tokens(text, pinyin).len() ==> (#[trigger] chinese_tokens(
                text,
                pinyin,
            )[i]).position_length == if pinyin {
                2 * search_segmentation(simplified(text)).len() + text.len()
            } else {
                search_segmentation(simplified(text)).len()
            },
{
    let simple = simplified(text);
    let words = search_segmentation(simple);
    if pinyin && simple.len() == text.len() && spans_fit(words, text.len()) && positions_fit(
        words.len(),
        text.len(),
    ) {
        lemma_char_readings_fit(simple);
        let tokens = chinese_tokens(text, pinyin);
        assert forall|k: int| 0 <= k < tokens.len() implies 1 <= (#[trigger] tokens[k]).position
            <= tokens[k].position_length by {
            if k >= 2 * words.len() {
                let r = char_readings(simple)[k - 2 * words.len()];
                assert(r.index < text.len());
            }
        }
    }
}

/// The token stream of the Chinese text `text`, with phonetic expansion if
/// `pinyin` is set. The tokens are well formed and stand in the slots of
/// the text. A text that is not empty has a token, and with phonetic
/// expansion every reading of every character has a token over that
/// character, unless the positions do not fit in `usize`.
pub fn token_stream(segmenter: &Segmenter, text: &str, pinyin: bool) -> (stream: MetaTokenStream)
    ensures
        stream.tokens() == chinese_tokens(text@, pinyin),
        stream.index() == 0,
        well_formed(stream.tokens(), text@),
        in_slots(stream.tokens()),
        text@.len() > 0 && (!pinyin || positions_fit(
            search_segmentation(simplified(text@)).len(),
            text@.len(),
        )) ==> stream.tokens().len() > 0,
        pinyin && positions_fit(search_segmentation(simplified(text@)).len(), text@.len())
            ==> covers_readings(stream.tokens(), text@),
{
    proof {
        lemma_chinese_tokens_well_formed(text@, pinyin);
        lemma_chinese_tokens_in_slots(text@, pinyin);
    }
    let simple = to_simplified(text);
    let words = segmenter.segment(simple.as_str());
    let chars = chars_of(text);
    if !pinyin {
        return MetaTokenStream::new(word_tokens(text, &words));
    }
    if !check_positions(words.len(), chars.len()) {
        return MetaTokenStream::new(Vec::new());
    }
    let simple_chars = chars_of(simple.as_str());
    let readings = readings_of(&simple_chars);
    let pinyins = pinyins_of(&words);
    proof {
        lemma_char_readings_fit(simple@);
        assert forall|i: int| 0 <= i < readings@.len() implies (#[trigger] readings@[i]).index
            < text@.len() by {
            assert(reading_views(readings@)[i] == readings@[i]@);
        }
        assert forall|i: int, p: Seq<char>|
            0 <= i < text@.len() && #[trigger] pinyin_plain_all(simplified(text@)[i]).contains(
                p,
            ) implies has_reading_token(chinese_tokens(text@, true), text@, i, p) by {
            lemma_readings_have_tokens(text@, i, p);
        }
    }
    MetaTokenStream::new(phonetic_word_tokens(text, &words, &pinyins, &readings))
}

/// Every entry of `items` is among the distinct ones.
pub proof fn lemma_distinct_keeps(items: Seq<Seq<char>>, p: Seq<char>)
    requires
        items.contains(p),
    ensures
        distinct(items).contains(p),
    decreases items.len(),
{
    let front = items.drop_last();
    let j = choose|j: int| 0 <= j < items.len() && items[j] == p;
    if j < front.len() {
        assert(front[j] == p);
        lemma_distinct_keeps(front, p);
        let k = choose|k: int| 0 <= k < distinct(front).len() && distinct(front)[k] == p;
        if !front.contains(items.last()) {
            assert(distinct(items)[k] == p);
        }
    } else if front.contains(items.last()) {
        lemma_distinct_keeps(front, p);
    } else {
        assert(distinct(items)[distinct(front).len() as int] == p);
    }
}

/// Every reading of every character of a text is among the readings of the
/// text, with the index of the character.
pub proof fn lemma_char_readings_cover(text: Seq<char>, i: int, p: Seq<char>)
    requires
        0 <= i < text.len(),
        pinyin_plain_all(text[i]).contains(p),
    ensures
        char_readings(text).contains(ReadingView { index: i as nat, text: p }),
    decreases text.len(),
{
    let front = char_readings(text.drop_last());
    let back = readings_at((text.len() - 1) as nat, text.last());
    let all = char_readings(text);
    let wanted = ReadingView { index: i as nat, text: p };
    if i == text.len() - 1 {
        lemma_distinct_keeps(pinyin_plain_all(text[i]), p);
        let d = distinct(pinyin_plain_all(text[i]));
        let j = choose|j: int| 0 <= j < d.len() && d[j] == p;
        assert(back[j] == wanted);
        assert(all[front.len() + j] == wanted);
    } else {
        assert(text.drop_last()[i] == text[i]);
        lemma_char_readings_cover(text.drop_last(), i, p);
        let r = choose|r: int| 0 <= r < front.len() && front[r] == wanted;
        assert(all[r] == wanted);
    }
}

/// Whether a text has the tokens of its words and readings: its simplified
/// form has as many characters, the words of the segmenter lie inside it,
/// and the positions fit in `usize`.
pub open spec fn has_phonetic_tokens(text: Seq<char>) -> bool {
    let simple = simplified(text);
    let words = search_segmentation(simple);
    &&& simple.len() == text.len()
    &&& spans_fit(words, text.len())
    &&& positions_fit(words.len(), text.len())
}

/// Whether `tokens` hold a token with the text `p` over the character of
/// index `i` of `text`.
pub open spec fn has_reading_token(tokens: Seq<TokenView>, text: Seq<char>, i: int, p: Seq<char>) -> bool {
    exists|k: int|
        0 <= k < tokens.len() && (#[trigger] tokens[k]).text == p && tokens[k].offset_from
            == byte_offset(text, i) && tokens[k].offset_to == byte_offset(text, i + 1)
}

/// Whether every reading of every character of `text`, in its simplified
/// form, has a token of its own over that character.
pub open spec fn covers_readings(tokens: Seq<TokenView>, text: Seq<char>) -> bool {
    forall|i: int, p: Seq<char>|
        0 <= i < text.len() && #[trigger] pinyin_plain_all(simplified(text)[i]).contains(p)
            ==> has_reading_token(tokens, text, i, p)
}

/// With phonetic expansion, every reading of every character of a text
/// that has tokens has a token of its own, over that character.
pub proof fn lemma_readings_have_tokens(text: Seq<char>, i: int, p: Seq<char>)
    requires
        has_phonetic_tokens(text),
        0 <= i < text.len(),
        pinyin_plain_all(simplified(text)[i]).contains(p),
    ensures
        has_reading_token(chinese_tokens(text, true), text, i, p),
{
    let simple = simplified(text);
    let words = search_segmentation(simple);
    let readings = char_readings(simple);
    lemma_char_readings_cover(simple, i, p);
    let wanted = ReadingView { index: i as nat, text: p };
    let r = choose|r: int| 0 <= r < readings.len() && readings[r] == wanted;
    let tokens = chinese_tokens(text, true);
    let k = 2 * words.len() + r;
    assert(tokens[k].text == p);
    assert(tokens[k].offset_from == byte_offset(text, i));
    assert(tokens[k].offset_to == byte_offset(text, i + 1));
}

} // verus!
