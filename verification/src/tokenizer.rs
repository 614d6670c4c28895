//! Tokenizer for mixed Chinese and Latin text.
//!
//! A text is split into tokens by script: a text with enough Chinese
//! characters goes through a dictionary segmenter, and may get phonetic
//! tokens laid over its words and characters; any other text is split into
//! runs of letters and digits.

use vstd::prelude::*;
use crate::text::{
    byte_len, byte_offset, char_offsets, chars_of, is_char_boundary, lower_text, lowered_text,
    on_char_boundary, utf8_len,
};
use crate::tokenizer::chinese::{
    chinese_tokens, covers_readings, in_slots, lemma_chinese_tokens_well_formed, positions_fit,
    search_segmentation, simplified, Segmenter,
};
use crate::tokenizer::latin::{latin_tokens, numbered};
use crate::tokenizer::utils::{is_chinese, is_chinese_text};
use vstd::string::StrSliceExecFns;

pub mod chinese;
pub mod latin;
pub mod utils;

verus! {

/// The name under which the tokenizer is registered with an index.
pub const META_TOKENIZER: &'static str = "meta_tokenizer";

/// One token of a text.
#[derive(Debug)]
pub struct Token {
    /// Byte offset of the first character of the token in the text.
    pub offset_from: usize,
    /// Byte offset just behind the last character of the token.
    pub offset_to: usize,
    /// The slot of the token in the position stream. Tokens with the same
    /// position are synonyms.
    pub position: usize,
    /// The text of the token.
    pub text: String,
    /// The number of position slots that the whole text takes.
    pub position_length: usize,
}

/// A token as a mathematical value.
pub ghost struct TokenView {
    pub offset_from: nat,
    pub offset_to: nat,
    pub position: nat,
    pub text: Seq<char>,
    pub position_length: nat,
}

impl View for Token {
    type V = TokenView;

    open spec fn view(&self) -> TokenView {
        TokenView {
            offset_from: self.offset_from as nat,
            offset_to: self.offset_to as nat,
            position: self.position as nat,
            text: self.text@,
            position_length: self.position_length as nat,
        }
    }
}

impl Clone for Token {
    fn clone(&self) -> (copy: Self)
        ensures
            copy@ == self@,
    {
        Token {
            offset_from: self.offset_from,
            offset_to: self.offset_to,
            position: self.position,
            text: self.text.clone(),
            position_length: self.position_length,
        }
    }
}

/// The tokens of a vector as mathematical values.
pub open spec fn token_views(tokens: Seq<Token>) -> Seq<TokenView> {
    tokens.map_values(|t: Token| t@)
}

/// Whether a token spans at least one character of a text: its offsets lie
/// inside the text, on the boundaries of characters, the first before the
/// second.
pub open spec fn spans_text(token: TokenView, text: Seq<char>) -> bool {
    &&& token.offset_from < token.offset_to <= utf8_len(text)
    &&& on_char_boundary(text, token.offset_from)
    &&& on_char_boundary(text, token.offset_to)
}

/// What holds of the tokens of any text: every token spans at least one
/// character of the text, and positions never decrease.
pub open spec fn well_formed(tokens: Seq<TokenView>, text: Seq<char>) -> bool {
    &&& forall|i: int| 0 <= i < tokens.len() ==> spans_text(#[trigger] tokens[i], text)
    &&& forall|i: int, j: int|
        0 <= i <= j < tokens.len() ==> (#[trigger] tokens[i]).position <= (
        #[trigger] tokens[j]).position
}

/// Whether `tokens` are well formed for `text`.
pub fn check_well_formed(tokens: &Vec<Token>, text: &str) -> (ok: bool)
    ensures
        ok == well_formed(token_views(tokens@), text@),
{
    let chars = chars_of(text);
    let len = byte_len(text);
    let offsets = char_offsets(&chars, len);
    let mut i: usize = 0;
    while i < tokens.len()
        invariant
            i <= tokens.len(),
            chars@ == text@,
            len == utf8_len(text@),
            offsets@.len() == chars@.len() + 1,
            forall|k: int| 0 <= k <= chars@.len() ==> offsets@[k] == byte_offset(chars@, k),
            forall|k: int| 0 <= k < i ==> spans_text(#[trigger] token_views(tokens@)[k], text@),
            forall|k: int, l: int|
                0 <= k <= l < i ==> (#[trigger] token_views(tokens@)[k]).position <= (
                #[trigger] token_views(tokens@)[l]).position,
        decreases tokens.len() - i,
    {
        let t = &tokens[i];
        assert(token_views(tokens@)[i as int] == t@);
        if !(t.offset_from < t.offset_to && t.offset_to <= len) {
            return false;
        }
        if !is_char_boundary(&chars, &offsets, t.offset_from) || !is_char_boundary(
            &chars,
            &offsets,
            t.offset_to,
        ) {
            return false;
        }
        if i > 0 {
            assert(token_views(tokens@)[i - 1] == tokens@[i - 1]@);
            if tokens[i - 1].position > t.position {
                return false;
            }
        }
        i = i + 1;
    }
    true
}

/// A finite stream of tokens with a cursor.
pub struct MetaTokenStream {
    tokens: Vec<Token>,
    index: usize,
}

impl MetaTokenStream {
    #[verifier::type_invariant]
    spec fn cursor_in_range(&self) -> bool {
        self.index <= self.tokens@.len()
    }

    /// All tokens of the stream, read or not.
    pub closed spec fn tokens(&self) -> Seq<TokenView> {
        token_views(self.tokens@)
    }

    /// The number of tokens that `advance` has stepped over.
    pub closed spec fn index(&self) -> nat {
        self.index as nat
    }

    /// A stream over `tokens` with the cursor before the first token.
    pub fn new(tokens: Vec<Token>) -> (stream: Self)
        ensures
            stream.tokens() == token_views(tokens@),
            stream.index() == 0,
    {
        MetaTokenStream { tokens, index: 0 }
    }

    /// Steps to the next token. Returns `false`, and changes nothing, when
    /// no token is left.
    pub fn advance(&mut self) -> (more: bool)
        ensures
            more == (old(self).index() < old(self).tokens().len()),
            final(self).tokens() == old(self).tokens(),
            final(self).index() == old(self).index() + if more { 1nat } else { 0nat },
    {
        proof {
            use_type_invariant(&*self);
        }
        if self.index < self.tokens.len() {
            self.index += 1;
            true
        } else {
            false
        }
    }

    /// The token that the last successful `advance` stepped to.
    pub fn token(&self) -> (token: &Token)
        requires
            self.index() > 0,
        ensures
            token@ == self.tokens()[self.index() - 1],
    {
        proof {
            use_type_invariant(self);
        }
        &self.tokens[self.index - 1]
    }

    /// The token that the last successful `advance` stepped to, to be
    /// changed in place.
    pub fn token_mut(&mut self) -> (token: &mut Token)
        requires
            old(self).index() > 0,
        ensures
            token@ == old(self).tokens()[old(self).index() - 1],
            final(self).index() == old(self).index(),
            final(self).tokens() == old(self).tokens().update(
                old(self).index() - 1,
                final(token)@,
            ),
    {
        proof {
            use_type_invariant(&*self);
        }
        let at = self.index - 1;
        let token = &mut self.tokens[at];
        proof {
            assert(token_views(old(self).tokens@.update(at as int, *final(token))) =~= token_views(
                old(self).tokens@,
            ).update(at as int, final(token)@));
        }
        token
    }

    /// The tokens that the cursor has not stepped over yet.
    pub fn into_remaining(self) -> (rest: Vec<Token>)
        ensures
            token_views(rest@) == self.tokens().skip(self.index() as int),
    {
        proof {
            use_type_invariant(&self);
        }
        let mut rest: Vec<Token> = Vec::new();
        let mut i: usize = self.index;
        while i < self.tokens.len()
            invariant
                self.index <= i <= self.tokens@.len(),
                rest@.len() == i - self.index,
                forall|k: int| 0 <= k < rest@.len() ==> rest@[k]@ == self.tokens@[self.index + k]@,
            decreases self.tokens.len() - i,
        {
            rest.push(self.tokens[i].clone());
            i = i + 1;
        }
        assert(token_views(rest@) =~= token_views(self.tokens@).skip(self.index as int));
        rest
    }
}

/// The tokenizer for book metadata: Chinese text goes to the dictionary
/// segmenter, other text to the simple tokenizer.
pub struct MetaTokenizer {
    segmenter: Segmenter,
    pinyin: bool,
}

impl MetaTokenizer {
    /// A tokenizer that lays phonetic tokens over Chinese text if `pinyin`
    /// is set.
    pub fn new(pinyin: bool) -> (tokenizer: Self)
        ensures
            tokenizer.pinyin() == pinyin,
    {
        MetaTokenizer { segmenter: Segmenter::new(), pinyin }
    }

    /// Whether the tokenizer lays phonetic tokens over Chinese text.
    pub closed spec fn pinyin(&self) -> bool {
        self.pinyin
    }

    /// The tokens of a text.
    pub open spec fn tokens_of(&self, text: Seq<char>) -> Seq<TokenView> {
        if text.len() == 0 {
            Seq::empty()
        } else if is_chinese_text(text) {
            chinese_tokens(text, self.pinyin())
        } else {
            latin_tokens(text)
        }
    }

    /// The token stream of `text`, with the cursor before the first token.
    /// The tokens are well formed for the text. Those of a Chinese text
    /// stand in the slots of the text; there is at least one, and with
    /// phonetic expansion every reading of every character has a token
    /// over that character, unless the positions do not fit in `usize`.
    /// Those of any other text are numbered from zero.
    pub fn token_stream(&self, text: &str) -> (stream: MetaTokenStream)
        ensures
            stream.tokens() == self.tokens_of(text@),
            stream.index() == 0,
            well_formed(stream.tokens(), text@),
            is_chinese_text(text@) ==> in_slots(stream.tokens()),
            is_chinese_text(text@) && (!self.pinyin() || positions_fit(
                search_segmentation(simplified(text@)).len(),
                text@.len(),
            )) ==> stream.tokens().len() > 0,
            is_chinese_text(text@) && self.pinyin() && positions_fit(
                search_segmentation(simplified(text@)).len(),
                text@.len(),
            ) ==> covers_readings(stream.tokens(), text@),
            !is_chinese_text(text@) ==> numbered(stream.tokens()),
    {
        if text.is_empty() {
            return MetaTokenStream::new(Vec::new());
        }
        if is_chinese(text) {
            return chinese::token_stream(&self.segmenter, text, self.pinyin);
        }
        latin::token_stream(text)
    }
}

/// The tokens of every text are well formed: each spans at least one
/// character of the text, and their positions never decrease.
pub proof fn lemma_tokens_well_formed(tokenizer: MetaTokenizer, text: Seq<char>)
    ensures
        well_formed(tokenizer.tokens_of(text), text),
{
    lemma_chinese_tokens_well_formed(text, tokenizer.pinyin());
}

/// The largest number of characters of a token that is kept.
pub const TOKEN_LENGTH_LIMIT: usize = 20;

/// Whether the filters keep a token with the text `text`: it is not longer
/// than the limit and is no stop word.
pub open spec fn is_kept(text: Seq<char>, stop_words: Seq<Seq<char>>) -> bool {
    text.len() <= TOKEN_LENGTH_LIMIT && !stop_words.contains(text)
}

/// A token with each character of its text in lower case.
pub open spec fn lowered(token: TokenView) -> TokenView {
    TokenView { text: lowered_text(token.text), ..token }
}

/// The tokens that the filters keep, in their order and in lower case.
pub open spec fn filtered(tokens: Seq<TokenView>, stop_words: Seq<Seq<char>>) -> Seq<TokenView>
    decreases tokens.len(),
{
    if tokens.len() == 0 {
        Seq::empty()
    } else if is_kept(tokens.last().text, stop_words) {
        filtered(tokens.drop_last(), stop_words).push(lowered(tokens.last()))
    } else {
        filtered(tokens.drop_last(), stop_words)
    }
}

/// Every filtered token is one of the tokens, in lower case.
pub proof fn lemma_filtered_from(tokens: Seq<TokenView>, stop_words: Seq<Seq<char>>, k: int)
    requires
        0 <= k < filtered(tokens, stop_words).len(),
    ensures
        exists|j: int| 0 <= j < tokens.len() && filtered(tokens, stop_words)[k] == lowered(tokens[j]),
    decreases tokens.len(),
{
    let front = filtered(tokens.drop_last(), stop_words);
    if k < front.len() {
        lemma_filtered_from(tokens.drop_last(), stop_words, k);
        let j = choose|j: int| 0 <= j < tokens.drop_last().len() && front[k] == lowered(tokens.drop_last()[j]);
        assert(filtered(tokens, stop_words)[k] == lowered(tokens[j]));
    } else {
        assert(filtered(tokens, stop_words)[k] == lowered(tokens[tokens.len() - 1]));
    }
}

/// Filtering keeps tokens well formed.
pub proof fn lemma_filtered_well_formed(
    tokens: Seq<TokenView>,
    stop_words: Seq<Seq<char>>,
    text: Seq<char>,
)
    requires
        well_formed(tokens, text),
    ensures
        well_formed(filtered(tokens, stop_words), text),
    decreases tokens.len(),
{
    if tokens.len() > 0 {
        let rest = tokens.drop_last();
        assert forall|i: int| 0 <= i < rest.len() implies spans_text(#[trigger] rest[i], text) by {
            assert(rest[i] == tokens[i]);
        }
        assert forall|i: int, j: int| 0 <= i <= j < rest.len() implies (#[trigger] rest[i]).position
            <= (#[trigger] rest[j]).position by {
            assert(rest[i] == tokens[i]);
            assert(rest[j] == tokens[j]);
        }
        lemma_filtered_well_formed(rest, stop_words, text);
        let front = filtered(rest, stop_words);
        let all = filtered(tokens, stop_words);
        if is_kept(tokens.last().text, stop_words) {
            assert forall|i: int, j: int| 0 <= i <= j < all.len() implies (#[trigger] all[i]).position
                <= (#[trigger] all[j]).position by {
                if j < front.len() {
                    assert(all[i] == front[i]);
                    assert(all[j] == front[j]);
                } else if i < front.len() {
                    lemma_filtered_from(rest, stop_words, i);
                    let o = choose|o: int| 0 <= o < rest.len() && front[i] == lowered(rest[o]);
                    assert(rest[o] == tokens[o]);
                    assert(all[i] == front[i]);
                    assert(tokens[o].position <= tokens[tokens.len() - 1].position);
                }
            }
            assert forall|i: int| 0 <= i < all.len() implies spans_text(#[trigger] all[i], text) by {
                if i < front.len() {
                    assert(all[i] == front[i]);
                } else {
                    assert(spans_text(tokens[tokens.len() - 1], text));
                }
            }
        }
    }
}

/// Whether `word` is one of `stop_words`.
pub fn is_stop_word(word: &String, stop_words: &Vec<String>) -> (found: bool)
    ensures
        found == stop_words@.map_values(|s: String| s@).contains(word@),
{
    let mut i: usize = 0;
    while i < stop_words.len()
        invariant
            i <= stop_words.len(),
            forall|k: int| 0 <= k < i ==> stop_words@[k]@ != word@,
        decreases stop_words.len() - i,
    {
        if stop_words[i] == *word {
            assert(stop_words@.map_values(|s: String| s@)[i as int] == word@);
            return true;
        }
        i = i + 1;
    }
    false
}

/// The tokenizer with its filters: tokens longer than the limit and stop
/// words are dropped, and what is left is put in lower case.
pub struct TextAnalyzer {
    tokenizer: MetaTokenizer,
    stop_words: Vec<String>,
}

impl TextAnalyzer {
    /// An analyzer over `tokenizer` that drops the words `stop_words`.
    pub fn new(tokenizer: MetaTokenizer, stop_words: Vec<String>) -> (analyzer: Self)
        ensures
            analyzer.tokenizer() == tokenizer,
            analyzer.stop_words() == stop_words@.map_values(|s: String| s@),
    {
        TextAnalyzer { tokenizer, stop_words }
    }

    /// The tokenizer of the analyzer.
    pub closed spec fn tokenizer(&self) -> MetaTokenizer {
        self.tokenizer
    }

    /// The stop words of the analyzer.
    pub closed spec fn stop_words(&self) -> Seq<Seq<char>> {
        self.stop_words@.map_values(|s: String| s@)
    }

    /// The tokens of a text behind the filters.
    pub open spec fn tokens_of(&self, text: Seq<char>) -> Seq<TokenView> {
        filtered(self.tokenizer().tokens_of(text), self.stop_words())
    }

    /// The filtered token stream of `text`, with the cursor before the first
    /// token. The tokens are well formed for the text.
    pub fn token_stream(&self, text: &str) -> (stream: MetaTokenStream)
        ensures
            stream.tokens() == self.tokens_of(text@),
            stream.index() == 0,
            well_formed(stream.tokens(), text@),
    {
        let raw = self.tokenizer.token_stream(text).into_remaining();
        let ghost source = token_views(raw@);
        let ghost stops = self.stop_words();
        proof {
            assert(source =~= self.tokenizer.tokens_of(text@));
            lemma_filtered_well_formed(source, stops, text@);
        }
        let mut kept: Vec<Token> = Vec::new();
        let mut i: usize = 0;
        assert(source.take(0) =~= Seq::<TokenView>::empty());
        assert(token_views(kept@) =~= Seq::<TokenView>::empty());
        while i < raw.len()
            invariant
                i <= raw.len(),
                source == token_views(raw@),
                stops == self.stop_words(),
                token_views(kept@) == filtered(source.take(i as int), stops),
            decreases raw.len() - i,
        {
            let t = &raw[i];
            let ghost before = token_views(kept@);
            assert(source.take(i + 1).drop_last() =~= source.take(i as int));
            assert(source.take(i + 1).last() == t@);
            if t.text.as_str().unicode_len() <= TOKEN_LENGTH_LIMIT && !is_stop_word(
                &t.text,
                &self.stop_words,
            ) {
                kept.push(
                    Token {
                        offset_from: t.offset_from,
                        offset_to: t.offset_to,
                        position: t.position,
                        text: lower_text(t.text.as_str()),
                        position_length: t.position_length,
                    },
                );
                assert(token_views(kept@) =~= before.push(lowered(t@)));
            }
            i = i + 1;
        }
        assert(source.take(i as int) =~= source);
        MetaTokenStream::new(kept)
    }
}

/// The filtered tokens of every text are well formed.
pub proof fn lemma_analyzed_tokens_well_formed(analyzer: TextAnalyzer, text: Seq<char>)
    ensures
        well_formed(analyzer.tokens_of(text), text),
{
    lemma_tokens_well_formed(analyzer.tokenizer(), text);
    lemma_filtered_well_formed(analyzer.tokenizer().tokens_of(text), analyzer.stop_words(), text);
}

/// The analyzer that is registered with an index for the text fields.
pub fn get_tokenizer(pinyin: bool, stop_words: Vec<String>) -> (analyzer: TextAnalyzer)
    ensures
        analyzer.tokenizer().pinyin() == pinyin,
        analyzer.stop_words() == stop_words@.map_values(|s: String| s@),
{
    TextAnalyzer::new(MetaTokenizer::new(pinyin), stop_words)
}

} // verus!
