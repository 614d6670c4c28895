//! Tokens of a text in Latin script: its runs of letters and digits.

use vstd::prelude::*;
use tantivy::tokenizer::{SimpleTokenizer, TokenStream, Tokenizer};
use crate::tokenizer::{
    check_well_formed, token_views, well_formed, MetaTokenStream, Token, TokenView,
};

verus! {

/// The tokens that the engine's simple tokenizer finds in a text: the runs
/// of alphanumeric characters, in order.
pub uninterp spec fn simple_tokenization(text: Seq<char>) -> Seq<TokenView>;

/// The tokens of `text` by the engine's simple tokenizer.
///
/// Trusted: `tantivy::tokenizer::SimpleTokenizer`, through `token_stream`,
/// `advance` and `token` of a fresh tokenizer. The tokens depend on the text
/// alone and are named `simple_tokenization`; nothing else is claimed of
/// them.
#[verifier::external_body]
pub(crate) fn simple_tokens(text: &str) -> (tokens: Vec<Token>)
    ensures
        token_views(tokens@) == simple_tokenization(text@),
{
    let mut tokenizer = SimpleTokenizer::default();
    let mut stream = tokenizer.token_stream(text);
    let mut tokens = Vec::new();
    while stream.advance() {
        let t = stream.token();
        tokens.push(Token {
            offset_from: t.offset_from,
            offset_to: t.offset_to,
            position: t.position,
            text: t.text.clone(),
            position_length: t.position_length,
        });
    }
    tokens
}

/// Whether the tokens stand at the positions 0, 1, 2 and so on, each in a
/// slot of its own.
pub open spec fn numbered(tokens: Seq<TokenView>) -> bool {
    forall|i: int|
        0 <= i < tokens.len() ==> (#[trigger] tokens[i]).position == i
            && tokens[i].position_length == 1
}

/// Whether `tokens` stand at the positions 0, 1, 2 and so on, each in a
/// slot of its own.
pub fn check_numbered(tokens: &Vec<Token>) -> (ok: bool)
    ensures
        ok == numbered(token_views(tokens@)),
{
    let mut i: usize = 0;
    while i < tokens.len()
        invariant
            i <= tokens.len(),
            forall|k: int|
                0 <= k < i ==> (#[trigger] token_views(tokens@)[k]).position == k && token_views(
                    tokens@,
                )[k].position_length == 1,
        decreases tokens.len() - i,
    {
        assert(token_views(tokens@)[i as int] == tokens@[i as int]@);
        if tokens[i].position != i || tokens[i].position_length != 1 {
            return false;
        }
        i = i + 1;
    }
    true
}

/// The tokens of a Latin text: those of the simple tokenizer, where they are
/// well formed for the text and numbered; none otherwise.
pub open spec fn latin_tokens(text: Seq<char>) -> Seq<TokenView> {
    if well_formed(simple_tokenization(text), text) && numbered(
        simple_tokenization(text),
    ) {
        simple_tokenization(text)
    } else {
        Seq::empty()
    }
}

/// The token stream of the Latin text `text`.
pub fn token_stream(text: &str) -> (stream: MetaTokenStream)
    ensures
        stream.tokens() == latin_tokens(text@),
        stream.index() == 0,
        well_formed(stream.tokens(), text@),
        numbered(stream.tokens()),
{
    let tokens = simple_tokens(text);
    if check_well_formed(&tokens, text) && check_numbered(&tokens) {
        MetaTokenStream::new(tokens)
    } else {
        MetaTokenStream::new(Vec::new())
    }
}

} // verus!
