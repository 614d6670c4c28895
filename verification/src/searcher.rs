//! The searcher: the settings of an index and the analyzer of its text
//! fields.

use vstd::prelude::*;
use crate::text::{starts_with_seq, str_eq, str_starts_with};
use crate::tokenizer::{get_tokenizer, TextAnalyzer};

verus! {

/// How the document store of an index is compressed.
#[derive(Clone, Copy, Debug, PartialEq, Eq, Structural)]
pub enum Compressor {
    /// No compression.
    Uncompressed,
    Lz4,
    Brotli,
    Snappy,
    Zstd,
}

/// The compressor that a name stands for: `none`, `lz4`, `brotli`,
/// `snappy`, or any name that begins with `zstd`.
pub open spec fn compressor_named(name: Seq<char>) -> Option<Compressor> {
    if name == "none"@ {
        Some(Compressor::Uncompressed)
    } else if name == "lz4"@ {
        Some(Compressor::Lz4)
    } else if name == "brotli"@ {
        Some(Compressor::Brotli)
    } else if name == "snappy"@ {
        Some(Compressor::Snappy)
    } else if starts_with_seq(name, "zstd"@) {
        Some(Compressor::Zstd)
    } else {
        None
    }
}

/// The compressor that `name` stands for, if it stands for one.
pub fn compressor_of(name: &str) -> (compressor: Option<Compressor>)
    ensures
        compressor == compressor_named(name@),
{
    if str_eq(name, "none") {
        Some(Compressor::Uncompressed)
    } else if str_eq(name, "lz4") {
        Some(Compressor::Lz4)
    } else if str_eq(name, "brotli") {
        Some(Compressor::Brotli)
    } else if str_eq(name, "snappy") {
        Some(Compressor::Snappy)
    } else if str_starts_with(name, "zstd") {
        Some(Compressor::Zstd)
    } else {
        None
    }
}

/// Why an index could not be opened.
#[derive(Clone, Copy, Debug, PartialEq, Eq, Structural)]
pub enum OpenFailure {
    /// The directory could not be opened.
    Directory,
    /// A file of the index could not be read.
    Read,
    /// Anything else.
    Other,
}

/// What to do when an index could not be opened.
#[derive(Clone, Copy, Debug, PartialEq, Eq, Structural)]
pub enum OpenRecovery {
    /// Make the directory and a new index in it.
    Create,
    /// Give up.
    Abort,
}

/// What to do after `failure`: an index that is not there is created, any
/// other failure ends the run.
pub fn recover_open(failure: OpenFailure) -> (recovery: OpenRecovery)
    ensures
        recovery == match failure {
            OpenFailure::Directory | OpenFailure::Read => OpenRecovery::Create,
            OpenFailure::Other => OpenRecovery::Abort,
        },
{
    match failure {
        OpenFailure::Directory | OpenFailure::Read => OpenRecovery::Create,
        OpenFailure::Other => OpenRecovery::Abort,
    }
}

/// The settings of an index and the analyzer of its text fields.
pub struct Searcher {
    pub compressor: Compressor,
    pub tokenizer: TextAnalyzer,
}

impl Searcher {
    /// A searcher with the Brotli compressor, and with the analyzer that
    /// lays phonetic tokens over Chinese text if `pinyin` is set and drops
    /// the words `stop_words`.
    pub fn new(pinyin: bool, stop_words: Vec<String>) -> (searcher: Self)
        ensures
            searcher.compressor == Compressor::Brotli,
            searcher.tokenizer.tokenizer().pinyin() == pinyin,
            searcher.tokenizer.stop_words() == stop_words@.map_values(|s: String| s@),
    {
        Searcher { compressor: Compressor::Brotli, tokenizer: get_tokenizer(pinyin, stop_words) }
    }

    /// Sets the compressor to the one that `compressor` names. Returns
    /// `false`, and changes nothing, where it names none.
    pub fn set_compressor(&mut self, compressor: &str) -> (known: bool)
        ensures
            known == compressor_named(compressor@) is Some,
            known ==> final(self).compressor == compressor_named(compressor@)->0,
            !known ==> final(self).compressor == old(self).compressor,
            final(self).tokenizer == old(self).tokenizer,
    {
        match compressor_of(compressor) {
            Some(c) => {
                self.compressor = c;
                true
            },
            None => false,
        }
    }
}

/// What is asked for when an index is made from source files.
#[derive(Debug)]
pub struct CreateIndexConfig {
    pub raw_files: Vec<String>,
    pub compressor: String,
}

/// Why an index cannot be made as asked.
#[derive(Clone, Copy, Debug, PartialEq, Eq, Structural)]
pub enum CreateIndexError {
    /// The name of the compressor is not known.
    UnknownCompressor,
    /// No source file is given.
    MissingFile,
}

impl CreateIndexError {
    /// The message for the user.
    pub fn message(&self) -> (message: &'static str)
        ensures
            message@ == match *self {
                CreateIndexError::UnknownCompressor => "compressor not valid"@,
                CreateIndexError::MissingFile => "csv file is missing!"@,
            },
    {
        match self {
            CreateIndexError::UnknownCompressor => "compressor not valid",
            CreateIndexError::MissingFile => "csv file is missing!",
        }
    }
}

/// The name of the compressor that a request asks for: `none` where it
/// names nothing.
pub open spec fn requested_compressor(name: Seq<char>) -> Seq<char> {
    if name.len() == 0 {
        "none"@
    } else {
        name
    }
}

impl CreateIndexConfig {
    /// Takes the compressor of the request into `searcher` and says whether
    /// the files of the request can be indexed. An unknown compressor is
    /// refused before anything changes; a request without files is refused
    /// after the compressor was set.
    pub fn apply(&self, searcher: &mut Searcher) -> (outcome: Result<(), CreateIndexError>)
        ensures
            final(searcher).tokenizer == old(searcher).tokenizer,
            match compressor_named(requested_compressor(self.compressor@)) {
                None => outcome == Err::<(), CreateIndexError>(
                    CreateIndexError::UnknownCompressor,
                ) && final(searcher).compressor == old(searcher).compressor,
                Some(c) => final(searcher).compressor == c && if self.raw_files@.len() == 0 {
                    outcome == Err::<(), CreateIndexError>(CreateIndexError::MissingFile)
                } else {
                    outcome == Ok::<(), CreateIndexError>(())
                },
            },
    {
        let known = if self.compressor.as_str().is_empty() {
            searcher.set_compressor("none")
        } else {
            searcher.set_compressor(self.compressor.as_str())
        };
        if !known {
            return Err(CreateIndexError::UnknownCompressor);
        }
        if self.raw_files.len() == 0 {
            return Err(CreateIndexError::MissingFile);
        }
        Ok(())
    }
}

} // verus!
