//! Full-text search core for a catalogue of book metadata records.
//!
//! The crate holds the parts of the search service that decide something:
//! the multi-script tokenizer, the relevance boost of a record, the merge
//! policy, the plan of an ingestion run and the construction of queries.
//! Every executable function carries a contract that Verus proves.

pub mod always_merge_policy;
pub mod book;
pub mod index;
pub mod schema;
pub mod search;
pub mod searcher;
pub mod text;
pub mod tokenizer;
pub mod tools;
