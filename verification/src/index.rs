//! What an ingestion run decides: which records are indexed, with which
//! relevance boost, and how much memory the writer may take.

use vstd::prelude::*;
use crate::book::{
    first_value, record_of, stored_book, stored_views, Book, BookView, StoredField, StoredValue,
    StoredValueView, RECORD_FIELDS,
};
use crate::schema::Field;
use crate::text::{
    ascii_lowercase, contains_seq, str_contains, str_contains_char, str_eq, to_ascii_lowercase,
    trim, trimmed,
};

verus! {

/// What the relevance boost of a record depends on.
#[derive(Clone, Copy, Debug, PartialEq, Eq, Structural)]
pub struct BoostSignals {
    /// The author is not empty.
    pub has_author: bool,
    /// The author holds the watermark of a spam imprint.
    pub author_is_spam: bool,
    /// The publisher is not empty.
    pub has_publisher: bool,
    /// The publisher names a formal publishing house.
    pub publisher_is_formal: bool,
    /// The publisher holds an underscore.
    pub publisher_has_underscore: bool,
    /// The publisher holds the mark of a scan or low-quality imprint.
    pub publisher_is_low_quality: bool,
    /// The language is given and is not the word "other", in capital or
    /// small letters, with or without white space around it.
    pub has_language: bool,
    /// The year is positive.
    pub has_year: bool,
    /// The number of pages is positive.
    pub has_pages: bool,
    /// The cover URL is not empty.
    pub has_cover: bool,
}

/// The boost after the author rule: ten for an author, none for a
/// watermark.
pub open spec fn author_boost(s: BoostSignals) -> nat {
    if s.has_author && !s.author_is_spam {
        10
    } else {
        0
    }
}

/// The boost after the publisher rule, from the boost `before` it: five
/// for a publisher; thirty more for a formal publishing house, less ten if
/// its name holds an underscore; else ten less for a low-quality imprint,
/// never going below zero.
pub open spec fn publisher_boost(before: nat, s: BoostSignals) -> nat {
    if !s.has_publisher {
        before
    } else if s.publisher_is_formal {
        if s.publisher_has_underscore {
            before + 25
        } else {
            before + 35
        }
    } else if s.publisher_is_low_quality {
        if before >= 5 {
            (before - 5) as nat
        } else {
            0
        }
    } else {
        before + 5
    }
}

/// The relevance boost of a record with the signals `s`.
pub open spec fn boost(s: BoostSignals) -> nat {
    publisher_boost(author_boost(s), s) + if s.has_language {
        10nat
    } else {
        0nat
    } + if s.has_year {
        5nat
    } else {
        0nat
    } + if s.has_pages {
        15nat
    } else {
        0nat
    } + if s.has_cover {
        30nat
    } else {
        0nat
    }
}

/// The relevance boost of a record with the signals `signals`.
pub fn score_boost(signals: BoostSignals) -> (score: u64)
    ensures
        score == boost(signals),
{
    let mut score: u64 = 0;
    if signals.has_author {
        score = score + 10;
        if signals.author_is_spam {
            score = score - 10;
        }
    }
    if signals.has_publisher {
        score = score + 5;
        if signals.publisher_is_formal {
            score = score + 30;
            if signals.publisher_has_underscore {
                score = score - 10;
            }
        } else if signals.publisher_is_low_quality {
            score = if score >= 10 {
                score - 10
            } else {
                0
            };
        }
    }
    if signals.has_language {
        score = score + 10;
    }
    if signals.has_year {
        score = score + 5;
    }
    if signals.has_pages {
        score = score + 15;
    }
    if signals.has_cover {
        score = score + 30;
    }
    score
}

/// What a record with a cover and a formal publisher gains from its other
/// fields, less the underscore penalty.
pub open spec fn other_credit(s: BoostSignals) -> int {
    author_boost(s) + if s.has_language {
        10int
    } else {
        0int
    } + if s.has_year {
        5int
    } else {
        0int
    } + if s.has_pages {
        15int
    } else {
        0int
    } - if s.publisher_has_underscore {
        10int
    } else {
        0int
    }
}

/// Whether a record is so complete that its boost reaches ninety: it has a
/// cover and a formal publisher, and at least twenty-five from the rest.
pub open spec fn is_richly_described(s: BoostSignals) -> bool {
    s.has_cover && s.has_publisher && s.publisher_is_formal && other_credit(s) >= 25
}

/// The boost never exceeds 105, and reaches ninety for the richly described
/// records only.
pub proof fn lemma_boost_bounds(s: BoostSignals)
    ensures
        boost(s) <= 105,
        boost(s) >= 90 <==> is_richly_described(s),
{
}

/// The boost of every record that is not richly described is below ninety.
pub proof fn lemma_boost_below_ninety(s: BoostSignals)
    requires
        !is_richly_described(s),
    ensures
        boost(s) < 90,
{
}

/// The signals of a record.
pub open spec fn signals_of(book: BookView) -> BoostSignals {
    BoostSignals {
        has_author: book.author.len() > 0,
        author_is_spam: contains_seq(book.author, "ePUBw"@) || contains_seq(
            book.author,
            "chenjin5"@,
        ),
        has_publisher: book.publisher.len() > 0,
        publisher_is_formal: contains_seq(book.publisher, "出版"@),
        publisher_has_underscore: book.publisher.contains('_'),
        publisher_is_low_quality: contains_seq(book.publisher, "cj5"@) || contains_seq(
            book.publisher,
            "chenjin5"@,
        ) || contains_seq(book.publisher, "epub"@) || contains_seq(book.publisher, "电子书"@)
            || contains_seq(book.publisher, "微信"@),
        has_language: book.language.len() > 0 && trimmed(ascii_lowercase(book.language))
            != "other"@,
        has_year: book.year > 0,
        has_pages: book.pages > 0,
        has_cover: book.cover_url.len() > 0,
    }
}

/// The relevance boost of a record.
pub open spec fn boost_of(book: BookView) -> nat {
    boost(signals_of(book))
}

/// The signals of `book`.
pub fn book_signals(book: &Book) -> (signals: BoostSignals)
    ensures
        signals == signals_of(book@),
{
    let author = book.author.as_str();
    let publisher = book.publisher.as_str();
    let language = book.language.as_str();
    let lower = to_ascii_lowercase(language);
    BoostSignals {
        has_author: !author.is_empty(),
        author_is_spam: str_contains(author, "ePUBw") || str_contains(author, "chenjin5"),
        has_publisher: !publisher.is_empty(),
        publisher_is_formal: str_contains(publisher, "出版"),
        publisher_has_underscore: str_contains_char(publisher, '_'),
        publisher_is_low_quality: str_contains(publisher, "cj5") || str_contains(
            publisher,
            "chenjin5",
        ) || str_contains(publisher, "epub") || str_contains(publisher, "电子书") || str_contains(
            publisher,
            "微信",
        ),
        has_language: !language.is_empty() && !str_eq(trim(lower.as_str()), "other"),
        has_year: book.year > 0,
        has_pages: book.pages > 0,
        has_cover: !book.cover_url.as_str().is_empty(),
    }
}

/// The relevance boost of `book`. It depends on the record alone and is at
/// most 105.
pub fn get_book_score_boost(book: &Book) -> (score: u64)
    ensures
        score == boost_of(book@),
        score <= 105,
{
    proof {
        lemma_boost_bounds(signals_of(book@));
    }
    score_boost(book_signals(book))
}

/// Records that are equal have equal boosts.
pub proof fn lemma_boost_deterministic(a: BookView, b: BookView)
    requires
        a == b,
    ensures
        boost_of(a) == boost_of(b),
{
}

/// The text that a corrupted encoding leaves in a title or an author.
pub open spec fn corrupted_mark() -> Seq<char> {
    "b~c@x！%b……x￥b"@
}

/// Whether a record is left out of the index: it has no content identifier,
/// or its title or author holds the mark of a corrupted encoding.
pub open spec fn is_skipped(book: BookView) -> bool {
    book.ipfs_cid.len() == 0 || contains_seq(book.title, corrupted_mark()) || contains_seq(
        book.author,
        corrupted_mark(),
    )
}

/// Whether `book` is left out of the index.
pub fn skip_this_book(book: &Book) -> (skip: bool)
    ensures
        skip == is_skipped(book@),
        book@.ipfs_cid.len() == 0 ==> skip,
{
    book.ipfs_cid.as_str().is_empty() || str_contains(book.title.as_str(), "b~c@x！%b……x￥b")
        || str_contains(book.author.as_str(), "b~c@x！%b……x￥b")
}

/// A record as it is handed to the index writer: with its boost.
#[derive(Debug)]
pub struct IndexedBook {
    pub book: Book,
    pub score_boost: u64,
}

/// The document of a record with the boost `score_boost`: one value for
/// each field of the index, in the order of the fields.
pub open spec fn document_of(book: BookView, score_boost: u64) -> Seq<(Field, StoredValueView)> {
    seq![
        (Field::Id, StoredValueView::U64(book.id)),
        (Field::Title, StoredValueView::Text(book.title)),
        (Field::Author, StoredValueView::Text(book.author)),
        (Field::Publisher, StoredValueView::Text(book.publisher)),
        (Field::Extension, StoredValueView::Text(book.extension)),
        (Field::Filesize, StoredValueView::U64(book.filesize)),
        (Field::Language, StoredValueView::Text(book.language)),
        (Field::Year, StoredValueView::U64(book.year)),
        (Field::Pages, StoredValueView::U64(book.pages)),
        (Field::Isbn, StoredValueView::Text(book.isbn)),
        (Field::Md5, StoredValueView::Text(book.md5)),
        (Field::IpfsCid, StoredValueView::Text(book.ipfs_cid)),
        (Field::CoverUrl, StoredValueView::Text(book.cover_url)),
        (Field::ScoreBoost, StoredValueView::U64(score_boost)),
    ]
}

/// The record that is read back from the document of a record is that
/// record, whatever the boost.
pub proof fn lemma_document_holds_the_book(book: BookView, score_boost: u64)
    ensures
        stored_book(document_of(book, score_boost)) == book,
{
    reveal_with_fuel(first_value, 16);
}

fn text_field(field: Field, text: &String) -> (stored: StoredField)
    ensures
        stored.field == field,
        stored.value@ == StoredValueView::Text(text@),
{
    StoredField { field, value: StoredValue::Text(text.clone()) }
}

impl IndexedBook {
    /// The document that is handed to the index writer for this record.
    pub fn document(&self) -> (document: Vec<StoredField>)
        ensures
            stored_views(document@) == document_of(self.book@, self.score_boost),
    {
        let book = &self.book;
        let mut document: Vec<StoredField> = Vec::new();
        document.push(StoredField { field: Field::Id, value: StoredValue::U64(book.id) });
        document.push(text_field(Field::Title, &book.title));
        document.push(text_field(Field::Author, &book.author));
        document.push(text_field(Field::Publisher, &book.publisher));
        document.push(text_field(Field::Extension, &book.extension));
        document.push(StoredField { field: Field::Filesize, value: StoredValue::U64(book.filesize) });
        document.push(text_field(Field::Language, &book.language));
        document.push(StoredField { field: Field::Year, value: StoredValue::U64(book.year) });
        document.push(StoredField { field: Field::Pages, value: StoredValue::U64(book.pages) });
        document.push(text_field(Field::Isbn, &book.isbn));
        document.push(text_field(Field::Md5, &book.md5));
        document.push(text_field(Field::IpfsCid, &book.ipfs_cid));
        document.push(text_field(Field::CoverUrl, &book.cover_url));
        document.push(
            StoredField { field: Field::ScoreBoost, value: StoredValue::U64(self.score_boost) },
        );
        assert(stored_views(document@) =~= document_of(self.book@, self.score_boost));
        document
    }
}

/// What is indexed for a record: nothing if it is skipped, else the record
/// with its boost.
pub open spec fn indexed_of(book: BookView) -> Option<(BookView, nat)> {
    if is_skipped(book) {
        None
    } else {
        Some((book, boost_of(book)))
    }
}

/// What is indexed for `book`. A record without a content identifier is
/// never indexed.
pub fn prepare_document(book: Book) -> (document: Option<IndexedBook>)
    ensures
        match document {
            Some(d) => indexed_of(book@) == Some((d.book@, d.score_boost as nat)) && d.book == book,
            None => indexed_of(book@) is None,
        },
        book@.ipfs_cid.len() == 0 ==> document is None,
{
    if skip_this_book(&book) {
        return None;
    }
    let score_boost = get_book_score_boost(&book);
    Some(IndexedBook { book, score_boost })
}

/// What is indexed for a run of records: for each record that is not
/// skipped, in order, the record with its boost.
pub open spec fn indexed(books: Seq<BookView>) -> Seq<(BookView, nat)>
    decreases books.len(),
{
    if books.len() == 0 {
        Seq::empty()
    } else {
        match indexed_of(books.last()) {
            Some(d) => indexed(books.drop_last()).push(d),
            None => indexed(books.drop_last()),
        }
    }
}

/// The records of a vector as mathematical values.
pub open spec fn book_views(books: Seq<Book>) -> Seq<BookView> {
    books.map_values(|b: Book| b@)
}

/// The documents of a vector as mathematical values: each record with its
/// boost.
pub open spec fn indexed_views(documents: Seq<IndexedBook>) -> Seq<(BookView, nat)> {
    documents.map_values(|d: IndexedBook| (d.book@, d.score_boost as nat))
}

/// No record without a content identifier is indexed, whatever else the
/// records of the run hold.
pub proof fn lemma_indexed_have_content(books: Seq<BookView>, k: int)
    requires
        0 <= k < indexed(books).len(),
    ensures
        indexed(books)[k].0.ipfs_cid.len() > 0,
        !is_skipped(indexed(books)[k].0),
        books.contains(indexed(books)[k].0),
    decreases books.len(),
{
    let front = indexed(books.drop_last());
    if k < front.len() {
        lemma_indexed_have_content(books.drop_last(), k);
        let b = front[k].0;
        let j = choose|j: int| 0 <= j < books.drop_last().len() && books.drop_last()[j] == b;
        assert(books[j] == b);
    } else {
        assert(books[books.len() - 1] == books.last());
    }
}

/// The documents of a run over `books`.
pub fn prepare_documents(books: Vec<Book>) -> (documents: Vec<IndexedBook>)
    ensures
        indexed_views(documents@) == indexed(book_views(books@)),
        forall|k: int|
            0 <= k < documents@.len() ==> (#[trigger] documents@[k]).book@.ipfs_cid.len() > 0,
{
    let mut documents: Vec<IndexedBook> = Vec::new();
    let ghost all = book_views(books@);
    let mut i: usize = 0;
    assert(all.take(0) =~= Seq::<BookView>::empty());
    assert(indexed_views(documents@) =~= Seq::<(BookView, nat)>::empty());
    while i < books.len()
        invariant
            i <= books.len(),
            all == book_views(books@),
            indexed_views(documents@) == indexed(all.take(i as int)),
            forall|k: int|
                0 <= k < documents@.len() ==> (#[trigger] documents@[k]).book@.ipfs_cid.len() > 0,
        decreases books.len() - i,
    {
        let ghost before = indexed_views(documents@);
        assert(all.take(i + 1).drop_last() =~= all.take(i as int));
        assert(all.take(i + 1).last() == books@[i as int]@);
        match prepare_document(books[i].clone()) {
            Some(d) => {
                documents.push(d);
                assert(indexed_views(documents@) =~= before.push((d.book@, d.score_boost as nat)));
            },
            None => {},
        }
        i = i + 1;
    }
    assert(all.take(i as int) =~= all);
    documents
}

/// What becomes of one row of a source file.
#[derive(Debug)]
pub enum RowOutcome {
    /// The row has not as many fields as a record: it is reported and left
    /// out.
    Malformed,
    /// The record of the row is skipped: it is left out in silence.
    Skipped,
    /// The record of the row is indexed, with its boost.
    Document(IndexedBook),
}

/// The outcome of a row as a mathematical value.
pub ghost enum RowOutcomeView {
    Malformed,
    Skipped,
    Document { book: BookView, score_boost: nat },
}

impl View for RowOutcome {
    type V = RowOutcomeView;

    open spec fn view(&self) -> RowOutcomeView {
        match *self {
            RowOutcome::Malformed => RowOutcomeView::Malformed,
            RowOutcome::Skipped => RowOutcomeView::Skipped,
            RowOutcome::Document(d) => RowOutcomeView::Document {
                book: d.book@,
                score_boost: d.score_boost as nat,
            },
        }
    }
}

/// What becomes of a row: it is malformed exactly where it has not as many
/// fields as a record; else its record is skipped or indexed.
pub open spec fn row_outcome(row: Seq<Seq<char>>) -> RowOutcomeView {
    match record_of(row) {
        None => RowOutcomeView::Malformed,
        Some(book) => match indexed_of(book) {
            None => RowOutcomeView::Skipped,
            Some(d) => RowOutcomeView::Document { book: d.0, score_boost: d.1 },
        },
    }
}

/// The texts of a row.
pub open spec fn row_view(row: Vec<String>) -> Seq<Seq<char>> {
    row@.map_values(|s: String| s@)
}

/// What becomes of the row `row`.
pub fn prepare_row(row: &Vec<String>) -> (outcome: RowOutcome)
    ensures
        outcome@ == row_outcome(row_view(*row)),
        outcome is Malformed <==> row@.len() != RECORD_FIELDS,
{
    match Book::from_record(row) {
        None => RowOutcome::Malformed,
        Some(book) => match prepare_document(book) {
            None => RowOutcome::Skipped,
            Some(document) => RowOutcome::Document(document),
        },
    }
}

/// What is indexed for the rows of a source file: for each row that is
/// neither malformed nor skipped, in order, its record with its boost.
pub open spec fn indexed_rows(rows: Seq<Seq<Seq<char>>>) -> Seq<(BookView, nat)>
    decreases rows.len(),
{
    if rows.len() == 0 {
        Seq::empty()
    } else {
        match row_outcome(rows.last()) {
            RowOutcomeView::Document { book, score_boost } => indexed_rows(rows.drop_last()).push(
                (book, score_boost),
            ),
            _ => indexed_rows(rows.drop_last()),
        }
    }
}

/// The documents of a run over the rows `rows`. A malformed row or a
/// skipped record leaves the other rows as they are.
pub fn prepare_rows(rows: &Vec<Vec<String>>) -> (documents: Vec<IndexedBook>)
    ensures
        indexed_views(documents@) == indexed_rows(rows@.map_values(|r: Vec<String>| row_view(r))),
{
    let mut documents: Vec<IndexedBook> = Vec::new();
    let ghost all = rows@.map_values(|r: Vec<String>| row_view(r));
    let mut i: usize = 0;
    assert(all.take(0) =~= Seq::<Seq<Seq<char>>>::empty());
    assert(indexed_views(documents@) =~= Seq::<(BookView, nat)>::empty());
    while i < rows.len()
        invariant
            i <= rows.len(),
            all == rows@.map_values(|r: Vec<String>| row_view(r)),
            indexed_views(documents@) == indexed_rows(all.take(i as int)),
        decreases rows.len() - i,
    {
        let ghost before = indexed_views(documents@);
        assert(all.take(i + 1).drop_last() =~= all.take(i as int));
        assert(all.take(i + 1).last() == row_view(rows@[i as int]));
        match prepare_row(&rows[i]) {
            RowOutcome::Document(d) => {
                documents.push(d);
                assert(indexed_views(documents@) =~= before.push((d.book@, d.score_boost as nat)));
            },
            _ => {},
        }
        i = i + 1;
    }
    assert(all.take(i as int) =~= all);
    documents
}

/// One gibibyte.
pub const GIB: u64 = 1073741824;

/// The memory that is held back from the writer on a small machine.
pub const HEADROOM: u64 = 104857600;

/// The most memory that one indexing thread may take.
pub const THREAD_CEILING: u64 = 4293967294;

/// The most indexing threads.
pub const MAX_THREADS: u64 = 8;

/// The number of indexing threads on a machine with `cores` cores.
pub open spec fn indexing_threads(cores: nat) -> nat {
    if cores < MAX_THREADS {
        cores
    } else {
        MAX_THREADS as nat
    }
}

/// The memory for the writer on a machine with `available` bytes of free
/// memory and `cores` cores. With fewer than two gibibytes free it is the
/// free memory less the headroom; else the free memory times the number of
/// whole gibibytes less one. It is capped at the ceiling of each thread.
pub open spec fn arena_budget(available: nat, cores: nat) -> int {
    let chunks = available / (GIB as nat);
    let wanted = if chunks < 2 {
        available - HEADROOM
    } else {
        available * (chunks - 1)
    };
    let ceiling = indexing_threads(cores) * THREAD_CEILING;
    if wanted < ceiling {
        wanted
    } else {
        ceiling
    }
}

/// The memory for the writer on a machine with `available_memory` bytes of
/// free memory and `cpu_num` cores.
pub fn memory_arena_num_bytes(available_memory: u64, cpu_num: usize) -> (budget: u64)
    requires
        available_memory >= HEADROOM,
    ensures
        budget == arena_budget(available_memory as nat, cpu_num as nat),
{
    let chunks: u64 = available_memory / GIB;
    let threads: u64 = if cpu_num < 8 {
        cpu_num as u64
    } else {
        MAX_THREADS
    };
    let ceiling: u64 = threads * THREAD_CEILING;
    if chunks < 2 {
        let wanted: u64 = available_memory - HEADROOM;
        if wanted < ceiling {
            wanted
        } else {
            ceiling
        }
    } else {
        assert((available_memory as nat) * ((chunks - 1) as nat) <= 0xffff_ffff_ffff_ffff
            * 0xffff_ffff_ffff_ffff) by (nonlinear_arith)
            requires
                available_memory <= 0xffff_ffff_ffff_ffff,
                1 <= chunks <= 0xffff_ffff_ffff_ffff,
        ;
        let wanted: u128 = (available_memory as u128) * ((chunks - 1) as u128);
        if wanted < ceiling as u128 {
            wanted as u64
        } else {
            ceiling
        }
    }
}

} // verus!
