//! The book record.

use vstd::prelude::*;
use crate::schema::Field;
use crate::text::{parse_u64, parsed_u64};

verus! {

/// One record of the catalogue.
#[derive(Debug)]
pub struct Book {
    pub id: u64,
    pub title: String,
    pub author: String,
    pub publisher: String,
    pub extension: String,
    pub filesize: u64,
    pub language: String,
    pub year: u64,
    pub pages: u64,
    pub isbn: String,
    pub md5: String,
    pub ipfs_cid: String,
    pub cover_url: String,
}

/// A book record as a mathematical value.
pub ghost struct BookView {
    pub id: u64,
    pub title: Seq<char>,
    pub author: Seq<char>,
    pub publisher: Seq<char>,
    pub extension: Seq<char>,
    pub filesize: u64,
    pub language: Seq<char>,
    pub year: u64,
    pub pages: u64,
    pub isbn: Seq<char>,
    pub md5: Seq<char>,
    pub ipfs_cid: Seq<char>,
    pub cover_url: Seq<char>,
}

impl View for Book {
    type V = BookView;

    open spec fn view(&self) -> BookView {
        BookView {
            id: self.id,
            title: self.title@,
            author: self.author@,
            publisher: self.publisher@,
            extension: self.extension@,
            filesize: self.filesize,
            language: self.language@,
            year: self.year,
            pages: self.pages,
            isbn: self.isbn@,
            md5: self.md5@,
            ipfs_cid: self.ipfs_cid@,
            cover_url: self.cover_url@,
        }
    }
}

/// The record with every text empty and every number zero.
pub open spec fn empty_book() -> BookView {
    BookView {
        id: 0,
        title: Seq::empty(),
        author: Seq::empty(),
        publisher: Seq::empty(),
        extension: Seq::empty(),
        filesize: 0,
        language: Seq::empty(),
        year: 0,
        pages: 0,
        isbn: Seq::empty(),
        md5: Seq::empty(),
        ipfs_cid: Seq::empty(),
        cover_url: Seq::empty(),
    }
}

impl Clone for Book {
    fn clone(&self) -> (copy: Self)
        ensures
            copy@ == self@,
    {
        Book {
            id: self.id,
            title: self.title.clone(),
            author: self.author.clone(),
            publisher: self.publisher.clone(),
            extension: self.extension.clone(),
            filesize: self.filesize,
            language: self.language.clone(),
            year: self.year,
            pages: self.pages,
            isbn: self.isbn.clone(),
            md5: self.md5.clone(),
            ipfs_cid: self.ipfs_cid.clone(),
            cover_url: self.cover_url.clone(),
        }
    }
}

impl Default for Book {
    fn default() -> (book: Self)
        ensures
            book@ == empty_book(),
    {
        Book {
            id: 0,
            title: String::new(),
            author: String::new(),
            publisher: String::new(),
            extension: String::new(),
            filesize: 0,
            language: String::new(),
            year: 0,
            pages: 0,
            isbn: String::new(),
            md5: String::new(),
            ipfs_cid: String::new(),
            cover_url: String::new(),
        }
    }
}

/// The number of fields of a record in a source file.
pub const RECORD_FIELDS: usize = 13;

/// The number that a field spells; zero where it spells none.
pub open spec fn record_number(field: Seq<char>) -> u64 {
    match parsed_u64(field) {
        Some(n) => n,
        None => 0,
    }
}

/// The record that a row of a source file stands for, if the row has as
/// many fields as a record. The fields come in the order id, title, author,
/// publisher, extension, file size, language, year, pages, ISBN, content
/// identifier, cover URL, MD5. A number that cannot be read is zero.
pub open spec fn record_of(row: Seq<Seq<char>>) -> Option<BookView> {
    if row.len() != RECORD_FIELDS {
        None
    } else {
        Some(
            BookView {
                id: record_number(row[0]),
                title: row[1],
                author: row[2],
                publisher: row[3],
                extension: row[4],
                filesize: record_number(row[5]),
                language: row[6],
                year: record_number(row[7]),
                pages: record_number(row[8]),
                isbn: row[9],
                ipfs_cid: row[10],
                cover_url: row[11],
                md5: row[12],
            },
        )
    }
}

fn number_of_field(field: &String) -> (number: u64)
    ensures
        number == record_number(field@),
{
    match parse_u64(field.as_str()) {
        Some(n) => n,
        None => 0,
    }
}

/// A value that is stored in a document of the index.
#[derive(Debug)]
pub enum StoredValue {
    Text(String),
    U64(u64),
    /// A value of any other kind.
    Other,
}

/// A stored value as a mathematical value.
pub ghost enum StoredValueView {
    Text(Seq<char>),
    U64(u64),
    Other,
}

impl View for StoredValue {
    type V = StoredValueView;

    open spec fn view(&self) -> StoredValueView {
        match *self {
            StoredValue::Text(s) => StoredValueView::Text(s@),
            StoredValue::U64(n) => StoredValueView::U64(n),
            StoredValue::Other => StoredValueView::Other,
        }
    }
}

/// One value of a document, with its field.
#[derive(Debug)]
pub struct StoredField {
    pub field: Field,
    pub value: StoredValue,
}

/// The values of a document as mathematical values, each with its field.
pub open spec fn stored_views(document: Seq<StoredField>) -> Seq<(Field, StoredValueView)> {
    document.map_values(|f: StoredField| (f.field, f.value@))
}

/// The first value of `field` in a document.
pub open spec fn first_value(document: Seq<(Field, StoredValueView)>, field: Field) -> Option<
    StoredValueView,
>
    decreases document.len(),
{
    if document.len() == 0 {
        None
    } else if document[0].0 == field {
        Some(document[0].1)
    } else {
        first_value(document.drop_first(), field)
    }
}

/// The text of `field` in a document; empty where the document has no
/// value for the field, or the first one is no text.
pub open spec fn stored_text(document: Seq<(Field, StoredValueView)>, field: Field) -> Seq<char> {
    match first_value(document, field) {
        Some(StoredValueView::Text(s)) => s,
        _ => Seq::empty(),
    }
}

/// The number of `field` in a document; zero where the document has no
/// value for the field, or the first one is no number.
pub open spec fn stored_number(document: Seq<(Field, StoredValueView)>, field: Field) -> u64 {
    match first_value(document, field) {
        Some(StoredValueView::U64(n)) => n,
        _ => 0,
    }
}

/// The record that a document of the index holds.
pub open spec fn stored_book(document: Seq<(Field, StoredValueView)>) -> BookView {
    BookView {
        id: stored_number(document, Field::Id),
        title: stored_text(document, Field::Title),
        author: stored_text(document, Field::Author),
        publisher: stored_text(document, Field::Publisher),
        extension: stored_text(document, Field::Extension),
        filesize: stored_number(document, Field::Filesize),
        language: stored_text(document, Field::Language),
        year: stored_number(document, Field::Year),
        pages: stored_number(document, Field::Pages),
        isbn: stored_text(document, Field::Isbn),
        md5: stored_text(document, Field::Md5),
        ipfs_cid: stored_text(document, Field::IpfsCid),
        cover_url: stored_text(document, Field::CoverUrl),
    }
}

fn find_first(document: &Vec<StoredField>, field: Field) -> (at: Option<usize>)
    ensures
        match at {
            Some(i) => i < document@.len() && first_value(stored_views(document@), field) == Some(
                document@[i as int].value@,
            ),
            None => first_value(stored_views(document@), field) is None,
        },
{
    let ghost all = stored_views(document@);
    let mut i: usize = 0;
    assert(all.skip(0) =~= all);
    while i < document.len()
        invariant
            i <= document.len(),
            all == stored_views(document@),
            first_value(all, field) == first_value(all.skip(i as int), field),
        decreases document.len() - i,
    {
        assert(all.skip(i as int)[0] == all[i as int]);
        assert(all.skip(i as int).drop_first() =~= all.skip(i + 1));
        if document[i].field == field {
            return Some(i);
        }
        i = i + 1;
    }
    None
}

fn text_of(document: &Vec<StoredField>, field: Field) -> (text: String)
    ensures
        text@ == stored_text(stored_views(document@), field),
{
    match find_first(document, field) {
        Some(i) => match &document[i].value {
            StoredValue::Text(s) => s.clone(),
            _ => String::new(),
        },
        None => String::new(),
    }
}

fn number_of(document: &Vec<StoredField>, field: Field) -> (number: u64)
    ensures
        number == stored_number(stored_views(document@), field),
{
    match find_first(document, field) {
        Some(i) => match &document[i].value {
            StoredValue::U64(n) => *n,
            _ => 0,
        },
        None => 0,
    }
}

impl Book {
    /// The record of one row of a source file. A row that has not as many
    /// fields as a record is refused. A number that cannot be read is zero.
    pub fn from_record(row: &Vec<String>) -> (book: Option<Book>)
        ensures
            book is None <==> row@.len() != RECORD_FIELDS,
            match book {
                Some(b) => record_of(row@.map_values(|s: String| s@)) == Some(b@),
                None => record_of(row@.map_values(|s: String| s@)) is None,
            },
    {
        if row.len() != RECORD_FIELDS {
            return None;
        }
        Some(
            Book {
                id: number_of_field(&row[0]),
                title: row[1].clone(),
                author: row[2].clone(),
                publisher: row[3].clone(),
                extension: row[4].clone(),
                filesize: number_of_field(&row[5]),
                language: row[6].clone(),
                year: number_of_field(&row[7]),
                pages: number_of_field(&row[8]),
                isbn: row[9].clone(),
                ipfs_cid: row[10].clone(),
                cover_url: row[11].clone(),
                md5: row[12].clone(),
            },
        )
    }

    /// The record that a document of the index holds: of each field the
    /// first stored value. A text that is missing or is no text is empty, a
    /// number that is missing or is no number is zero.
    pub fn from_stored(document: &Vec<StoredField>) -> (book: Book)
        ensures
            book@ == stored_book(stored_views(document@)),
    {
        Book {
            id: number_of(document, Field::Id),
            title: text_of(document, Field::Title),
            author: text_of(document, Field::Author),
            publisher: text_of(document, Field::Publisher),
            extension: text_of(document, Field::Extension),
            filesize: number_of(document, Field::Filesize),
            language: text_of(document, Field::Language),
            year: number_of(document, Field::Year),
            pages: number_of(document, Field::Pages),
            isbn: text_of(document, Field::Isbn),
            md5: text_of(document, Field::Md5),
            ipfs_cid: text_of(document, Field::IpfsCid),
            cover_url: text_of(document, Field::CoverUrl),
        }
    }
}

} // verus!
