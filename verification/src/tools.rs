//! Records of other catalogues, and how they become book records.

use vstd::prelude::*;
use vstd::string::StringExecFns;
use crate::book::{Book, BookView};
use crate::text::{parse_u64, parsed_u64};

verus! {

/// The metadata of one file of the other catalogue.
#[derive(Debug)]
pub struct ZlibMetadata {
    pub zlibrary_id: u64,
    pub date_added: String,
    pub date_modified: String,
    pub extension: String,
    pub filesize_reported: u64,
    pub md5_reported: String,
    pub title: String,
    pub author: String,
    pub publisher: String,
    pub language: String,
    pub series: String,
    pub volume: String,
    pub edition: String,
    pub year: String,
    pub pages: String,
    pub description: String,
    pub cover_path: String,
    pub isbns: Vec<String>,
    pub category_id: String,
}

/// One line of the other catalogue.
#[derive(Debug)]
pub struct AABook {
    pub aacid: String,
    pub metadata: ZlibMetadata,
}

/// The texts `items` with `separator` between them.
pub open spec fn joined(items: Seq<Seq<char>>, separator: Seq<char>) -> Seq<char>
    decreases items.len(),
{
    if items.len() == 0 {
        Seq::empty()
    } else if items.len() == 1 {
        items[0]
    } else {
        joined(items.drop_last(), separator) + separator + items.last()
    }
}

/// The number that a text spells, or zero.
pub open spec fn number_or_zero(text: Seq<char>) -> u64 {
    match parsed_u64(text) {
        Some(n) => n,
        None => 0,
    }
}

/// The cover URL for a cover path: the path behind `zlib://`, or nothing
/// for no path.
pub open spec fn cover_url_of(path: Seq<char>) -> Seq<char> {
    if path.len() == 0 {
        path
    } else {
        "zlib://"@ + path
    }
}

/// The texts `items` with `separator` between them.
pub fn join(items: &Vec<String>, separator: &str) -> (text: String)
    ensures
        text@ == joined(items@.map_values(|s: String| s@), separator@),
{
    let ghost all = items@.map_values(|s: String| s@);
    let mut text = String::new();
    let mut i: usize = 0;
    assert(all.take(0) =~= Seq::<Seq<char>>::empty());
    while i < items.len()
        invariant
            i <= items.len(),
            all == items@.map_values(|s: String| s@),
            text@ == joined(all.take(i as int), separator@),
        decreases items.len() - i,
    {
        assert(all.take(i + 1).drop_last() =~= all.take(i as int));
        assert(all.take(i + 1).last() == items@[i as int]@);
        if i > 0 {
            text.append(separator);
        } else {
            assert(text@ =~= Seq::<char>::empty());
            assert(all.take(1)[0] == items@[0]@);
            assert(text@ + items@[0]@ =~= items@[0]@);
        }
        text.append(items[i].as_str());
        i = i + 1;
    }
    assert(all.take(i as int) =~= all);
    text
}

impl ZlibMetadata {
    /// The book record of this metadata.
    pub open spec fn book(self) -> BookView {
        BookView {
            id: self.zlibrary_id,
            title: self.title@,
            author: self.author@,
            publisher: self.publisher@,
            extension: self.extension@,
            filesize: self.filesize_reported,
            language: self.language@,
            year: number_or_zero(self.year@),
            pages: number_or_zero(self.pages@),
            isbn: joined(self.isbns@.map_values(|s: String| s@), ","@),
            md5: self.md5_reported@,
            ipfs_cid: Seq::empty(),
            cover_url: cover_url_of(self.cover_path@),
        }
    }

    /// The book record of this metadata: the year and the pages as numbers,
    /// zero where they spell none; the ISBNs joined by commas; the cover
    /// path as a URL; no content identifier.
    pub fn into_book(self) -> (book: Book)
        ensures
            book@ == self.book(),
    {
        let cover_url = if self.cover_path.as_str().is_empty() {
            self.cover_path
        } else {
            String::from_str("zlib://").concat(self.cover_path.as_str())
        };
        let year = match parse_u64(self.year.as_str()) {
            Some(n) => n,
            None => 0,
        };
        let pages = match parse_u64(self.pages.as_str()) {
            Some(n) => n,
            None => 0,
        };
        let isbn = join(&self.isbns, ",");
        Book {
            id: self.zlibrary_id,
            title: self.title,
            author: self.author,
            publisher: self.publisher,
            extension: self.extension,
            filesize: self.filesize_reported,
            language: self.language,
            year,
            pages,
            isbn,
            md5: self.md5_reported,
            ipfs_cid: String::new(),
            cover_url,
        }
    }
}

} // verus!
