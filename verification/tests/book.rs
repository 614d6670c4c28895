use book_searcher_core::book::{Book, StoredField, StoredValue};
use book_searcher_core::schema::Field;

fn row(fields: &[&str]) -> Vec<String> {
    fields.iter().map(|f| f.to_string()).collect()
}

fn text(field: Field, value: &str) -> StoredField {
    StoredField { field, value: StoredValue::Text(value.to_string()) }
}

fn number(field: Field, value: u64) -> StoredField {
    StoredField { field, value: StoredValue::U64(value) }
}

#[test]
fn default_book_is_empty() {
    let b = Book::default();
    assert_eq!((b.id, b.filesize, b.year, b.pages), (0, 0, 0, 0));
    for s in [&b.title, &b.author, &b.publisher, &b.extension, &b.language] {
        assert!(s.is_empty());
    }
    for s in [&b.isbn, &b.md5, &b.ipfs_cid, &b.cover_url] {
        assert!(s.is_empty());
    }
}

#[test]
fn record_is_read_field_by_field() {
    let b = Book::from_record(&row(&[
        "12", "Title", "Author", "Publisher", "pdf", "2048", "english", "1999", "321", "isbn",
        "cid", "cover", "md5",
    ]))
    .unwrap();
    assert_eq!(b.id, 12);
    assert_eq!(b.title, "Title");
    assert_eq!(b.author, "Author");
    assert_eq!(b.publisher, "Publisher");
    assert_eq!(b.extension, "pdf");
    assert_eq!(b.filesize, 2048);
    assert_eq!(b.language, "english");
    assert_eq!(b.year, 1999);
    assert_eq!(b.pages, 321);
    assert_eq!(b.isbn, "isbn");
    assert_eq!(b.ipfs_cid, "cid");
    assert_eq!(b.cover_url, "cover");
    assert_eq!(b.md5, "md5");
}

#[test]
fn unreadable_numbers_are_zero() {
    let b = Book::from_record(&row(&[
        "x", "T", "", "", "", "-1", "", "19 99", "", "", "cid", "", "",
    ]))
    .unwrap();
    assert_eq!((b.id, b.filesize, b.year, b.pages), (0, 0, 0, 0));
    assert_eq!(b.title, "T");
    assert_eq!(b.ipfs_cid, "cid");
}

#[test]
fn row_with_the_wrong_number_of_fields_is_refused() {
    assert!(Book::from_record(&row(&["5", "Only a title"])).is_none());
    assert!(Book::from_record(&Vec::new()).is_none());
    let twelve = row(&["1", "T", "A", "P", "pdf", "1", "en", "1", "1", "isbn", "cid", "cover"]);
    assert!(Book::from_record(&twelve).is_none());
    let fourteen = row(&[
        "1", "T", "A", "P", "pdf", "1", "en", "1", "1", "isbn", "cid", "cover", "md5", "more",
    ]);
    assert!(Book::from_record(&fourteen).is_none());
    let thirteen = row(&["", "", "", "", "", "", "", "", "", "", "", "", ""]);
    let b = Book::from_record(&thirteen).unwrap();
    assert_eq!(b.id, 0);
    assert!(b.title.is_empty() && b.md5.is_empty());
}

#[test]
fn stored_document_becomes_a_book() {
    let doc = vec![
        number(Field::Id, 9),
        text(Field::Title, "Dune"),
        text(Field::Author, "Frank Herbert"),
        text(Field::Publisher, "Chilton"),
        text(Field::Extension, "epub"),
        number(Field::Filesize, 77),
        text(Field::Language, "english"),
        number(Field::Year, 1965),
        number(Field::Pages, 412),
        text(Field::Isbn, "0441172717"),
        text(Field::Md5, "abc"),
        text(Field::IpfsCid, "cid"),
        text(Field::CoverUrl, "cover"),
    ];
    let b = Book::from_stored(&doc);
    assert_eq!(b.id, 9);
    assert_eq!(b.title, "Dune");
    assert_eq!(b.author, "Frank Herbert");
    assert_eq!(b.publisher, "Chilton");
    assert_eq!(b.extension, "epub");
    assert_eq!(b.filesize, 77);
    assert_eq!(b.language, "english");
    assert_eq!(b.year, 1965);
    assert_eq!(b.pages, 412);
    assert_eq!(b.isbn, "0441172717");
    assert_eq!(b.md5, "abc");
    assert_eq!(b.ipfs_cid, "cid");
    assert_eq!(b.cover_url, "cover");
}

#[test]
fn first_stored_value_of_a_field_counts() {
    let doc = vec![text(Field::Title, "first"), text(Field::Title, "second"), number(Field::Id, 1), number(Field::Id, 2)];
    let b = Book::from_stored(&doc);
    assert_eq!(b.title, "first");
    assert_eq!(b.id, 1);
}

#[test]
fn missing_or_mistyped_values_take_the_default() {
    let doc = vec![
        text(Field::Id, "9"),
        number(Field::Title, 3),
        StoredField { field: Field::Year, value: StoredValue::Other },
        text(Field::Author, "kept"),
    ];
    let b = Book::from_stored(&doc);
    assert_eq!(b.id, 0);
    assert!(b.title.is_empty());
    assert_eq!(b.year, 0);
    assert_eq!(b.author, "kept");
    assert!(b.isbn.is_empty());
    let none = Book::from_stored(&Vec::new());
    assert_eq!(none.pages, 0);
    assert!(none.cover_url.is_empty());
}
