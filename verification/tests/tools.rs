use book_searcher_core::tools::{join, AABook, ZlibMetadata};

fn metadata() -> ZlibMetadata {
    ZlibMetadata {
        zlibrary_id: 31,
        date_added: "2020-01-01".to_string(),
        date_modified: "2020-01-02".to_string(),
        extension: "pdf".to_string(),
        filesize_reported: 4096,
        md5_reported: "md5".to_string(),
        title: "Title".to_string(),
        author: "Author".to_string(),
        publisher: "Publisher".to_string(),
        language: "english".to_string(),
        series: "s".to_string(),
        volume: "v".to_string(),
        edition: "e".to_string(),
        year: "2001".to_string(),
        pages: "100".to_string(),
        description: "d".to_string(),
        cover_path: "covers/31.jpg".to_string(),
        isbns: vec!["111".to_string(), "222".to_string(), "333".to_string()],
        category_id: "c".to_string(),
    }
}

#[test]
fn join_puts_the_separator_between() {
    assert_eq!(join(&Vec::new(), ","), "");
    assert_eq!(join(&vec!["a".to_string()], ","), "a");
    assert_eq!(join(&vec!["a".to_string(), "b".to_string(), "".to_string()], ", "), "a, b, ");
}

#[test]
fn metadata_becomes_a_book() {
    let b = AABook { aacid: "aacid".to_string(), metadata: metadata() }.metadata.into_book();
    assert_eq!(b.id, 31);
    assert_eq!(b.title, "Title");
    assert_eq!(b.author, "Author");
    assert_eq!(b.publisher, "Publisher");
    assert_eq!(b.extension, "pdf");
    assert_eq!(b.filesize, 4096);
    assert_eq!(b.language, "english");
    assert_eq!(b.year, 2001);
    assert_eq!(b.pages, 100);
    assert_eq!(b.isbn, "111,222,333");
    assert_eq!(b.md5, "md5");
    assert_eq!(b.ipfs_cid, "");
    assert_eq!(b.cover_url, "zlib://covers/31.jpg");
}

#[test]
fn metadata_without_cover_and_numbers() {
    let mut m = metadata();
    m.cover_path = String::new();
    m.year = "c. 1900".to_string();
    m.pages = String::new();
    m.isbns = Vec::new();
    let b = m.into_book();
    assert_eq!(b.cover_url, "");
    assert_eq!(b.year, 0);
    assert_eq!(b.pages, 0);
    assert_eq!(b.isbn, "");
}
