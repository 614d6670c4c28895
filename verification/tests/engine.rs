use book_searcher_core::always_merge_policy::AlwaysMergePolicy;
use book_searcher_core::book::{Book, StoredField, StoredValue};
use book_searcher_core::index::{get_book_score_boost, prepare_document, IndexedBook};
use book_searcher_core::schema::{default_search_fields, schema, Field, FieldKind, TextIndexing};
use book_searcher_core::search::query::{
    IndexRecordOption, Occur, Query, QueryPlan, SearchMode, SearchQuery, Term,
};
use book_searcher_core::search::{SearchAction, SearchEvent, SearchRun};
use book_searcher_core::searcher::Searcher;
use book_searcher_core::tokenizer::{MetaTokenStream, META_TOKENIZER};
use std::sync::Arc;
use tantivy::collector::{Count, TopDocs};
use tantivy::merge_policy::{MergeCandidate, MergePolicy};
use tantivy::query::{BooleanQuery, BoostQuery, PhraseQuery, QueryParser, TermQuery};
use tantivy::schema::{NumericOptions, Schema, TextFieldIndexing, TextOptions, Value};
use tantivy::tokenizer::{BoxTokenStream, TokenStream, Tokenizer};
use tantivy::{DocId, Document, Index, IndexWriter, Score, SegmentId, SegmentMeta, SegmentReader};

#[derive(Clone)]
struct Analyzer(Arc<Searcher>);

struct Tokens {
    tokens: MetaTokenStream,
    current: tantivy::tokenizer::Token,
}

impl TokenStream for Tokens {
    fn advance(&mut self) -> bool {
        if !self.tokens.advance() {
            return false;
        }
        let token = self.tokens.token();
        self.current = tantivy::tokenizer::Token {
            offset_from: token.offset_from,
            offset_to: token.offset_to,
            position: token.position,
            text: token.text.clone(),
            position_length: token.position_length,
        };
        true
    }

    fn token(&self) -> &tantivy::tokenizer::Token {
        &self.current
    }

    fn token_mut(&mut self) -> &mut tantivy::tokenizer::Token {
        &mut self.current
    }
}

impl Tokenizer for Analyzer {
    type TokenStream<'a> = BoxTokenStream<'a>;

    fn token_stream<'a>(&'a mut self, text: &'a str) -> BoxTokenStream<'a> {
        let tokens = self.0.tokenizer.token_stream(text);
        BoxTokenStream::new(Tokens { tokens, current: tantivy::tokenizer::Token::default() })
    }
}

#[derive(Debug)]
struct MergeAll(AlwaysMergePolicy);

impl MergePolicy for MergeAll {
    fn compute_merge_candidates(&self, segments: &[SegmentMeta]) -> Vec<MergeCandidate> {
        let ids: Vec<SegmentId> = segments.iter().map(|segment| segment.id()).collect();
        self.0.compute_merge_candidates(ids).into_iter().map(MergeCandidate).collect()
    }
}

struct Library {
    searcher: Arc<Searcher>,
    index: Index,
    parser: QueryParser,
    fields: Vec<(Field, tantivy::schema::Field)>,
}

impl Library {
    fn new() -> Library {
        let mut builder = Schema::builder();
        let mut fields = Vec::new();
        for entry in schema() {
            let name = entry.field.name();
            let field = match entry.kind {
                FieldKind::U64 { indexed } => {
                    let mut options = NumericOptions::default();
                    if indexed {
                        options = options.set_indexed();
                    }
                    if entry.stored {
                        options = options.set_stored();
                    }
                    if entry.fast {
                        options = options.set_fast();
                    }
                    builder.add_u64_field(name, options)
                }
                FieldKind::Text { indexing } => {
                    let mut options = TextOptions::default();
                    let positions = tantivy::schema::IndexRecordOption::WithFreqsAndPositions;
                    let indexing = match indexing {
                        TextIndexing::NotIndexed => None,
                        TextIndexing::Raw => Some(
                            TextFieldIndexing::default()
                                .set_tokenizer("raw")
                                .set_index_option(tantivy::schema::IndexRecordOption::Basic),
                        ),
                        TextIndexing::Default => Some(
                            TextFieldIndexing::default()
                                .set_tokenizer("default")
                                .set_index_option(positions),
                        ),
                        TextIndexing::Meta => Some(
                            TextFieldIndexing::default()
                                .set_tokenizer(META_TOKENIZER)
                                .set_index_option(positions),
                        ),
                    };
                    if let Some(indexing) = indexing {
                        options = options.set_indexing_options(indexing);
                    }
                    if entry.stored {
                        options = options.set_stored();
                    }
                    builder.add_text_field(name, options)
                }
            };
            fields.push((entry.field, field));
        }
        let index = Index::create_in_ram(builder.build());
        let searcher = Arc::new(Searcher::new(false, vec!["the".to_string()]));
        index.tokenizers().register(META_TOKENIZER, Analyzer(searcher.clone()));
        let defaults = default_search_fields()
            .into_iter()
            .map(|wanted| fields.iter().find(|(f, _)| *f == wanted).unwrap().1)
            .collect();
        let parser = QueryParser::for_index(&index, defaults);
        Library { searcher, index, parser, fields }
    }

    fn field(&self, wanted: Field) -> tantivy::schema::Field {
        self.fields.iter().find(|(f, _)| *f == wanted).unwrap().1
    }

    fn writer(&self) -> IndexWriter {
        let writer = self.index.writer_with_num_threads(1, 15_000_000).unwrap();
        writer.set_merge_policy(Box::new(MergeAll(AlwaysMergePolicy)));
        writer
    }

    fn document(&self, values: Vec<StoredField>) -> Document {
        let mut doc = Document::default();
        for stored in values {
            match stored.value {
                StoredValue::Text(text) => doc.add_text(self.field(stored.field), text),
                StoredValue::U64(number) => doc.add_u64(self.field(stored.field), number),
                StoredValue::Other => {}
            }
        }
        doc
    }

    /// Indexes the records as an ingestion run does.
    fn ingest(&self, books: Vec<Book>) {
        let mut writer = self.writer();
        for book in books {
            if let Some(item) = prepare_document(book) {
                writer.add_document(self.document(item.document())).unwrap();
            }
        }
        writer.commit().unwrap();
        writer.wait_merging_threads().unwrap();
    }

    /// Indexes the records with the boosts that are given.
    fn ingest_boosted(&self, books: Vec<(Book, u64)>) {
        let mut writer = self.writer();
        for (book, boost) in books {
            let item = IndexedBook { book, score_boost: boost };
            writer.add_document(self.document(item.document())).unwrap();
        }
        writer.commit().unwrap();
        writer.wait_merging_threads().unwrap();
    }

    fn term(&self, term: &Term) -> tantivy::Term {
        match term {
            Term::Text { field, text } => tantivy::Term::from_field_text(self.field(*field), text),
            Term::U64 { field, value } => tantivy::Term::from_field_u64(self.field(*field), *value),
        }
    }

    fn query(&self, plan: &Query) -> Box<dyn tantivy::query::Query> {
        match plan {
            Query::Term { term, option } => {
                let option = match option {
                    IndexRecordOption::Basic => tantivy::schema::IndexRecordOption::Basic,
                    IndexRecordOption::WithFreqs => tantivy::schema::IndexRecordOption::WithFreqs,
                    IndexRecordOption::WithFreqsAndPositions => {
                        tantivy::schema::IndexRecordOption::WithFreqsAndPositions
                    }
                };
                Box::new(TermQuery::new(self.term(term), option))
            }
            Query::Phrase { terms, slop } => {
                let terms = terms.iter().map(|(at, term)| (*at, self.term(term))).collect();
                Box::new(PhraseQuery::new_with_offset_and_slop(terms, *slop))
            }
            Query::Boost { query, boost } => {
                Box::new(BoostQuery::new(self.query(query), *boost as Score))
            }
            Query::Boolean { clauses } => Box::new(BooleanQuery::new(
                clauses
                    .iter()
                    .map(|(occur, clause)| {
                        let occur = match occur {
                            Occur::Must => tantivy::query::Occur::Must,
                            Occur::Should => tantivy::query::Occur::Should,
                        };
                        (occur, self.query(clause))
                    })
                    .collect(),
            )),
        }
    }

    fn build(&self, request: &SearchQuery) -> Option<Box<dyn tantivy::query::Query>> {
        match request.parse(&self.searcher).ok()? {
            QueryPlan::Parse { text, conjunction } => {
                let mut parser = self.parser.clone();
                if conjunction {
                    parser.set_conjunction_by_default();
                }
                parser.parse_query(&text).ok()
            }
            QueryPlan::Built { query } => Some(self.query(&query)),
        }
    }

    fn stored(&self, doc: Document) -> Vec<StoredField> {
        doc.field_values()
            .iter()
            .map(|field_value| {
                let field = self.fields.iter().find(|(_, f)| *f == field_value.field()).unwrap().0;
                let value = match field_value.value() {
                    Value::Str(text) => StoredValue::Text(text.clone()),
                    Value::U64(number) => StoredValue::U64(*number),
                    _ => StoredValue::Other,
                };
                StoredField { field, value }
            })
            .collect()
    }

    fn search(&self, request: &SearchQuery, limit: usize, offset: usize) -> (Vec<Book>, usize) {
        let mut reader = None;
        let mut query = None;
        let (mut run, mut action) = SearchRun::start(limit, offset);
        loop {
            let event = match action {
                SearchAction::OpenReader => match self.index.reader() {
                    Ok(opened) => {
                        reader = Some(opened.searcher());
                        SearchEvent::ReaderReady
                    }
                    Err(_) => SearchEvent::Failed,
                },
                SearchAction::BuildQuery => match self.build(request) {
                    Some(built) => {
                        query = Some(built);
                        SearchEvent::QueryReady
                    }
                    None => SearchEvent::Failed,
                },
                SearchAction::CountMatches => {
                    match reader.as_ref().unwrap().search(query.as_ref().unwrap(), &Count) {
                        Ok(total) => SearchEvent::Counted { total },
                        Err(_) => SearchEvent::Failed,
                    }
                }
                SearchAction::CollectPage { limit, offset } => {
                    let reader = reader.as_ref().unwrap();
                    let by_boost = TopDocs::with_limit(limit).and_offset(offset).tweak_score(
                        move |segment_reader: &SegmentReader| {
                            let score_boost = segment_reader
                                .fast_fields()
                                .u64("score_boost")
                                .unwrap()
                                .first_or_default_col(1);
                            move |doc: DocId, score: Score| {
                                let score_boost: u64 = score_boost.get_val(doc);
                                score * ((10 + score_boost) as Score).log10()
                            }
                        },
                    );
                    match reader.search(query.as_ref().unwrap(), &by_boost) {
                        Ok(top_docs) => SearchEvent::Collected {
                            books: top_docs
                                .iter()
                                .map(|d| Book::from_stored(&self.stored(reader.doc(d.1).unwrap())))
                                .collect(),
                        },
                        Err(_) => SearchEvent::Failed,
                    }
                }
                SearchAction::Return { books, total } => return (books, total),
            };
            (run, action) = run.step(event);
        }
    }
}

fn book(id: u64, title: &str, author: &str, isbn: &str) -> Book {
    Book {
        id,
        title: title.to_string(),
        author: author.to_string(),
        publisher: "人民文学出版社".to_string(),
        extension: "epub".to_string(),
        filesize: 1000 + id,
        language: "english".to_string(),
        year: 1900 + id,
        pages: 100 + id,
        isbn: isbn.to_string(),
        md5: format!("md5-{id}"),
        ipfs_cid: format!("cid-{id}"),
        cover_url: format!("zlib://covers/{id}.jpg"),
    }
}

fn ids(books: &[Book]) -> Vec<u64> {
    books.iter().map(|b| b.id).collect()
}

#[test]
fn indexed_book_is_found_by_its_isbn_and_read_back() {
    let library = Library::new();
    let stored = book(31, "Dune", "Frank Herbert", "9780441172719");
    library.ingest(vec![stored.clone()]);
    let request = SearchQuery { isbn: Some("9780441172719".to_string()), ..SearchQuery::default() };
    let (books, total) = library.search(&request, 10, 0);
    assert_eq!(total, 1);
    assert_eq!(books.len(), 1);
    let found = &books[0];
    assert_eq!(found.id, 31);
    assert_eq!(found.title, "Dune");
    assert_eq!(found.author, "Frank Herbert");
    assert_eq!(found.publisher, stored.publisher);
    assert_eq!(found.extension, "epub");
    assert_eq!(found.filesize, 1031);
    assert_eq!(found.language, "english");
    assert_eq!(found.year, 1931);
    assert_eq!(found.pages, 131);
    assert_eq!(found.isbn, "9780441172719");
    assert_eq!(found.md5, "md5-31");
    assert_eq!(found.ipfs_cid, "cid-31");
    assert_eq!(found.cover_url, "zlib://covers/31.jpg");
    let other = SearchQuery { isbn: Some("9780441172718".to_string()), ..SearchQuery::default() };
    assert_eq!(library.search(&other, 10, 0).1, 0);
}

#[test]
fn book_without_content_identifier_is_never_indexed() {
    let library = Library::new();
    let mut hidden = book(1, "Hidden Treasure", "Nobody", "111");
    hidden.ipfs_cid = String::new();
    let shown = book(2, "Shown Treasure", "Somebody", "222");
    library.ingest(vec![hidden, shown]);
    let request = SearchQuery { title: Some("treasure".to_string()), ..SearchQuery::default() };
    let (books, total) = library.search(&request, 10, 0);
    assert_eq!(total, 1);
    assert_eq!(ids(&books), vec![2]);
    let by_id = SearchQuery { id: Some("1".to_string()), ..SearchQuery::default() };
    assert_eq!(library.search(&by_id, 10, 0).1, 0);
}

#[test]
fn higher_boost_ranks_first() {
    let library = Library::new();
    let low = book(1, "Moby Dick", "Herman Melville", "1");
    let mut high = book(1, "Moby Dick", "Herman Melville", "1");
    high.md5 = "boosted".to_string();
    library.ingest_boosted(vec![(low, 0), (high, 50)]);
    let request = SearchQuery { title: Some("moby dick".to_string()), ..SearchQuery::default() };
    let (books, total) = library.search(&request, 10, 0);
    assert_eq!(total, 2);
    assert_eq!(books[0].md5, "boosted");
    assert_eq!(books[1].md5, "md5-1");
}

#[test]
fn filter_needs_every_field_and_explore_any() {
    let library = Library::new();
    library.ingest(vec![
        book(1, "Emma", "Jane Austen", "1"),
        book(2, "Ulysses", "James Joyce", "2"),
        book(3, "Walden", "Henry Thoreau", "3"),
    ]);
    let mut request = SearchQuery {
        title: Some("Emma".to_string()),
        author: Some("Joyce".to_string()),
        ..SearchQuery::default()
    };
    request.mode = SearchMode::Filter;
    let (books, total) = library.search(&request, 10, 0);
    assert!(books.is_empty());
    assert_eq!(total, 0);
    request.mode = SearchMode::Explore;
    let (books, total) = library.search(&request, 10, 0);
    assert_eq!(total, 2);
    let mut found = ids(&books);
    found.sort();
    assert_eq!(found, vec![1, 2]);
}

#[test]
fn second_page_follows_the_first() {
    let library = Library::new();
    let books: Vec<(Book, u64)> =
        (1..=25).map(|i| (book(i, "Collected Essays", "Various", "9"), 3 * i)).collect();
    library.ingest_boosted(books);
    let request = SearchQuery { title: Some("essays".to_string()), ..SearchQuery::default() };
    let (second, total) = library.search(&request, 10, 10);
    let (first_two, total_of_two) = library.search(&request, 20, 0);
    assert_eq!(total, 25);
    assert_eq!(total_of_two, 25);
    assert_eq!(second.len(), 10);
    assert_eq!(first_two.len(), 20);
    assert_eq!(ids(&second), ids(&first_two[10..20]));
    assert_eq!(ids(&first_two), (6..=25).rev().collect::<Vec<u64>>());
    let (last, _) = library.search(&request, 10, 20);
    assert_eq!(ids(&last), vec![5, 4, 3, 2, 1]);
    let (none, count) = library.search(&request, 0, 0);
    assert!(none.is_empty());
    assert_eq!(count, 25);
}

#[test]
fn free_text_is_parsed_by_the_engine() {
    let library = Library::new();
    library.ingest(vec![
        book(1, "War and Peace", "Leo Tolstoy", "1"),
        book(2, "War of the Worlds", "H G Wells", "2"),
    ]);
    let mut request = SearchQuery::new_query("war peace".to_string());
    assert_eq!(ids(&library.search(&request, 10, 0).0), vec![1]);
    request.mode = SearchMode::Explore;
    assert_eq!(library.search(&request, 10, 0).1, 2);
    let broken = SearchQuery::new_query("title:(".to_string());
    let (books, total) = library.search(&broken, 10, 0);
    assert!(books.is_empty());
    assert_eq!(total, 0);
}

#[test]
fn empty_request_finds_nothing() {
    let library = Library::new();
    library.ingest(vec![book(1, "Emma", "Jane Austen", "1")]);
    let (books, total) = library.search(&SearchQuery::default(), 10, 0);
    assert!(books.is_empty());
    assert_eq!(total, 0);
}

#[test]
fn chinese_title_is_found_by_a_word_of_it() {
    let library = Library::new();
    library.ingest(vec![
        book(1, "南京市长江大桥", "佚名", "1"),
        book(2, "红楼梦", "曹雪芹", "2"),
        book(3, "紅樓夢影", "顧太清", "3"),
    ]);
    let request = SearchQuery { title: Some("长江大桥".to_string()), ..SearchQuery::default() };
    assert_eq!(ids(&library.search(&request, 10, 0).0), vec![1]);
    let request = SearchQuery { author: Some("曹雪芹".to_string()), ..SearchQuery::default() };
    assert_eq!(ids(&library.search(&request, 10, 0).0), vec![2]);
}

#[test]
fn every_commit_leaves_one_segment() {
    let library = Library::new();
    library.ingest(vec![book(1, "Emma", "Jane Austen", "1")]);
    library.ingest(vec![book(2, "Ulysses", "James Joyce", "2")]);
    library.ingest(vec![book(3, "Walden", "Henry Thoreau", "3")]);
    let reader = library.index.reader().unwrap();
    let searcher = reader.searcher();
    assert_eq!(searcher.segment_readers().len(), 1);
    assert_eq!(searcher.num_docs(), 3);
}

#[test]
fn ingested_boost_is_the_boost_of_the_record() {
    let complete = book(1, "Emma", "Jane Austen", "1");
    assert_eq!(get_book_score_boost(&complete), 105);
    let mut bare = book(2, "Emma", "", "2");
    bare.publisher = String::new();
    bare.language = "other".to_string();
    bare.year = 0;
    bare.pages = 0;
    bare.cover_url = String::new();
    assert_eq!(get_book_score_boost(&bare), 0);
    let library = Library::new();
    library.ingest(vec![bare, complete]);
    let request = SearchQuery { title: Some("emma".to_string()), ..SearchQuery::default() };
    assert_eq!(ids(&library.search(&request, 10, 0).0), vec![1, 2]);
}
