//! Searching: from a request to a query for the engine, and the steps of
//! one search.

use vstd::prelude::*;
use crate::book::{Book, BookView};
use crate::index::book_views;

pub mod query;

verus! {

/// The number of results of a page where the request names none.
pub fn default_limit() -> (limit: usize)
    ensures
        limit == 30,
{
    30
}

/// What a search waits for.
#[derive(Clone, Copy, Debug, PartialEq, Eq, Structural)]
pub enum SearchStage {
    /// A snapshot of the index.
    Reader,
    /// The query of the request.
    Query,
    /// The number of documents that match.
    Count,
    /// The documents of the page.
    Page,
    /// Nothing: the search has ended.
    Done,
}

/// A search in progress for one page of results.
#[derive(Clone, Copy, Debug, PartialEq, Eq, Structural)]
pub struct SearchRun {
    pub stage: SearchStage,
    /// The most results of the page.
    pub limit: usize,
    /// The number of best results that are left out before the page.
    pub offset: usize,
    /// The number of documents that match, once it is known.
    pub total: usize,
}

/// What happened outside since the last step.
#[derive(Debug)]
pub enum SearchEvent {
    ReaderReady,
    QueryReady,
    Counted { total: usize },
    Collected { books: Vec<Book> },
    /// The step that was asked for has failed.
    Failed,
}

/// An event as a mathematical value.
pub ghost enum SearchEventView {
    ReaderReady,
    QueryReady,
    Counted { total: usize },
    Collected { books: Seq<BookView> },
    Failed,
}

impl View for SearchEvent {
    type V = SearchEventView;

    open spec fn view(&self) -> SearchEventView {
        match *self {
            SearchEvent::ReaderReady => SearchEventView::ReaderReady,
            SearchEvent::QueryReady => SearchEventView::QueryReady,
            SearchEvent::Counted { total } => SearchEventView::Counted { total },
            SearchEvent::Collected { books } => SearchEventView::Collected {
                books: book_views(books@),
            },
            SearchEvent::Failed => SearchEventView::Failed,
        }
    }
}

/// What is to be done outside next.
#[derive(Debug)]
pub enum SearchAction {
    OpenReader,
    BuildQuery,
    CountMatches,
    /// Collect the `limit` best documents behind the `offset` best ones, by
    /// the tweaked score.
    CollectPage { limit: usize, offset: usize },
    /// Hand `books` and `total` to the caller.
    Return { books: Vec<Book>, total: usize },
}

/// An action as a mathematical value.
pub ghost enum SearchActionView {
    OpenReader,
    BuildQuery,
    CountMatches,
    CollectPage { limit: usize, offset: usize },
    Return { books: Seq<BookView>, total: usize },
}

impl View for SearchAction {
    type V = SearchActionView;

    open spec fn view(&self) -> SearchActionView {
        match *self {
            SearchAction::OpenReader => SearchActionView::OpenReader,
            SearchAction::BuildQuery => SearchActionView::BuildQuery,
            SearchAction::CountMatches => SearchActionView::CountMatches,
            SearchAction::CollectPage { limit, offset } => SearchActionView::CollectPage {
                limit,
                offset,
            },
            SearchAction::Return { books, total } => SearchActionView::Return {
                books: book_views(books@),
                total,
            },
        }
    }
}

/// The end of a search that has nothing to show.
pub open spec fn nothing_found(run: SearchRun) -> (SearchRun, SearchActionView) {
    (
        SearchRun { stage: SearchStage::Done, total: 0, ..run },
        SearchActionView::Return { books: Seq::empty(), total: 0 },
    )
}

/// The step of a search. The steps follow each other in the order reader,
/// query, count, page. A page of no results is not asked for. A failure or
/// an event out of turn ends the search with no results and the count zero.
pub open spec fn next(run: SearchRun, event: SearchEventView) -> (SearchRun, SearchActionView) {
    match (run.stage, event) {
        (SearchStage::Reader, SearchEventView::ReaderReady) => (
            SearchRun { stage: SearchStage::Query, ..run },
            SearchActionView::BuildQuery,
        ),
        (SearchStage::Query, SearchEventView::QueryReady) => (
            SearchRun { stage: SearchStage::Count, ..run },
            SearchActionView::CountMatches,
        ),
        (SearchStage::Count, SearchEventView::Counted { total }) => if run.limit == 0 {
            (
                SearchRun { stage: SearchStage::Done, total, ..run },
                SearchActionView::Return { books: Seq::empty(), total },
            )
        } else {
            (
                SearchRun { stage: SearchStage::Page, total, ..run },
                SearchActionView::CollectPage { limit: run.limit, offset: run.offset },
            )
        },
        (SearchStage::Page, SearchEventView::Collected { books }) => (
            SearchRun { stage: SearchStage::Done, ..run },
            SearchActionView::Return { books, total: run.total },
        ),
        _ => nothing_found(run),
    }
}

impl SearchRun {
    /// A search for the page of `limit` results behind the `offset` best
    /// ones. It begins by asking for a snapshot of the index.
    pub fn start(limit: usize, offset: usize) -> (begin: (SearchRun, SearchAction))
        ensures
            begin.0 == (SearchRun { stage: SearchStage::Reader, limit, offset, total: 0 }),
            begin.1@ == SearchActionView::OpenReader,
    {
        (SearchRun { stage: SearchStage::Reader, limit, offset, total: 0 }, SearchAction::OpenReader)
    }

    /// The state of the search after `event`, and what is to be done next.
    pub fn step(self, event: SearchEvent) -> (after: (SearchRun, SearchAction))
        ensures
            (after.0, after.1@) == next(self, event@),
    {
        match (self.stage, event) {
            (SearchStage::Reader, SearchEvent::ReaderReady) => (
                SearchRun { stage: SearchStage::Query, ..self },
                SearchAction::BuildQuery,
            ),
            (SearchStage::Query, SearchEvent::QueryReady) => (
                SearchRun { stage: SearchStage::Count, ..self },
                SearchAction::CountMatches,
            ),
            (SearchStage::Count, SearchEvent::Counted { total }) => {
                if self.limit == 0 {
                    let books: Vec<Book> = Vec::new();
                    assert(book_views(books@) =~= Seq::<BookView>::empty());
                    (
                        SearchRun { stage: SearchStage::Done, total, ..self },
                        SearchAction::Return { books, total },
                    )
                } else {
                    (
                        SearchRun { stage: SearchStage::Page, total, ..self },
                        SearchAction::CollectPage { limit: self.limit, offset: self.offset },
                    )
                }
            },
            (SearchStage::Page, SearchEvent::Collected { books }) => (
                SearchRun { stage: SearchStage::Done, ..self },
                SearchAction::Return { books, total: self.total },
            ),
            _ => {
                let books: Vec<Book> = Vec::new();
                assert(book_views(books@) =~= Seq::<BookView>::empty());
                (
                    SearchRun { stage: SearchStage::Done, total: 0, ..self },
                    SearchAction::Return { books, total: 0 },
                )
            },
        }
    }
}

/// Whatever happens, a search that has failed hands back no results and
/// the count zero.
pub proof fn lemma_failure_finds_nothing(run: SearchRun)
    ensures
        next(run, SearchEventView::Failed).1 == (SearchActionView::Return {
            books: Seq::empty(),
            total: 0,
        }),
        next(run, SearchEventView::Failed).0.stage == SearchStage::Done,
{
}

} // verus!
