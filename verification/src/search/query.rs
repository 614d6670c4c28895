//! The search request and the query that is built from it.

use vstd::prelude::*;
use crate::schema::Field;
use crate::searcher::Searcher;
use crate::text::{
    ascii_lowercase, parse_u64, parsed_u64, to_ascii_lowercase, trim, trimmed,
};
use crate::tokenizer::{token_views, TextAnalyzer, TokenView};

verus! {

/// How the parts of a request are combined.
#[derive(Clone, Copy, Debug, PartialEq, Eq, Structural)]
pub enum SearchMode {
    /// Every part must match.
    Filter,
    /// Any part may match.
    Explore,
}

impl Default for SearchMode {
    fn default() -> (mode: Self)
        ensures
            mode == SearchMode::Filter,
    {
        SearchMode::Filter
    }
}

/// A search request: either a free text in `query`, or values for single
/// fields.
#[derive(Debug)]
pub struct SearchQuery {
    pub title: Option<String>,
    pub author: Option<String>,
    pub publisher: Option<String>,
    pub extension: Option<String>,
    pub language: Option<String>,
    pub isbn: Option<String>,
    pub id: Option<String>,
    pub query: Option<String>,
    pub mode: SearchMode,
}

/// A search request as a mathematical value.
pub ghost struct SearchQueryView {
    pub title: Option<Seq<char>>,
    pub author: Option<Seq<char>>,
    pub publisher: Option<Seq<char>>,
    pub extension: Option<Seq<char>>,
    pub language: Option<Seq<char>>,
    pub isbn: Option<Seq<char>>,
    pub id: Option<Seq<char>>,
    pub query: Option<Seq<char>>,
    pub mode: SearchMode,
}

/// The text of an optional string.
pub open spec fn text_view(value: Option<String>) -> Option<Seq<char>> {
    match value {
        Some(s) => Some(s@),
        None => None,
    }
}

impl View for SearchQuery {
    type V = SearchQueryView;

    open spec fn view(&self) -> SearchQueryView {
        SearchQueryView {
            title: text_view(self.title),
            author: text_view(self.author),
            publisher: text_view(self.publisher),
            extension: text_view(self.extension),
            language: text_view(self.language),
            isbn: text_view(self.isbn),
            id: text_view(self.id),
            query: text_view(self.query),
            mode: self.mode,
        }
    }
}

/// The request that asks for nothing, in filter mode.
pub open spec fn empty_request() -> SearchQueryView {
    SearchQueryView {
        title: None,
        author: None,
        publisher: None,
        extension: None,
        language: None,
        isbn: None,
        id: None,
        query: None,
        mode: SearchMode::Filter,
    }
}

impl Default for SearchQuery {
    fn default() -> (request: Self)
        ensures
            request@ == empty_request(),
    {
        SearchQuery {
            title: None,
            author: None,
            publisher: None,
            extension: None,
            language: None,
            isbn: None,
            id: None,
            query: None,
            mode: SearchMode::Filter,
        }
    }
}

/// Whether a clause of a boolean query must match or may match.
#[derive(Clone, Copy, Debug, PartialEq, Eq, Structural)]
pub enum Occur {
    Must,
    Should,
}

/// What the index records of a term.
#[derive(Clone, Copy, Debug, PartialEq, Eq, Structural)]
pub enum IndexRecordOption {
    Basic,
    WithFreqs,
    WithFreqsAndPositions,
}

/// A value to look up in a field.
#[derive(Debug)]
pub enum Term {
    Text { field: Field, text: String },
    U64 { field: Field, value: u64 },
}

/// A term as a mathematical value.
pub ghost enum TermView {
    Text { field: Field, text: Seq<char> },
    U64 { field: Field, value: u64 },
}

impl View for Term {
    type V = TermView;

    open spec fn view(&self) -> TermView {
        match *self {
            Term::Text { field, text } => TermView::Text { field, text: text@ },
            Term::U64 { field, value } => TermView::U64 { field, value },
        }
    }
}

/// A query for the engine.
#[derive(Debug)]
pub enum Query {
    /// The documents that hold the term.
    Term { term: Term, option: IndexRecordOption },
    /// The documents that hold the terms at about their positions: at most
    /// `slop` slots off.
    Phrase { terms: Vec<(usize, Term)>, slop: u32 },
    /// The documents of `query`, with their score multiplied by `boost`.
    Boost { query: Box<Query>, boost: u32 },
    /// The documents that the clauses admit.
    Boolean { clauses: Vec<(Occur, Query)> },
}

/// A query as a mathematical value.
pub ghost enum QueryView {
    Term { term: TermView, option: IndexRecordOption },
    Phrase { terms: Seq<(nat, TermView)>, slop: nat },
    Boost { query: Box<QueryView>, boost: nat },
    Boolean { clauses: Seq<(Occur, QueryView)> },
}

/// The terms of a vector as mathematical values, each with its position.
pub open spec fn term_views(terms: Seq<(usize, Term)>) -> Seq<(nat, TermView)> {
    terms.map_values(|t: (usize, Term)| (t.0 as nat, t.1@))
}

impl Query {
    /// The query as a mathematical value.
    pub open spec fn model(self) -> QueryView
        decreases self,
    {
        match self {
            Query::Term { term, option } => QueryView::Term { term: term@, option },
            Query::Phrase { terms, slop } => QueryView::Phrase {
                terms: term_views(terms@),
                slop: slop as nat,
            },
            Query::Boost { query, boost } => QueryView::Boost {
                query: Box::new(query.model()),
                boost: boost as nat,
            },
            Query::Boolean { clauses } => QueryView::Boolean {
                clauses: Seq::new(
                    clauses@.len(),
                    |i: int|
                        (
                            clauses@[i].0,
                            if 0 <= i < clauses@.len() {
                                clauses@[i].1.model()
                            } else {
                                arbitrary()
                            },
                        ),
                ),
            },
        }
    }
}

impl View for Query {
    type V = QueryView;

    open spec fn view(&self) -> QueryView {
        self.model()
    }
}

/// The queries of a vector as mathematical values.
pub open spec fn query_views(queries: Seq<Query>) -> Seq<QueryView> {
    queries.map_values(|q: Query| q@)
}

/// What `parse` makes of a request.
#[derive(Debug)]
pub enum QueryPlan {
    /// The free text is to go through the engine's query parser, over the
    /// default search fields; its words are combined by "and" if
    /// `conjunction` is set, by "or" if not.
    Parse { text: String, conjunction: bool },
    /// The query that was built from the fields of the request.
    Built { query: Query },
}

/// A query plan as a mathematical value.
pub ghost enum QueryPlanView {
    Parse { text: Seq<char>, conjunction: bool },
    Built { query: QueryView },
}

impl View for QueryPlan {
    type V = QueryPlanView;

    open spec fn view(&self) -> QueryPlanView {
        match *self {
            QueryPlan::Parse { text, conjunction } => QueryPlanView::Parse {
                text: text@,
                conjunction,
            },
            QueryPlan::Built { query } => QueryPlanView::Built { query: query@ },
        }
    }
}

/// Why no query could be made of a request.
#[derive(Clone, Copy, Debug, PartialEq, Eq, Structural)]
pub enum QueryParserError {
    /// The request gives no free text and none of its fields yields a
    /// query.
    AllButQueryForbidden,
}

/// The slop of a phrase query.
pub const PHRASE_SLOP: u32 = 30;

/// The factor by which a match in the title counts more.
pub const TITLE_BOOST: u32 = 3;

/// The factor by which a match in the author counts more.
pub const AUTHOR_BOOST: u32 = 2;

/// The terms of the tokens of a field, each with the position of its token.
pub open spec fn terms_of(field: Field, tokens: Seq<TokenView>) -> Seq<(nat, TermView)> {
    tokens.map_values(|t: TokenView| (t.position, TermView::Text { field, text: t.text }))
}

/// The query for the terms of one text: none for no term, the term itself
/// for one, a phrase for more.
pub open spec fn phrase_or_term(terms: Seq<(nat, TermView)>) -> Option<QueryView> {
    if terms.len() == 0 {
        None
    } else if terms.len() > 1 {
        Some(QueryView::Phrase { terms, slop: PHRASE_SLOP as nat })
    } else {
        Some(
            QueryView::Term { term: terms[0].1, option: IndexRecordOption::WithFreqsAndPositions },
        )
    }
}

/// How the clauses of a mode occur: all must in filter mode, any should in
/// explore mode.
pub open spec fn occur_of(mode: SearchMode) -> Occur {
    match mode {
        SearchMode::Filter => Occur::Must,
        SearchMode::Explore => Occur::Should,
    }
}

/// The boolean query over `queries` in the mode `mode`; none for no query.
pub open spec fn bool_query(queries: Seq<QueryView>, mode: SearchMode) -> Option<QueryView> {
    if queries.len() == 0 {
        None
    } else {
        Some(
            QueryView::Boolean {
                clauses: queries.map_values(|q: QueryView| (occur_of(mode), q)),
            },
        )
    }
}

/// The boolean query over one basic term query for each term; none for no
/// term.
pub open spec fn terms_query(terms: Seq<(nat, TermView)>, mode: SearchMode) -> Option<QueryView> {
    bool_query(
        terms.map_values(
            |t: (nat, TermView)| QueryView::Term { term: t.1, option: IndexRecordOption::Basic },
        ),
        mode,
    )
}

/// The terms of `value` in the field `field`, each with the position of its
/// token.
pub fn get_positions_and_terms(field: Field, value: &str, analyzer: &TextAnalyzer) -> (terms: Vec<
    (usize, Term),
>)
    ensures
        term_views(terms@) == terms_of(field, analyzer.tokens_of(value@)),
{
    let tokens = analyzer.token_stream(value).into_remaining();
    let mut terms: Vec<(usize, Term)> = Vec::new();
    let mut i: usize = 0;
    while i < tokens.len()
        invariant
            i <= tokens.len(),
            terms@.len() == i,
            forall|k: int|
                0 <= k < i ==> (#[trigger] terms@[k]).0 == tokens@[k].position && terms@[k].1@ == (
                TermView::Text { field, text: tokens@[k].text@ }),
        decreases tokens.len() - i,
    {
        terms.push((tokens[i].position, Term::Text { field, text: tokens[i].text.clone() }));
        i = i + 1;
    }
    assert(term_views(terms@) =~= terms_of(field, token_views(tokens@)));
    assert(token_views(tokens@) =~= analyzer.tokens_of(value@));
    terms
}

/// The terms of `value` in the field `field`.
pub fn get_terms(field: Field, value: &str, analyzer: &TextAnalyzer) -> (terms: Vec<Term>)
    ensures
        terms@.map_values(|t: Term| t@) == terms_of(field, analyzer.tokens_of(value@)).map_values(
            |t: (nat, TermView)| t.1,
        ),
{
    let tokens = analyzer.token_stream(value).into_remaining();
    let mut terms: Vec<Term> = Vec::new();
    let mut i: usize = 0;
    while i < tokens.len()
        invariant
            i <= tokens.len(),
            terms@.len() == i,
            forall|k: int|
                0 <= k < i ==> (#[trigger] terms@[k])@ == (TermView::Text {
                    field,
                    text: tokens@[k].text@,
                }),
        decreases tokens.len() - i,
    {
        terms.push(Term::Text { field, text: tokens[i].text.clone() });
        i = i + 1;
    }
    assert(token_views(tokens@) =~= analyzer.tokens_of(value@));
    assert(terms@.map_values(|t: Term| t@) =~= terms_of(
        field,
        token_views(tokens@),
    ).map_values(|t: (nat, TermView)| t.1));
    terms
}

/// The query for the terms of one text: none for no term, the term itself
/// for one, and for more a phrase with the slop 30.
pub fn phrase_or_term_query(terms: Vec<(usize, Term)>) -> (query: Option<Query>)
    ensures
        match query {
            Some(q) => phrase_or_term(term_views(terms@)) == Some(q@),
            None => phrase_or_term(term_views(terms@)) is None,
        },
{
    if terms.len() == 0 {
        return None;
    }
    if terms.len() > 1 {
        return Some(Query::Phrase { terms, slop: PHRASE_SLOP });
    }
    let mut terms = terms;
    let ghost first = terms@[0];
    let (_, term) = terms.pop().unwrap();
    assert(term == first.1);
    Some(Query::Term { term, option: IndexRecordOption::WithFreqsAndPositions })
}

/// The boolean query over `queries`: each of them must match in filter
/// mode, and may match in explore mode. None for no query.
pub fn new_bool_query(queries: Vec<Query>, mode: SearchMode) -> (query: Option<Query>)
    ensures
        match query {
            Some(q) => bool_query(query_views(queries@), mode) == Some(q@),
            None => bool_query(query_views(queries@), mode) is None,
        },
{
    if queries.len() == 0 {
        return None;
    }
    let occur = match mode {
        SearchMode::Filter => Occur::Must,
        SearchMode::Explore => Occur::Should,
    };
    let ghost all = queries@;
    let mut clauses: Vec<(Occur, Query)> = Vec::new();
    for q in it: queries
        invariant
            it.seq() == all,
            occur == occur_of(mode),
            clauses@.len() == it.index(),
            forall|k: int|
                0 <= k < it.index() ==> (#[trigger] clauses@[k]).0 == occur && clauses@[k].1
                    == all[k],
    {
        clauses.push((occur, q));
    }
    let built = Query::Boolean { clauses };
    assert(built@->Boolean_clauses =~= query_views(all).map_values(
        |q: QueryView| (occur_of(mode), q),
    ));
    Some(built)
}

/// The boolean query over one basic term query for each of `terms`. None
/// for no term.
pub fn new_terms_query(terms: Vec<(usize, Term)>, mode: SearchMode) -> (query: Option<Query>)
    ensures
        match query {
            Some(q) => terms_query(term_views(terms@), mode) == Some(q@),
            None => terms_query(term_views(terms@), mode) is None,
        },
{
    if terms.len() == 0 {
        return None;
    }
    let ghost all = terms@;
    let mut queries: Vec<Query> = Vec::new();
    for t in it: terms
        invariant
            it.seq() == all,
            queries@.len() == it.index(),
            forall|k: int|
                0 <= k < it.index() ==> (#[trigger] queries@[k])@ == (QueryView::Term {
                    term: all[k].1@,
                    option: IndexRecordOption::Basic,
                }),
    {
        queries.push(Query::Term { term: t.1, option: IndexRecordOption::Basic });
    }
    assert(query_views(queries@) =~= term_views(all).map_values(
        |t: (nat, TermView)| QueryView::Term { term: t.1, option: IndexRecordOption::Basic },
    ));
    new_bool_query(queries, mode)
}

/// The sequence of the query, if there is one.
pub open spec fn present(query: Option<QueryView>) -> Seq<QueryView> {
    match query {
        Some(q) => seq![q],
        None => Seq::empty(),
    }
}

/// The query with its score multiplied by `boost`, if there is one.
pub open spec fn boosted(query: Option<QueryView>, boost: nat) -> Option<QueryView> {
    match query {
        Some(q) => Some(QueryView::Boost { query: Box::new(q), boost }),
        None => None,
    }
}

/// A value of a categorical field as it is looked up: in ASCII lower case
/// and trimmed.
pub open spec fn keyword(value: Seq<char>) -> Seq<char> {
    trimmed(ascii_lowercase(value))
}

/// The query for a text field: the phrase or term of the tokens of its
/// value.
pub open spec fn phrase_field(
    analyzer: TextAnalyzer,
    field: Field,
    value: Option<Seq<char>>,
) -> Option<QueryView> {
    match value {
        Some(v) => phrase_or_term(terms_of(field, analyzer.tokens_of(v))),
        None => None,
    }
}

/// The query for a categorical field: one term for each token of its
/// keyword, combined in the mode of the request.
pub open spec fn category_field(
    analyzer: TextAnalyzer,
    field: Field,
    value: Option<Seq<char>>,
    mode: SearchMode,
) -> Option<QueryView> {
    match value {
        Some(v) => terms_query(terms_of(field, analyzer.tokens_of(keyword(v))), mode),
        None => None,
    }
}

/// The query for the ISBN: its keyword as one term.
pub open spec fn isbn_field(value: Option<Seq<char>>) -> Option<QueryView> {
    match value {
        Some(v) => Some(
            QueryView::Term {
                term: TermView::Text { field: Field::Isbn, text: keyword(v) },
                option: IndexRecordOption::WithFreqsAndPositions,
            },
        ),
        None => None,
    }
}

/// The query for the identifier: the number that the value spells; none if
/// it spells none.
pub open spec fn id_field(value: Option<Seq<char>>) -> Option<QueryView> {
    match value {
        Some(v) => match parsed_u64(v) {
            Some(id) => Some(
                QueryView::Term {
                    term: TermView::U64 { field: Field::Id, value: id },
                    option: IndexRecordOption::Basic,
                },
            ),
            None => None,
        },
        None => None,
    }
}

/// The queries of the fields of a request, in the order title, author,
/// publisher, extension, language, ISBN, identifier. The title counts
/// three times, the author twice.
pub open spec fn field_queries(request: SearchQueryView, analyzer: TextAnalyzer) -> Seq<
    QueryView,
> {
    present(boosted(phrase_field(analyzer, Field::Title, request.title), TITLE_BOOST as nat))
        + present(
        boosted(phrase_field(analyzer, Field::Author, request.author), AUTHOR_BOOST as nat),
    ) + present(phrase_field(analyzer, Field::Publisher, request.publisher)) + present(
        category_field(analyzer, Field::Extension, request.extension, request.mode),
    ) + present(category_field(analyzer, Field::Language, request.language, request.mode))
        + present(isbn_field(request.isbn)) + present(id_field(request.id))
}

/// What is made of a request. A free text goes to the engine's parser,
/// with "and" between its words in filter mode and "or" in explore mode,
/// and the fields are not looked at. Without a free text the queries of the
/// fields are combined in the mode of the request; if there is none, the
/// request is refused.
pub open spec fn plan_of(request: SearchQueryView, analyzer: TextAnalyzer) -> Result<
    QueryPlanView,
    QueryParserError,
> {
    match request.query {
        Some(raw) => Ok(
            QueryPlanView::Parse { text: raw, conjunction: request.mode == SearchMode::Filter },
        ),
        None => match bool_query(field_queries(request, analyzer), request.mode) {
            Some(query) => Ok(QueryPlanView::Built { query }),
            None => Err(QueryParserError::AllButQueryForbidden),
        },
    }
}

/// The query with its score multiplied by `boost`, if there is one.
pub fn boost_query(query: Option<Query>, boost: u32) -> (boosted_query: Option<Query>)
    ensures
        match boosted_query {
            Some(b) => boosted(query_view(query), boost as nat) == Some(b@),
            None => boosted(query_view(query), boost as nat) is None,
        },
{
    match query {
        Some(q) => Some(Query::Boost { query: Box::new(q), boost }),
        None => None,
    }
}

/// An optional query as a mathematical value.
pub open spec fn query_view(query: Option<Query>) -> Option<QueryView> {
    match query {
        Some(q) => Some(q@),
        None => None,
    }
}

fn push_query(queries: &mut Vec<Query>, query: Option<Query>)
    ensures
        query_views(final(queries)@) == query_views(old(queries)@) + present(query_view(query)),
{
    match query {
        Some(q) => {
            queries.push(q);
            assert(query_views(queries@) =~= query_views(old(queries)@) + seq![q@]);
        },
        None => {
            assert(query_views(queries@) =~= query_views(old(queries)@) + Seq::<
                QueryView,
            >::empty());
        },
    }
}

fn keyword_of(value: &str) -> (word: String)
    ensures
        word@ == keyword(value@),
{
    let lower = to_ascii_lowercase(value);
    let inner = trim(lower.as_str());
    inner.to_owned()
}

impl SearchQuery {
    /// The request for the free text `query`, in filter mode.
    pub fn new_query(query: String) -> (request: Self)
        ensures
            request@ == (SearchQueryView { query: Some(query@), ..empty_request() }),
    {
        SearchQuery {
            title: None,
            author: None,
            publisher: None,
            extension: None,
            language: None,
            isbn: None,
            id: None,
            query: Some(query),
            mode: SearchMode::Filter,
        }
    }

    /// What is to be searched for this request, with the tokens of the
    /// analyzer of `searcher`; or the refusal of a request that asks for
    /// nothing.
    pub fn parse(&self, searcher: &Searcher) -> (plan: Result<QueryPlan, QueryParserError>)
        ensures
            match plan {
                Ok(p) => plan_of(self@, searcher.tokenizer) == Ok::<
                    QueryPlanView,
                    QueryParserError,
                >(p@),
                Err(e) => plan_of(self@, searcher.tokenizer) == Err::<
                    QueryPlanView,
                    QueryParserError,
                >(e),
            },
    {
        let analyzer = &searcher.tokenizer;
        match &self.query {
            Some(raw) => {
                let conjunction = match self.mode {
                    SearchMode::Filter => true,
                    SearchMode::Explore => false,
                };
                return Ok(QueryPlan::Parse { text: raw.clone(), conjunction });
            },
            None => {},
        }
        let mut queries: Vec<Query> = Vec::new();
        assert(query_views(queries@) =~= Seq::<QueryView>::empty());

        let title = match &self.title {
            Some(title) => boost_query(
                phrase_or_term_query(get_positions_and_terms(Field::Title, title.as_str(), analyzer)),
                TITLE_BOOST,
            ),
            None => None,
        };
        push_query(&mut queries, title);

        let author = match &self.author {
            Some(author) => boost_query(
                phrase_or_term_query(
                    get_positions_and_terms(Field::Author, author.as_str(), analyzer),
                ),
                AUTHOR_BOOST,
            ),
            None => None,
        };
        push_query(&mut queries, author);

        let publisher = match &self.publisher {
            Some(publisher) => phrase_or_term_query(
                get_positions_and_terms(Field::Publisher, publisher.as_str(), analyzer),
            ),
            None => None,
        };
        push_query(&mut queries, publisher);

        let extension = match &self.extension {
            Some(extension) => {
                let word = keyword_of(extension.as_str());
                new_terms_query(
                    get_positions_and_terms(Field::Extension, word.as_str(), analyzer),
                    self.mode,
                )
            },
            None => None,
        };
        push_query(&mut queries, extension);

        let language = match &self.language {
            Some(language) => {
                let word = keyword_of(language.as_str());
                new_terms_query(
                    get_positions_and_terms(Field::Language, word.as_str(), analyzer),
                    self.mode,
                )
            },
            None => None,
        };
        push_query(&mut queries, language);

        let isbn = match &self.isbn {
            Some(isbn) => Some(
                Query::Term {
                    term: Term::Text { field: Field::Isbn, text: keyword_of(isbn.as_str()) },
                    option: IndexRecordOption::WithFreqsAndPositions,
                },
            ),
            None => None,
        };
        push_query(&mut queries, isbn);

        let id = match &self.id {
            Some(id) => match parse_u64(id.as_str()) {
                Some(value) => Some(
                    Query::Term {
                        term: Term::U64 { field: Field::Id, value },
                        option: IndexRecordOption::Basic,
                    },
                ),
                None => None,
            },
            None => None,
        };
        push_query(&mut queries, id);

        assert(query_views(queries@) =~= field_queries(self@, *analyzer));
        match new_bool_query(queries, self.mode) {
            Some(query) => Ok(QueryPlan::Built { query }),
            None => Err(QueryParserError::AllButQueryForbidden),
        }
    }
}

/// In a query that was built from the fields of a request, there is one
/// clause for each query of a field, and every clause occurs as the mode of
/// the request says: all must match in filter mode, any may match in explore
/// mode.
pub proof fn lemma_clauses_follow_mode(request: SearchQueryView, analyzer: TextAnalyzer)
    requires
        request.query is None,
        field_queries(request, analyzer).len() > 0,
    ensures
        plan_of(request, analyzer) matches Ok(QueryPlanView::Built {
            query: QueryView::Boolean { clauses },
        }) && clauses.len() == field_queries(request, analyzer).len() && forall|i: int|
            0 <= i < clauses.len() ==> (#[trigger] clauses[i]).0 == occur_of(request.mode)
                && clauses[i].1 == field_queries(request, analyzer)[i],
{
}

/// A request is refused exactly where it gives no free text and none of its
/// fields yields a query.
pub proof fn lemma_refused_iff_empty(request: SearchQueryView, analyzer: TextAnalyzer)
    ensures
        plan_of(request, analyzer) is Err <==> request.query is None && field_queries(
            request,
            analyzer,
        ).len() == 0,
{
}

} // verus!
