//! The fields of the index.

use vstd::prelude::*;

verus! {

/// A field of the index.
#[derive(Clone, Copy, Debug, PartialEq, Eq, Structural)]
pub enum Field {
    Id,
    Title,
    Author,
    Publisher,
    Extension,
    Filesize,
    Language,
    Year,
    Pages,
    Isbn,
    Md5,
    IpfsCid,
    CoverUrl,
    ScoreBoost,
}

/// How the text of a field is indexed.
#[derive(Clone, Copy, Debug, PartialEq, Eq, Structural)]
pub enum TextIndexing {
    /// The text is stored only.
    NotIndexed,
    /// The whole text is one term.
    Raw,
    /// The text goes through the engine's default tokenizer, with
    /// frequencies and positions.
    Default,
    /// The text goes through the meta tokenizer, with frequencies and
    /// positions.
    Meta,
}

/// What a field holds.
#[derive(Clone, Copy, Debug, PartialEq, Eq, Structural)]
pub enum FieldKind {
    /// An unsigned integer, indexed or not.
    U64 { indexed: bool },
    /// A text.
    Text { indexing: TextIndexing },
}

/// One field with its options.
#[derive(Clone, Copy, Debug, PartialEq, Eq, Structural)]
pub struct FieldEntry {
    pub field: Field,
    pub kind: FieldKind,
    /// The value can be read back from a document.
    pub stored: bool,
    /// The value is held in a column for fast access while scoring.
    pub fast: bool,
}

/// The name of a field in the index.
pub open spec fn field_name(field: Field) -> Seq<char> {
    match field {
        Field::Id => "id"@,
        Field::Title => "title"@,
        Field::Author => "author"@,
        Field::Publisher => "publisher"@,
        Field::Extension => "extension"@,
        Field::Filesize => "filesize"@,
        Field::Language => "language"@,
        Field::Year => "year"@,
        Field::Pages => "pages"@,
        Field::Isbn => "isbn"@,
        Field::Md5 => "md5"@,
        Field::IpfsCid => "ipfs_cid"@,
        Field::CoverUrl => "cover_url"@,
        Field::ScoreBoost => "score_boost"@,
    }
}

/// The options of a field.
pub open spec fn entry_of(field: Field) -> FieldEntry {
    match field {
        Field::Id => FieldEntry {
            field,
            kind: FieldKind::U64 { indexed: true },
            stored: true,
            fast: false,
        },
        Field::Title | Field::Author | Field::Publisher => FieldEntry {
            field,
            kind: FieldKind::Text { indexing: TextIndexing::Meta },
            stored: true,
            fast: false,
        },
        Field::Extension => FieldEntry {
            field,
            kind: FieldKind::Text { indexing: TextIndexing::Raw },
            stored: true,
            fast: false,
        },
        Field::Language | Field::Isbn => FieldEntry {
            field,
            kind: FieldKind::Text { indexing: TextIndexing::Default },
            stored: true,
            fast: false,
        },
        Field::Filesize | Field::Year => FieldEntry {
            field,
            kind: FieldKind::U64 { indexed: false },
            stored: true,
            fast: false,
        },
        Field::Pages => FieldEntry {
            field,
            kind: FieldKind::U64 { indexed: false },
            stored: true,
            fast: true,
        },
        Field::Md5 | Field::IpfsCid | Field::CoverUrl => FieldEntry {
            field,
            kind: FieldKind::Text { indexing: TextIndexing::NotIndexed },
            stored: true,
            fast: false,
        },
        Field::ScoreBoost => FieldEntry {
            field,
            kind: FieldKind::U64 { indexed: false },
            stored: false,
            fast: true,
        },
    }
}

/// The fields of the index, in the order in which they are declared.
pub open spec fn all_fields() -> Seq<Field> {
    seq![
        Field::Id,
        Field::Title,
        Field::Author,
        Field::Publisher,
        Field::Extension,
        Field::Filesize,
        Field::Language,
        Field::Year,
        Field::Pages,
        Field::Isbn,
        Field::Md5,
        Field::IpfsCid,
        Field::CoverUrl,
        Field::ScoreBoost,
    ]
}

impl Field {
    /// The name of the field in the index.
    pub fn name(&self) -> (name: &'static str)
        ensures
            name@ == field_name(*self),
    {
        match self {
            Field::Id => "id",
            Field::Title => "title",
            Field::Author => "author",
            Field::Publisher => "publisher",
            Field::Extension => "extension",
            Field::Filesize => "filesize",
            Field::Language => "language",
            Field::Year => "year",
            Field::Pages => "pages",
            Field::Isbn => "isbn",
            Field::Md5 => "md5",
            Field::IpfsCid => "ipfs_cid",
            Field::CoverUrl => "cover_url",
            Field::ScoreBoost => "score_boost",
        }
    }

    /// The options with which the field is declared.
    pub fn entry(&self) -> (entry: FieldEntry)
        ensures
            entry == entry_of(*self),
    {
        let field = *self;
        match field {
            Field::Id => FieldEntry {
                field,
                kind: FieldKind::U64 { indexed: true },
                stored: true,
                fast: false,
            },
            Field::Title | Field::Author | Field::Publisher => FieldEntry {
                field,
                kind: FieldKind::Text { indexing: TextIndexing::Meta },
                stored: true,
                fast: false,
            },
            Field::Extension => FieldEntry {
                field,
                kind: FieldKind::Text { indexing: TextIndexing::Raw },
                stored: true,
                fast: false,
            },
            Field::Language | Field::Isbn => FieldEntry {
                field,
                kind: FieldKind::Text { indexing: TextIndexing::Default },
                stored: true,
                fast: false,
            },
            Field::Filesize | Field::Year => FieldEntry {
                field,
                kind: FieldKind::U64 { indexed: false },
                stored: true,
                fast: false,
            },
            Field::Pages => FieldEntry {
                field,
                kind: FieldKind::U64 { indexed: false },
                stored: true,
                fast: true,
            },
            Field::Md5 | Field::IpfsCid | Field::CoverUrl => FieldEntry {
                field,
                kind: FieldKind::Text { indexing: TextIndexing::NotIndexed },
                stored: true,
                fast: false,
            },
            Field::ScoreBoost => FieldEntry {
                field,
                kind: FieldKind::U64 { indexed: false },
                stored: false,
                fast: true,
            },
        }
    }
}

/// The schema of the index: every field with its options, in the order of
/// declaration.
pub fn schema() -> (entries: Vec<FieldEntry>)
    ensures
        entries@ == all_fields().map_values(|f: Field| entry_of(f)),
{
    let mut entries: Vec<FieldEntry> = Vec::new();
    entries.push(Field::Id.entry());
    entries.push(Field::Title.entry());
    entries.push(Field::Author.entry());
    entries.push(Field::Publisher.entry());
    entries.push(Field::Extension.entry());
    entries.push(Field::Filesize.entry());
    entries.push(Field::Language.entry());
    entries.push(Field::Year.entry());
    entries.push(Field::Pages.entry());
    entries.push(Field::Isbn.entry());
    entries.push(Field::Md5.entry());
    entries.push(Field::IpfsCid.entry());
    entries.push(Field::CoverUrl.entry());
    entries.push(Field::ScoreBoost.entry());
    assert(entries@ =~= all_fields().map_values(|f: Field| entry_of(f)));
    entries
}

/// The fields that a free-text query is matched against.
pub fn default_search_fields() -> (fields: Vec<Field>)
    ensures
        fields@ == seq![Field::Title, Field::Author, Field::Publisher, Field::Isbn],
{
    let mut fields: Vec<Field> = Vec::new();
    fields.push(Field::Title);
    fields.push(Field::Author);
    fields.push(Field::Publisher);
    fields.push(Field::Isbn);
    assert(fields@ =~= seq![Field::Title, Field::Author, Field::Publisher, Field::Isbn]);
    fields
}

} // verus!
