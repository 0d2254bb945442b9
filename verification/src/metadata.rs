//! The metadata extractor: six fixed structural queries against the parsed
//! document, assembled into one [`BookInfo`]. Every field but possibly the
//! series is required: the first query with no matching element fails the
//! whole extraction, so no partial record ever escapes.

use vstd::prelude::*;
use vstd::string::*;

use crate::query::{first_attr, first_text, parse_markup, query_attr_raw, query_text_raw, sel_ok,
    QueryOutcome};
use crate::text::{spec_trim, trim_ws};

verus! {

/// Whether a page that declares no series is rejected. The record models the
/// series as optional, but the current page convention requires it; relaxing
/// that policy is meant to be this one switch.
pub const SERIES_REQUIRED: bool = true;

/// The attribute that holds the cover image location.
pub const COVER_ATTR: &'static str = "src";

/// The six metadata fields, in the order they are extracted.
#[derive(Clone, Copy, Debug, PartialEq, Eq, Structural)]
pub enum BookField {
    Title,
    Author,
    Series,
    Genre,
    Reader,
    CoverUrl,
}

/// Why metadata extraction failed.
#[derive(Clone, Copy, Debug, PartialEq, Eq, Structural)]
pub enum MetadataError {
    /// A structural query pattern is malformed (a programmer error, not a
    /// property of the page).
    Pattern,
    /// The named required field had no matching element.
    MissingField(BookField),
}

/// The fixed structural pattern that locates a field's element.
pub open spec fn spec_pattern(f: BookField) -> Seq<char> {
    match f {
        BookField::Title => "span.book_title_name"@,
        BookField::Author => "span.book_title_elem > span[itemprop=author] > a"@,
        BookField::Series => "div.book_serie_block_title > a"@,
        BookField::Genre => "div.book_genre_pretitle > a"@,
        BookField::Reader => "span.book_title_elem > a"@,
        BookField::CoverUrl => "div.book_cover > img"@,
    }
}

/// Executable counterpart of [`spec_pattern`].
fn field_pattern(f: BookField) -> (p: &'static str)
    ensures
        p@ == spec_pattern(f),
{
    match f {
        BookField::Title => "span.book_title_name",
        BookField::Author => "span.book_title_elem > span[itemprop=author] > a",
        BookField::Series => "div.book_serie_block_title > a",
        BookField::Genre => "div.book_genre_pretitle > a",
        BookField::Reader => "span.book_title_elem > a",
        BookField::CoverUrl => "div.book_cover > img",
    }
}

/// Whether extraction fails when the field's query finds nothing.
pub open spec fn spec_required(f: BookField) -> bool {
    match f {
        BookField::Series => SERIES_REQUIRED,
        _ => true,
    }
}

/// What the field's structural query answers on this markup: the raw text of
/// the first matching element, or the raw attribute value for the cover.
pub open spec fn spec_lookup(markup: Seq<char>, f: BookField) -> Option<Seq<char>> {
    match f {
        BookField::CoverUrl => first_attr(markup, spec_pattern(f), COVER_ATTR@),
        _ => first_text(markup, spec_pattern(f)),
    }
}

/// The field value that ends up in the record: text fields are trimmed of
/// surrounding whitespace, the cover attribute is kept verbatim.
pub open spec fn spec_field_value(markup: Seq<char>, f: BookField) -> Option<Seq<char>> {
    match spec_lookup(markup, f) {
        Option::Some(t) => Option::Some(
            match f {
                BookField::CoverUrl => t,
                _ => spec_trim(t),
            },
        ),
        Option::None => Option::None,
    }
}

/// The error that the field contributes, if any: a malformed pattern beats a
/// missing element, and an absent optional field is no error.
pub open spec fn spec_field_problem(markup: Seq<char>, f: BookField) -> Option<MetadataError> {
    if !sel_ok(spec_pattern(f)) {
        Option::Some(MetadataError::Pattern)
    } else if spec_lookup(markup, f) is None && spec_required(f) {
        Option::Some(MetadataError::MissingField(f))
    } else {
        Option::None
    }
}

/// The mathematical content of a [`BookInfo`].
pub struct BookInfoModel {
    pub title: Seq<char>,
    pub author: Seq<char>,
    pub series: Option<Seq<char>>,
    pub genre: Seq<char>,
    pub reader: Seq<char>,
    pub cover_url: Seq<char>,
}

/// The record extracted from markup on which every field's query succeeds.
pub open spec fn spec_info(markup: Seq<char>) -> BookInfoModel {
    BookInfoModel {
        title: spec_field_value(markup, BookField::Title)->0,
        author: spec_field_value(markup, BookField::Author)->0,
        series: if spec_lookup(markup, BookField::Series) is Some {
            Option::Some(spec_field_value(markup, BookField::Series)->0)
        } else {
            Option::None
        },
        genre: spec_field_value(markup, BookField::Genre)->0,
        reader: spec_field_value(markup, BookField::Reader)->0,
        cover_url: spec_field_value(markup, BookField::CoverUrl)->0,
    }
}

/// What metadata extraction comes back with, as a function of the markup.
pub enum InfoOutcome {
    Info(BookInfoModel),
    Fail(MetadataError),
}

/// The outcome of metadata extraction on this markup: the first field, in
/// extraction order, whose pattern is malformed or whose required element is
/// missing decides the error; otherwise the full record is produced.
pub open spec fn info_outcome(markup: Seq<char>) -> InfoOutcome {
    if spec_field_problem(markup, BookField::Title) is Some {
        InfoOutcome::Fail(spec_field_problem(markup, BookField::Title)->0)
    } else if spec_field_problem(markup, BookField::Author) is Some {
        InfoOutcome::Fail(spec_field_problem(markup, BookField::Author)->0)
    } else if spec_field_problem(markup, BookField::Series) is Some {
        InfoOutcome::Fail(spec_field_problem(markup, BookField::Series)->0)
    } else if spec_field_problem(markup, BookField::Genre) is Some {
        InfoOutcome::Fail(spec_field_problem(markup, BookField::Genre)->0)
    } else if spec_field_problem(markup, BookField::Reader) is Some {
        InfoOutcome::Fail(spec_field_problem(markup, BookField::Reader)->0)
    } else if spec_field_problem(markup, BookField::CoverUrl) is Some {
        InfoOutcome::Fail(spec_field_problem(markup, BookField::CoverUrl)->0)
    } else {
        InfoOutcome::Info(spec_info(markup))
    }
}

/// The book attributes read off the page. Construction is all-or-nothing:
/// [`extract_book_info`] either fills every field or fails.
#[derive(Debug, PartialEq, Eq)]
pub struct BookInfo {
    pub title: String,
    pub author: String,
    /// Declared series, when the page has one. The current page convention
    /// treats it as required; see [`SERIES_REQUIRED`].
    pub series: Option<String>,
    pub genre: String,
    pub reader: String,
    pub cover_url: String,
}

impl View for BookInfo {
    type V = BookInfoModel;

    open spec fn view(&self) -> BookInfoModel {
        BookInfoModel {
            title: self.title@,
            author: self.author@,
            series: match self.series {
                Option::Some(s) => Option::Some(s@),
                Option::None => Option::None,
            },
            genre: self.genre@,
            reader: self.reader@,
            cover_url: self.cover_url@,
        }
    }
}

/// The outcome that an executable result stands for.
pub open spec fn info_outcome_of(r: Result<BookInfo, MetadataError>) -> InfoOutcome {
    match r {
        Result::Ok(info) => InfoOutcome::Info(info@),
        Result::Err(e) => InfoOutcome::Fail(e),
    }
}

impl MetadataError {
    /// The message the error carries.
    pub open spec fn spec_message(&self) -> Seq<char> {
        match self {
            MetadataError::Pattern => "Bad pattern"@,
            MetadataError::MissingField(BookField::Title) => "No title"@,
            MetadataError::MissingField(BookField::Author) => "No author"@,
            MetadataError::MissingField(BookField::Series) => "No series"@,
            MetadataError::MissingField(BookField::Genre) => "No genre"@,
            MetadataError::MissingField(BookField::Reader) => "No reader"@,
            MetadataError::MissingField(BookField::CoverUrl) => "No cover"@,
        }
    }

    /// Renders the error for a caller that prints it.
    pub fn message(&self) -> (r: String)
        ensures
            r@ == self.spec_message(),
    {
        match self {
            MetadataError::Pattern => String::from_str("Bad pattern"),
            MetadataError::MissingField(BookField::Title) => String::from_str("No title"),
            MetadataError::MissingField(BookField::Author) => String::from_str("No author"),
            MetadataError::MissingField(BookField::Series) => String::from_str("No series"),
            MetadataError::MissingField(BookField::Genre) => String::from_str("No genre"),
            MetadataError::MissingField(BookField::Reader) => String::from_str("No reader"),
            MetadataError::MissingField(BookField::CoverUrl) => String::from_str("No cover"),
        }
    }
}

/// Answers one field's query on the parsed document.
fn run_field_query(d: &crate::query::Document, f: BookField) -> (r: QueryOutcome)
    ensures
        (r is BadPattern) == !sel_ok(spec_pattern(f)),
        sel_ok(spec_pattern(f)) ==> match spec_lookup(d@, f) {
            Option::Some(t) => r matches QueryOutcome::Found(v) && v@ == t,
            Option::None => r is Absent,
        },
{
    let pattern = field_pattern(f);
    match f {
        BookField::CoverUrl => query_attr_raw(d, pattern, COVER_ATTR),
        _ => query_text_raw(d, pattern),
    }
}

/// Fetches one field's value, applying the trimming and the required-field
/// policy: `Ok(Some(v))` is the field value, `Ok(None)` an absent optional
/// field, `Err` the error this field decides.
fn fetch_field(d: &crate::query::Document, f: BookField) -> (r: Result<
    Option<String>,
    MetadataError,
>)
    ensures
        match spec_field_problem(d@, f) {
            Option::Some(e) => r == Result::<Option<String>, MetadataError>::Err(e),
            Option::None => match spec_field_value(d@, f) {
                Option::Some(t) => r matches Result::Ok(Option::Some(v)) && v@ == t,
                Option::None => r == Result::<Option<String>, MetadataError>::Ok(
                    Option::<String>::None,
                ),
            },
        },
{
    match run_field_query(d, f) {
        QueryOutcome::BadPattern => Err(MetadataError::Pattern),
        QueryOutcome::Absent => {
            let required = match f {
                BookField::Series => SERIES_REQUIRED,
                _ => true,
            };
            if required {
                Err(MetadataError::MissingField(f))
            } else {
                Ok(None)
            }
        },
        QueryOutcome::Found(v) => {
            let value = match f {
                BookField::CoverUrl => v,
                _ => trim_ws(v.as_str()),
            };
            Ok(Some(value))
        },
    }
}

/// Assembles the book record from the page markup.
///
/// The outcome is a function of the markup text alone: either the full
/// record, or the error decided by the first field, in extraction order,
/// whose pattern is malformed or whose required element is missing.
pub fn extract_book_info(response: &str) -> (r: Result<BookInfo, MetadataError>)
    ensures
        info_outcome_of(r) == info_outcome(response@),
{
    let doc = parse_markup(response);
    let title = match fetch_field(&doc, BookField::Title) {
        Ok(v) => v,
        Err(e) => return Err(e),
    };
    let author = match fetch_field(&doc, BookField::Author) {
        Ok(v) => v,
        Err(e) => return Err(e),
    };
    let series = match fetch_field(&doc, BookField::Series) {
        Ok(v) => v,
        Err(e) => return Err(e),
    };
    let genre = match fetch_field(&doc, BookField::Genre) {
        Ok(v) => v,
        Err(e) => return Err(e),
    };
    let reader = match fetch_field(&doc, BookField::Reader) {
        Ok(v) => v,
        Err(e) => return Err(e),
    };
    let cover_url = match fetch_field(&doc, BookField::CoverUrl) {
        Ok(v) => v,
        Err(e) => return Err(e),
    };
    match (title, author, genre, reader, cover_url) {
        (Some(title), Some(author), Some(genre), Some(reader), Some(cover_url)) => Ok(
            BookInfo { title, author, series, genre, reader, cover_url },
        ),
        _ => {
            // Required fields were checked above; this arm is unreachable.
            proof {
                assert(false);
            }
            Err(MetadataError::Pattern)
        },
    }
}

/// Law: determinism. The outcome of metadata extraction is a function of the
/// markup text alone, so two results that the contract of
/// [`extract_book_info`] admits on the same text stand for the same outcome.
pub proof fn lemma_info_deterministic(
    markup: Seq<char>,
    r1: Result<BookInfo, MetadataError>,
    r2: Result<BookInfo, MetadataError>,
)
    requires
        info_outcome_of(r1) == info_outcome(markup),
        info_outcome_of(r2) == info_outcome(markup),
    ensures
        info_outcome_of(r1) == info_outcome_of(r2),
{
}

/// Law: required-field atomicity. On markup where some required field's
/// query finds no element (all patterns being well-formed), extraction
/// fails with a missing-field error: no partial record is produced.
pub proof fn lemma_required_field_atomicity(markup: Seq<char>, f: BookField)
    requires
        forall|g: BookField| #[trigger] sel_ok(spec_pattern(g)),
        spec_lookup(markup, f) is None,
        spec_required(f),
    ensures
        info_outcome(markup) matches InfoOutcome::Fail(MetadataError::MissingField(_)),
{
}

} // verus!
