//! The document query engine: a lenient parse of raw markup into a queryable
//! tree, and structural lookups against it, both supplied by the `scraper`
//! crate behind trusted wrappers.
//!
//! The outcome of a lookup is a pure function of the markup text and the
//! selector pattern: `scraper` parses deterministically and `Html::select`
//! walks the tree in document order. The uninterpreted functions below name
//! those outcomes so that the callers' contracts can speak about them.

use vstd::prelude::*;

verus! {

#[verifier::external_type_specification]
#[verifier::external_body]
pub struct ExHtml(scraper::Html);

/// Whether `scraper::Selector::parse` accepts the pattern. Selector parsing
/// depends on the pattern text alone.
pub uninterp spec fn sel_ok(pattern: Seq<char>) -> bool;

/// The text content — the concatenated descendant text nodes — of the first
/// element, in document order, of the parsed document of `markup` that
/// matches the pattern; `None` when no element matches. Names the combined
/// result of `scraper::Html::select` and `scraper::ElementRef::text`, which
/// depends on the document and the pattern alone.
pub uninterp spec fn first_text(markup: Seq<char>, pattern: Seq<char>) -> Option<Seq<char>>;

/// The value of the named attribute on the first element, in document order,
/// of the parsed document of `markup` that matches the pattern; `None` when
/// no element matches or the first match lacks the attribute. Names the
/// combined result of `scraper::Html::select` and `scraper::ElementRef::attr`.
pub uninterp spec fn first_attr(
    markup: Seq<char>,
    pattern: Seq<char>,
    attr: Seq<char>,
) -> Option<Seq<char>>;

/// A parsed document, paired with the text it was parsed from so that query
/// results can be stated as functions of that text.
///
/// The query wrappers' contracts speak of the ghost `markup` while their
/// bodies read the parsed tree; that coupling is sound only because
/// [`parse_markup`] is this type's one constructor and sets both fields from
/// the same text. Any further constructor must keep that pairing.
pub struct Document {
    html: scraper::Html,
    markup: Ghost<Seq<char>>,
}

impl View for Document {
    type V = Seq<char>;

    closed spec fn view(&self) -> Seq<char> {
        self.markup@
    }
}

/// What one structural lookup can come back with.
pub enum QueryOutcome {
    /// The first matching element's text or attribute value, untrimmed.
    Found(String),
    /// No element matches, or the first match lacks the attribute.
    Absent,
    /// The selector pattern itself is malformed.
    BadPattern,
}

/// Relies on `scraper::Html::parse_document`: a lenient parse that consumes
/// any input text and always yields a document, possibly structurally empty.
#[verifier::external_body]
fn parse_document_raw(markup: &str) -> scraper::Html {
    scraper::Html::parse_document(markup)
}

/// Parses raw markup once; the queries below then run against the result.
pub(crate) fn parse_markup(markup: &str) -> (d: Document)
    ensures
        d@ == markup@,
{
    Document { html: parse_document_raw(markup), markup: Ghost(markup@) }
}

/// Relies on `scraper::Selector::parse` to reject malformed patterns, and on
/// `scraper::Html::select` followed by `scraper::ElementRef::text` to hand
/// back the text content of the first match in document order.
#[verifier::external_body]
pub(crate) fn query_text_raw(d: &Document, pattern: &str) -> (r: QueryOutcome)
    ensures
        (r is BadPattern) == !sel_ok(pattern@),
        sel_ok(pattern@) ==> match first_text(d@, pattern@) {
            Option::Some(t) => r matches QueryOutcome::Found(f) && f@ == t,
            Option::None => r is Absent,
        },
{
    match scraper::Selector::parse(pattern) {
        Ok(sel) => match d.html.select(&sel).next() {
            Some(el) => QueryOutcome::Found(el.text().collect::<String>()),
            None => QueryOutcome::Absent,
        },
        Err(_) => QueryOutcome::BadPattern,
    }
}

/// Relies on `scraper::Selector::parse` to reject malformed patterns, and on
/// `scraper::Html::select` followed by `scraper::ElementRef::attr` to hand
/// back the named attribute of the first match in document order.
#[verifier::external_body]
pub(crate) fn query_attr_raw(d: &Document, pattern: &str, attr: &str) -> (r: QueryOutcome)
    ensures
        (r is BadPattern) == !sel_ok(pattern@),
        sel_ok(pattern@) ==> match first_attr(d@, pattern@, attr@) {
            Option::Some(t) => r matches QueryOutcome::Found(f) && f@ == t,
            Option::None => r is Absent,
        },
{
    match scraper::Selector::parse(pattern) {
        Ok(sel) => match d.html.select(&sel).next() {
            Some(el) => match el.attr(attr) {
                Some(v) => QueryOutcome::Found(v.to_owned()),
                None => QueryOutcome::Absent,
            },
            None => QueryOutcome::Absent,
        },
        Err(_) => QueryOutcome::BadPattern,
    }
}

} // verus!
