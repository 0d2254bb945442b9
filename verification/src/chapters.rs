//! The chapter pipeline: locate the player invocation in the raw markup,
//! isolate its argument list, decode it against the fixed positional schema,
//! and hand back the chapter sequence from the second position.
//!
//! The schema asks for exactly eight positions; position 1 must be an array
//! of chapter objects, positions 2 and 3 must be arrays, the rest are
//! decoded as opaque values and discarded.

use vstd::prelude::*;
use vstd::string::*;

use crate::decoder::{chapter_items, chapter_items_x, cmodels, top_args, top_args_x, BookChapter,
    ChapterModel};
use crate::locator::{find_prefix, find_prefix_from, lemma_scan_close_bounds, scan_close,
    scan_close_from, PLAYER_PREFIX};
use crate::text::{copy_range, to_chars};

verus! {

/// How the decoded payload misses the schema.
#[derive(Clone, Copy, Debug, PartialEq, Eq, Structural)]
pub enum SchemaDetail {
    /// The argument tuple does not have exactly eight positions.
    WrongArity,
    /// The second position is not an array of complete chapter objects.
    BadChapter,
    /// The third or the fourth position is not an array.
    PositionNotArray,
}

/// Why chapter extraction failed.
#[derive(Clone, Copy, Debug, PartialEq, Eq, Structural)]
pub enum ChapterError {
    /// The player invocation is absent from the page text.
    PayloadNotFound,
    /// The isolated payload is not valid structured-literal syntax.
    DecodeSyntax,
    /// The payload parses but violates the expected tuple or record shape.
    SchemaMismatch(SchemaDetail),
}

impl ChapterError {
    /// The message the error carries.
    pub open spec fn spec_message(&self) -> Seq<char> {
        match self {
            ChapterError::PayloadNotFound => "No match found"@,
            ChapterError::DecodeSyntax => "Invalid payload syntax"@,
            ChapterError::SchemaMismatch(_) => "Payload shape mismatch"@,
        }
    }

    /// Renders the error for a caller that prints it.
    pub fn message(&self) -> (r: String)
        ensures
            r@ == self.spec_message(),
    {
        match self {
            ChapterError::PayloadNotFound => String::from_str("No match found"),
            ChapterError::DecodeSyntax => String::from_str("Invalid payload syntax"),
            ChapterError::SchemaMismatch(_) => String::from_str("Payload shape mismatch"),
        }
    }
}

/// What decoding an isolated payload can come to.
pub enum DecodeOutcome {
    Chapters(Seq<ChapterModel>),
    Syntax,
    Schema(SchemaDetail),
}

/// The outcome of decoding the capture `s` against the positional schema.
pub open spec fn decode_payload(s: Seq<char>) -> DecodeOutcome {
    match top_args(s, 0, false, Seq::empty()) {
        Option::None => DecodeOutcome::Syntax,
        Option::Some(spans) => if spans.len() != 8 {
            DecodeOutcome::Schema(SchemaDetail::WrongArity)
        } else {
            let a1 = spans[1].0;
            if !(0 <= a1 < s.len()) {
                DecodeOutcome::Schema(SchemaDetail::BadChapter)
            } else if s[a1] != '[' {
                DecodeOutcome::Schema(SchemaDetail::BadChapter)
            } else {
                match chapter_items(s, a1 + 1, false, Seq::empty()) {
                    Option::None => DecodeOutcome::Schema(SchemaDetail::BadChapter),
                    Option::Some((ms, e)) => {
                        let a2 = spans[2].0;
                        let a3 = spans[3].0;
                        if !(0 <= a2 < s.len() && 0 <= a3 < s.len()) {
                            DecodeOutcome::Schema(SchemaDetail::PositionNotArray)
                        } else if s[a2] != '[' || s[a3] != '[' {
                            DecodeOutcome::Schema(SchemaDetail::PositionNotArray)
                        } else {
                            DecodeOutcome::Chapters(ms)
                        }
                    },
                }
            }
        },
    }
}

/// Whether an executable decode result stands for the given outcome.
pub open spec fn decode_result_matches(
    r: Result<Vec<BookChapter>, ChapterError>,
    d: DecodeOutcome,
) -> bool {
    match r {
        Result::Ok(ch) => d == DecodeOutcome::Chapters(cmodels(ch@)),
        Result::Err(ChapterError::DecodeSyntax) => d is Syntax,
        Result::Err(ChapterError::SchemaMismatch(x)) => d == DecodeOutcome::Schema(x),
        Result::Err(ChapterError::PayloadNotFound) => false,
    }
}

/// Decodes the isolated argument text.
fn decode_payload_x(cap: &Vec<char>) -> (r: Result<Vec<BookChapter>, ChapterError>)
    ensures
        decode_result_matches(r, decode_payload(cap@)),
{
    match top_args_x(cap) {
        None => Err(ChapterError::DecodeSyntax),
        Some(spans) => {
            if spans.len() != 8 {
                return Err(ChapterError::SchemaMismatch(SchemaDetail::WrongArity));
            }
            let (a1, _b1) = spans[1];
            if cap[a1] != '[' {
                return Err(ChapterError::SchemaMismatch(SchemaDetail::BadChapter));
            }
            match chapter_items_x(cap, a1 + 1) {
                None => Err(ChapterError::SchemaMismatch(SchemaDetail::BadChapter)),
                Some((ms, _e)) => {
                    let (a2, _b2) = spans[2];
                    let (a3, _b3) = spans[3];
                    if cap[a2] != '[' || cap[a3] != '[' {
                        Err(ChapterError::SchemaMismatch(SchemaDetail::PositionNotArray))
                    } else {
                        Ok(ms)
                    }
                },
            }
        },
    }
}

/// What chapter extraction comes back with, as a function of the page text.
pub enum ChapterOutcome {
    Chapters(Seq<ChapterModel>),
    NoPayload,
    Syntax,
    Schema(SchemaDetail),
}

/// A decode outcome, seen from the whole pipeline.
pub open spec fn lift_decode(d: DecodeOutcome) -> ChapterOutcome {
    match d {
        DecodeOutcome::Chapters(ms) => ChapterOutcome::Chapters(ms),
        DecodeOutcome::Syntax => ChapterOutcome::Syntax,
        DecodeOutcome::Schema(x) => ChapterOutcome::Schema(x),
    }
}

/// Where the chapter payload lies: the capture's bounds, or what stopped the
/// search.
pub enum LocateOutcome {
    /// The argument text spans these positions.
    Found(int, int),
    /// No invocation stands anywhere in the text.
    NoInvocation,
    /// Invocations stand in the text, but none closes properly.
    NoClose,
}

/// Searches the invocation occurrences at or after `i`: the first one whose
/// argument list closes — a `)` outside string literals, followed at once by
/// `;` — decides the capture; an occurrence without such a close is passed
/// over and the search goes on from the next one, as a single-pattern text
/// search would. `saw` records whether an occurrence was passed over.
pub open spec fn locate_from(s: Seq<char>, i: int, saw: bool) -> LocateOutcome
    decreases s.len() - i,
    when 0 <= i
{
    match find_prefix_from(s, PLAYER_PREFIX@, i) {
        Option::None => if saw {
            LocateOutcome::NoClose
        } else {
            LocateOutcome::NoInvocation
        },
        Option::Some(pos) => {
            let a = pos + PLAYER_PREFIX@.len();
            if !(i <= pos && pos + 1 <= s.len() && a <= s.len()) {
                LocateOutcome::NoClose
            } else {
                match scan_close(s, a, false, false) {
                    Option::Some(c) => if a <= c && c + 1 < s.len() && s[c + 1] == ';' {
                        LocateOutcome::Found(a, c)
                    } else {
                        locate_from(s, pos + 1, true)
                    },
                    Option::None => locate_from(s, pos + 1, true),
                }
            }
        },
    }
}

/// The outcome of chapter extraction on this page text: no invocation means
/// no payload; invocations whose argument lists never close properly are
/// invalid; otherwise the first well-closed capture is decoded against the
/// schema.
pub open spec fn chapter_outcome(html: Seq<char>) -> ChapterOutcome {
    match locate_from(html, 0, false) {
        LocateOutcome::NoInvocation => ChapterOutcome::NoPayload,
        LocateOutcome::NoClose => ChapterOutcome::Syntax,
        LocateOutcome::Found(a, c) => if 0 <= a <= c <= html.len() {
            lift_decode(decode_payload(html.subrange(a, c)))
        } else {
            ChapterOutcome::Syntax
        },
    }
}

/// The outcome that an executable result stands for.
pub open spec fn chapter_outcome_of(r: Result<Vec<BookChapter>, ChapterError>) -> ChapterOutcome {
    match r {
        Result::Ok(v) => ChapterOutcome::Chapters(cmodels(v@)),
        Result::Err(ChapterError::PayloadNotFound) => ChapterOutcome::NoPayload,
        Result::Err(ChapterError::DecodeSyntax) => ChapterOutcome::Syntax,
        Result::Err(ChapterError::SchemaMismatch(x)) => ChapterOutcome::Schema(x),
    }
}

/// Recovers the ordered chapter sequence embedded in the page markup.
///
/// The outcome is a function of the page text alone: the chapters decoded
/// from the first player invocation's argument list, or the error naming
/// which stage failed.
pub fn extract_book_chapters(html: &str) -> (r: Result<Vec<BookChapter>, ChapterError>)
    ensures
        chapter_outcome_of(r) == chapter_outcome(html@),
{
    let v = to_chars(html);
    let p = to_chars(PLAYER_PREFIX);
    proof {
        reveal_strlit("var player = new BookPlayer(");
    }
    let n = v.len();
    let mut start: usize = 0;
    let mut saw: bool = false;
    loop
        invariant
            n == v@.len(),
            p@ == PLAYER_PREFIX@,
            1 <= p@.len(),
            start <= n,
            locate_from(html@, 0, false) == locate_from(v@, start as int, saw),
            v@ == html@,
        decreases n - start,
    {
        match find_prefix(&v, &p, start) {
            None => {
                if saw {
                    return Err(ChapterError::DecodeSyntax);
                } else {
                    return Err(ChapterError::PayloadNotFound);
                }
            },
            Some(pos) => {
                proof {
                    assert(pos + p@.len() <= n);
                }
                let a = pos + p.len();
                match scan_close_from(&v, a) {
                    Some(c) => {
                        if c + 1 < n && v[c + 1] == ';' {
                            let cap = copy_range(&v, a, c);
                            return decode_payload_x(&cap);
                        } else {
                            start = pos + 1;
                            saw = true;
                        }
                    },
                    None => {
                        start = pos + 1;
                        saw = true;
                    },
                }
            },
        }
    }
}

/// Law: determinism. The outcome of chapter extraction is a function of the
/// input text alone, so two results that the contract of
/// [`extract_book_chapters`] admits on the same text stand for the same
/// outcome.
pub proof fn lemma_chapters_deterministic(
    html: Seq<char>,
    r1: Result<Vec<BookChapter>, ChapterError>,
    r2: Result<Vec<BookChapter>, ChapterError>,
)
    requires
        chapter_outcome_of(r1) == chapter_outcome(html),
        chapter_outcome_of(r2) == chapter_outcome(html),
    ensures
        chapter_outcome_of(r1) == chapter_outcome_of(r2),
{
}

proof fn lemma_find_prefix_bounds(s: Seq<char>, p: Seq<char>, i: int, pos: int)
    requires
        0 <= i,
        1 <= p.len(),
        find_prefix_from(s, p, i) == Option::Some(pos),
    ensures
        i <= pos,
        pos + p.len() <= s.len(),
    decreases s.len() - i,
{
    if i + p.len() > s.len() {
    } else if s.subrange(i, i + p.len()) == p {
    } else {
        lemma_find_prefix_bounds(s, p, i + 1, pos);
    }
}

/// Law: an input without the player invocation — among them the empty input
/// — fails with the payload-not-found outcome.
pub proof fn lemma_missing_invocation_fails(html: Seq<char>)
    requires
        find_prefix_from(html, PLAYER_PREFIX@, 0) is None,
    ensures
        chapter_outcome(html) is NoPayload,
{
}

/// Law: text whose invocations never close properly is a syntax error, never
/// a chapter sequence. In particular, an invocation whose argument list does
/// not close, with no further invocation after it, is a syntax error.
pub proof fn lemma_unclosed_invocation_syntax(html: Seq<char>, pos: int)
    requires
        find_prefix_from(html, PLAYER_PREFIX@, 0) == Option::Some(pos),
        scan_close(html, pos + PLAYER_PREFIX@.len(), false, false) is None,
        find_prefix_from(html, PLAYER_PREFIX@, pos + 1) is None,
    ensures
        chapter_outcome(html) is Syntax,
{
    reveal_strlit("var player = new BookPlayer(");
    lemma_find_prefix_bounds(html, PLAYER_PREFIX@, 0, pos);
    assert(locate_from(html, 0, false) == locate_from(html, pos + 1, true));
    assert(locate_from(html, pos + 1, true) == LocateOutcome::NoClose);
}

/// Law: an invocation whose isolated argument text does not parse as a
/// comma-separated list of values is a syntax error, never a chapter
/// sequence.
pub proof fn lemma_malformed_capture_syntax(html: Seq<char>, pos: int, c: int)
    requires
        find_prefix_from(html, PLAYER_PREFIX@, 0) == Option::Some(pos),
        scan_close(html, pos + PLAYER_PREFIX@.len(), false, false) == Option::Some(c),
        c + 1 < html.len() && html[c + 1] == ';',
        top_args(
            html.subrange(pos + PLAYER_PREFIX@.len(), c),
            0,
            false,
            Seq::empty(),
        ) is None,
    ensures
        chapter_outcome(html) is Syntax,
{
    reveal_strlit("var player = new BookPlayer(");
    lemma_find_prefix_bounds(html, PLAYER_PREFIX@, 0, pos);
    lemma_scan_close_bounds(html, pos + PLAYER_PREFIX@.len(), false, false, c);
}

} // verus!
