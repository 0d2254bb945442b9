//! Tests of the two extraction pipelines on concrete pages and payloads.

use bookpage::{
    extract_book_chapters, extract_book_info, trim_ws, BookField, ChapterError, MetadataError,
    SchemaDetail,
};

/// A page with every metadata field present, or with one field's element
/// left out.
fn page(omit: Option<BookField>) -> String {
    let mut s = String::from("<html><body>");
    if omit != Some(BookField::Title) {
        s.push_str("<span class=\"book_title_name\"> Barliona </span>");
    }
    if omit != Some(BookField::Author) {
        s.push_str(
            "<span class=\"book_title_elem\"><span itemprop=\"author\"><a>V. M.</a></span></span>",
        );
    }
    if omit != Some(BookField::Reader) {
        s.push_str("<span class=\"book_title_elem\"><a>I. K.</a></span>");
    }
    if omit != Some(BookField::Series) {
        s.push_str("<div class=\"book_serie_block_title\"><a>Barliona Cycle</a></div>");
    }
    if omit != Some(BookField::Genre) {
        s.push_str("<div class=\"book_genre_pretitle\"><a>LitRPG</a></div>");
    }
    if omit != Some(BookField::CoverUrl) {
        s.push_str("<div class=\"book_cover\"><img src=\"/covers/barliona.jpg\"></div>");
    }
    s.push_str("</body></html>");
    s
}

#[test]
fn test_extract_book_player_args() {
    assert!(extract_book_chapters("").is_err());
    assert!(
        extract_book_chapters("var player = new BookPlayer(1, [], [], [], 2, 3, 4, 5);").is_ok()
    );
    let res = extract_book_chapters(
        r#"var player = new BookPlayer(1, [{"duration_float":1, "title":"ttl", "url":"url://"}], [], [], 2, 3, 4, 5);"#,
    );
    assert!(res.is_ok());
    let res = res.unwrap();
    assert_eq!(res.len(), 1);
    let res = &res[0];
    assert_eq!(res.duration_float.parse::<f32>().unwrap(), 1.0);
    assert_eq!(res.title, "ttl");
    assert_eq!(res.url, "url://");
}

#[test]
fn full_page_yields_every_field() {
    let info = extract_book_info(&page(None)).unwrap();
    assert_eq!(info.title, "Barliona");
    assert_eq!(info.author, "V. M.");
    assert_eq!(info.series, Some("Barliona Cycle".to_string()));
    assert_eq!(info.genre, "LitRPG");
    assert_eq!(info.reader, "I. K.");
    assert_eq!(info.cover_url, "/covers/barliona.jpg");
}

#[test]
fn first_match_in_document_order_wins() {
    let html = page(None).replace(
        "<span class=\"book_title_name\"> Barliona </span>",
        "<span class=\"book_title_name\">First</span><span class=\"book_title_name\">Second</span>",
    );
    let info = extract_book_info(&html).unwrap();
    assert_eq!(info.title, "First");
    let attrs = page(None).replace(
        "<div class=\"book_cover\"><img src=\"/covers/barliona.jpg\"></div>",
        "<div class=\"book_cover\"><img src=\"/a.jpg\"></div><div class=\"book_cover\"><img src=\"/b.jpg\"></div>",
    );
    let info = extract_book_info(&attrs).unwrap();
    assert_eq!(info.cover_url, "/a.jpg");
}

#[test]
fn text_content_is_gathered_from_descendants() {
    let html = page(None).replace(
        "<span class=\"book_title_name\"> Barliona </span>",
        "<span class=\"book_title_name\"><b>Bar</b>liona</span>",
    );
    let info = extract_book_info(&html).unwrap();
    assert_eq!(info.title, "Barliona");
}

#[test]
fn missing_title_fails_whole_extraction() {
    let err = extract_book_info(&page(Some(BookField::Title))).unwrap_err();
    assert_eq!(err, MetadataError::MissingField(BookField::Title));
    assert_eq!(err.message(), "No title");
}

#[test]
fn missing_author_fails_whole_extraction() {
    let err = extract_book_info(&page(Some(BookField::Author))).unwrap_err();
    assert_eq!(err, MetadataError::MissingField(BookField::Author));
    assert_eq!(err.message(), "No author");
}

#[test]
fn missing_series_fails_whole_extraction() {
    let err = extract_book_info(&page(Some(BookField::Series))).unwrap_err();
    assert_eq!(err, MetadataError::MissingField(BookField::Series));
    assert_eq!(err.message(), "No series");
}

#[test]
fn missing_genre_fails_whole_extraction() {
    let err = extract_book_info(&page(Some(BookField::Genre))).unwrap_err();
    assert_eq!(err, MetadataError::MissingField(BookField::Genre));
    assert_eq!(err.message(), "No genre");
}

#[test]
fn missing_reader_fails_whole_extraction() {
    let err = extract_book_info(&page(Some(BookField::Reader))).unwrap_err();
    assert_eq!(err, MetadataError::MissingField(BookField::Reader));
    assert_eq!(err.message(), "No reader");
}

#[test]
fn missing_cover_fails_whole_extraction() {
    let err = extract_book_info(&page(Some(BookField::CoverUrl))).unwrap_err();
    assert_eq!(err, MetadataError::MissingField(BookField::CoverUrl));
    assert_eq!(err.message(), "No cover");
}

#[test]
fn empty_chapter_list_is_valid() {
    let res = extract_book_chapters("var player = new BookPlayer(1, [], [], [], 2, 3, 4, 5);");
    assert_eq!(res.unwrap(), vec![]);
}

#[test]
fn missing_invocation_is_payload_not_found() {
    assert_eq!(extract_book_chapters("").unwrap_err(), ChapterError::PayloadNotFound);
    let err = extract_book_chapters("<html><body>no player here</body></html>").unwrap_err();
    assert_eq!(err, ChapterError::PayloadNotFound);
    assert_eq!(err.message(), "No match found");
}

#[test]
fn unclosed_or_malformed_arguments_are_syntax_errors() {
    let err = extract_book_chapters("var player = new BookPlayer(1, [").unwrap_err();
    assert_eq!(err, ChapterError::DecodeSyntax);
    let err = extract_book_chapters("var player = new BookPlayer(<<garbage>>);").unwrap_err();
    assert_eq!(err, ChapterError::DecodeSyntax);
    let err = extract_book_chapters("var player = new BookPlayer();").unwrap_err();
    assert_eq!(err, ChapterError::DecodeSyntax);
    let err = extract_book_chapters("var player = new BookPlayer(1, [], [], [], 2, 3, 4, 5)").unwrap_err();
    assert_eq!(err, ChapterError::DecodeSyntax);
}

#[test]
fn search_passes_over_an_invocation_that_never_closes() {
    let html = "var player = new BookPlayer( \"lone\nvar player = new BookPlayer(1, [{\"duration_float\":1, \"title\":\"t\", \"url\":\"u\"}], [], [], 2, 3, 4, 5);";
    let res = extract_book_chapters(html).unwrap();
    assert_eq!(res.len(), 1);
    assert_eq!(res[0].title, "t");
}

#[test]
fn wrong_arity_is_schema_mismatch() {
    let err = extract_book_chapters("var player = new BookPlayer(1, [], []);").unwrap_err();
    assert_eq!(err, ChapterError::SchemaMismatch(SchemaDetail::WrongArity));
    let err = extract_book_chapters(
        "var player = new BookPlayer(1, [], [], [], 2, 3, 4, 5, 6);",
    )
    .unwrap_err();
    assert_eq!(err, ChapterError::SchemaMismatch(SchemaDetail::WrongArity));
}

#[test]
fn non_array_positions_are_schema_mismatches() {
    let err = extract_book_chapters("var player = new BookPlayer(1, 2, [], [], 2, 3, 4, 5);")
        .unwrap_err();
    assert_eq!(err, ChapterError::SchemaMismatch(SchemaDetail::BadChapter));
    let err = extract_book_chapters("var player = new BookPlayer(1, [], 2, [], 2, 3, 4, 5);")
        .unwrap_err();
    assert_eq!(err, ChapterError::SchemaMismatch(SchemaDetail::PositionNotArray));
    let err = extract_book_chapters("var player = new BookPlayer(1, [], [], 2, 2, 3, 4, 5);")
        .unwrap_err();
    assert_eq!(err, ChapterError::SchemaMismatch(SchemaDetail::PositionNotArray));
}

#[test]
fn incomplete_chapter_object_is_schema_mismatch() {
    let err = extract_book_chapters(
        r#"var player = new BookPlayer(1, [{"title":"t", "url":"u"}], [], [], 2, 3, 4, 5);"#,
    )
    .unwrap_err();
    assert_eq!(err, ChapterError::SchemaMismatch(SchemaDetail::BadChapter));
    let err = extract_book_chapters(
        r#"var player = new BookPlayer(1, [{"duration_float":"1", "title":"t", "url":"u"}], [], [], 2, 3, 4, 5);"#,
    )
    .unwrap_err();
    assert_eq!(err, ChapterError::SchemaMismatch(SchemaDetail::BadChapter));
    assert_eq!(err.message(), "Payload shape mismatch");
}

#[test]
fn chapter_order_is_source_order() {
    let res = extract_book_chapters(
        r#"var player = new BookPlayer(1, [
            {"duration_float":1.5, "title":"alpha", "url":"u1"},
            {"duration_float":2, "title":"beta", "url":"u2"},
            {"duration_float":3e2, "title":"gamma", "url":"u3"}
        ], [], [], 2, 3, 4, 5);"#,
    )
    .unwrap();
    assert_eq!(res.len(), 3);
    assert_eq!(res[0].title, "alpha");
    assert_eq!(res[1].title, "beta");
    assert_eq!(res[2].title, "gamma");
    assert_eq!(res[0].duration_float.parse::<f32>().unwrap(), 1.5);
    assert_eq!(res[2].duration_float.parse::<f32>().unwrap(), 300.0);
}

#[test]
fn chapter_extras_are_ignored_and_escapes_decoded() {
    let res = extract_book_chapters(
        r#"var player = new BookPlayer(1, [{"extra":{"nested":[1,2,{"x":null}]}, "duration_float":2.5, "title":"a\"b\nc", "url":"u()"}], [], [], true, null, "x);", 5);"#,
    )
    .unwrap();
    assert_eq!(res.len(), 1);
    assert_eq!(res[0].title, "a\"b\nc");
    assert_eq!(res[0].url, "u()");
    assert_eq!(res[0].duration_float, "2.5");
}

#[test]
fn unicode_escapes_are_decoded() {
    let res = extract_book_chapters(
        r#"var player = new BookPlayer(1, [{"duration_float":1, "title":"\u0041\u044F \uD83D\uDE00", "url":"u"}], [], [], 2, 3, 4, 5);"#,
    )
    .unwrap();
    assert_eq!(res[0].title, "A\u{44f} \u{1f600}");
}

#[test]
fn lone_or_malformed_unicode_escapes_are_rejected() {
    let err = extract_book_chapters(
        r#"var player = new BookPlayer(1, [{"duration_float":1, "title":"\uDC00", "url":"u"}], [], [], 2, 3, 4, 5);"#,
    )
    .unwrap_err();
    assert_eq!(err, ChapterError::DecodeSyntax);
    let err = extract_book_chapters(
        r#"var player = new BookPlayer(1, [{"duration_float":1, "title":"\uD83D x", "url":"u"}], [], [], 2, 3, 4, 5);"#,
    )
    .unwrap_err();
    assert_eq!(err, ChapterError::DecodeSyntax);
    let err = extract_book_chapters(
        r#"var player = new BookPlayer(1, [{"duration_float":1, "title":"\uZZ11", "url":"u"}], [], [], 2, 3, 4, 5);"#,
    )
    .unwrap_err();
    assert_eq!(err, ChapterError::DecodeSyntax);
}

#[test]
fn repeated_extraction_is_deterministic() {
    let html = format!(
        "{}{}",
        page(None),
        r#"<script>var player = new BookPlayer(1, [{"duration_float":1, "title":"t", "url":"u"}], [], [], 2, 3, 4, 5);</script>"#,
    );
    let i1 = extract_book_info(&html).unwrap();
    let i2 = extract_book_info(&html).unwrap();
    assert_eq!(i1, i2);
    let c1 = extract_book_chapters(&html).unwrap();
    let c2 = extract_book_chapters(&html).unwrap();
    assert_eq!(c1, c2);
}

#[test]
fn trim_ws_removes_surrounding_whitespace_only() {
    assert_eq!(trim_ws("  a b\t\r\n"), "a b");
    assert_eq!(trim_ws("a"), "a");
    assert_eq!(trim_ws(" \t "), "");
    assert_eq!(trim_ws(""), "");
}
