//! Transcript cleaning, word counting, previews, and the search snippet
//! highlighter, checked against exact expected values.

use contentflow::{
    build_import_result, build_transcript_record, clean_srt_content, content_preview,
    count_words, create_highlighted_snippet, is_transcript_extension, search_window,
    validate_query, TranscriptImportError,
};

#[test]
fn clean_srt_drops_counters_and_timestamps() {
    let srt = "1\n00:00:01,000 --> 00:00:04,000\nHello world\n\n2\n00:00:05,000 --> 00:00:08,000\nSecond line\n";
    assert_eq!(clean_srt_content(srt), "Hello world Second line");
}

#[test]
fn clean_srt_handles_crlf_endings() {
    let srt = "1\r\n00:00:01,000 --> 00:00:02,000\r\nLine one\r\n\r\n2\r\n00:00:03,000 --> 00:00:04,000\r\nLine two\r\n";
    assert_eq!(clean_srt_content(srt), "Line one Line two");
}

#[test]
fn clean_srt_keeps_line_of_digits_too_large_for_a_counter() {
    // 4294967296 does not fit a u32, so it is content, not a cue counter
    assert_eq!(clean_srt_content("4294967296\nHi\n"), "4294967296 Hi");
    // 4294967295 still parses as a u32 and is dropped
    assert_eq!(clean_srt_content("4294967295\nHi\n"), "Hi");
    // a plus sign still parses the way str::parse does
    assert_eq!(clean_srt_content("+12\nHi\n"), "Hi");
}

#[test]
fn clean_srt_of_empty_text_is_empty() {
    assert_eq!(clean_srt_content(""), "");
    assert_eq!(clean_srt_content("3\n00:00:01,000 --> 00:00:02,000\n\n"), "");
}

#[test]
fn count_words_counts_runs_of_non_whitespace() {
    assert_eq!(count_words(""), 0);
    assert_eq!(count_words("   \t\n"), 0);
    assert_eq!(count_words("one"), 1);
    assert_eq!(count_words("  hello   world\n"), 2);
    assert_eq!(count_words("a b c d e"), 5);
}

#[test]
fn content_preview_truncates_long_content() {
    let short = "just a short transcript";
    assert_eq!(content_preview(short), short);
    let long: String = "x".repeat(250);
    let preview = content_preview(&long);
    assert_eq!(preview.len(), 203);
    assert!(preview.starts_with(&"x".repeat(200)));
    assert!(preview.ends_with("..."));
    let exactly200: String = "y".repeat(200);
    assert_eq!(content_preview(&exactly200), exactly200);
}

#[test]
fn transcript_record_cleans_srt_content() {
    let record = build_transcript_record(
        "id-1".to_string(),
        "/data/talk.srt".to_string(),
        "talk.srt".to_string(),
        "srt",
        "1\n00:00:01,000 --> 00:00:04,000\nHello there\n".to_string(),
    )
    .unwrap();
    assert_eq!(record.content, "Hello there");
    assert_eq!(record.word_count, 2);
    assert_eq!(record.language, "en");
    assert_eq!(record.status, "imported");
    assert_eq!(record.filename, "talk.srt");
}

#[test]
fn transcript_record_keeps_plain_text_as_read() {
    let record = build_transcript_record(
        "id-2".to_string(),
        "/data/notes.txt".to_string(),
        "notes.txt".to_string(),
        "txt",
        "some plain notes".to_string(),
    )
    .unwrap();
    assert_eq!(record.content, "some plain notes");
    assert_eq!(record.word_count, 3);
}

#[test]
fn transcript_record_rejects_bad_extension_and_blank_content() {
    let err = build_transcript_record(
        "id-3".to_string(),
        "/data/talk.pdf".to_string(),
        "talk.pdf".to_string(),
        "pdf",
        "content".to_string(),
    )
    .unwrap_err();
    assert_eq!(err, "Invalid transcript format");
    let err = build_transcript_record(
        "id-4".to_string(),
        "/data/empty.txt".to_string(),
        "empty.txt".to_string(),
        "txt",
        "   \n\t ".to_string(),
    )
    .unwrap_err();
    assert_eq!(err, "Transcript file is empty");
}

#[test]
fn transcript_extensions_accepted() {
    assert!(is_transcript_extension("txt"));
    assert!(is_transcript_extension("srt"));
    assert!(is_transcript_extension("vtt"));
    assert!(!is_transcript_extension("mp4"));
    assert!(!is_transcript_extension(""));
}

#[test]
fn snippet_over_short_content_is_whole_text() {
    let content = "the quick brown fox jumps over the lazy dog";
    let (snippet, highlights) = create_highlighted_snippet(content, "lazy fox", 200);
    assert_eq!(snippet, content);
    // spans are reported in query order: "lazy" first, then "fox"
    assert_eq!(highlights, vec![(35, 39), (16, 19)]);
}

#[test]
fn snippet_matches_case_insensitively() {
    let content = "The Quick Brown Fox";
    let (snippet, highlights) = create_highlighted_snippet(content, "fox", 200);
    assert_eq!(snippet, content);
    assert_eq!(highlights, vec![(16, 19)]);
}

#[test]
fn snippet_picks_window_holding_the_match() {
    // 34 filler words, then the match: the best window starts past the
    // text's opening, so the snippet gets a leading ellipsis
    let mut content = String::new();
    for _ in 0..34 {
        content.push_str("x ");
    }
    content.push_str("needle");
    let (snippet, highlights) = create_highlighted_snippet(&content, "needle", 200);
    let mut expected = String::from("...");
    for _ in 0..29 {
        expected.push_str("x ");
    }
    expected.push_str("needle");
    assert_eq!(snippet, expected);
    assert_eq!(highlights, vec![(48, 54)]);
}

#[test]
fn snippet_of_unmatched_query_starts_at_text_head() {
    let content = "alpha beta gamma";
    let (snippet, highlights) = create_highlighted_snippet(content, "zeta", 200);
    assert_eq!(snippet, "alpha beta gamma");
    assert!(highlights.is_empty());
}

#[test]
fn snippet_of_empty_content_is_empty() {
    let (snippet, highlights) = create_highlighted_snippet("", "anything", 200);
    assert_eq!(snippet, "");
    assert!(highlights.is_empty());
}

#[test]
fn search_window_defaults_and_caps() {
    assert_eq!(search_window(None, None), (20, 0));
    assert_eq!(search_window(Some(50), Some(40)), (50, 40));
    assert_eq!(search_window(Some(500), None), (100, 0));
}

#[test]
fn query_validation_rejects_blank_queries() {
    assert!(validate_query("hello").is_ok());
    assert_eq!(
        validate_query("   ").unwrap_err(),
        "Search query cannot be empty"
    );
    assert_eq!(
        validate_query("").unwrap_err(),
        "Search query cannot be empty"
    );
}

#[test]
fn import_result_succeeds_only_without_errors() {
    let clean = build_import_result(Vec::new(), Vec::new());
    assert!(clean.success);
    let failed = build_import_result(
        Vec::new(),
        vec![TranscriptImportError {
            file_path: "/data/bad.srt".to_string(),
            error: "Invalid transcript format".to_string(),
        }],
    );
    assert!(!failed.success);
    assert_eq!(failed.errors.len(), 1);
}

#[test]
fn whitespace_class_is_unicode() {
    // U+00A0 (no-break space) is whitespace the way split_whitespace and
    // trim treat it
    assert_eq!(count_words("\u{a0}"), 0);
    assert_eq!(count_words("a\u{a0}b"), 2);
    assert_eq!(count_words("\u{2003}one\u{2003}two\u{2003}"), 2);
    // a cue counter padded with no-break spaces still trims away
    assert_eq!(clean_srt_content("\u{a0}1\u{a0}\nHi\n"), "Hi");
    // a query of nothing but a no-break space is empty
    assert_eq!(
        validate_query("\u{a0}").unwrap_err(),
        "Search query cannot be empty"
    );
}
