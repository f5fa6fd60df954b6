use voce::sync::{
    format_bookmark_plain_text, format_translation_plain_text, generate_timestamp_filename,
    parse_bookmark_text, parse_timestamp_from_filename, parse_translation_text,
    timestamp_cut_is_safe, url_encode,
};

#[test]
fn bookmark_file_has_three_headers_and_trimmed_content() {
    let text = format_bookmark_plain_text("bm1", Some("My Title"), Some("https://x"), "  body text \n");
    assert_eq!(text, "ID: bm1\nTitle: My Title\nSource: https://x\n\nbody text");
}

#[test]
fn bookmark_file_without_title_or_source_leaves_them_empty() {
    let text = format_bookmark_plain_text("b", None, None, "c");
    assert_eq!(text, "ID: b\nTitle: \nSource: \n\nc");
}

#[test]
fn bookmark_reads_back_as_written() {
    let text = format_bookmark_plain_text("bm1", Some("My Title"), Some("https://x"), "  body\n\nmore  ");
    let (id, title, source, content) = parse_bookmark_text(&text);
    assert_eq!(id.as_deref(), Some("bm1"));
    assert_eq!(title.as_deref(), Some("My Title"));
    assert_eq!(source.as_deref(), Some("https://x"));
    assert_eq!(content, "body\n\nmore");
}

#[test]
fn bookmark_blank_headers_read_back_as_absent() {
    let text = format_bookmark_plain_text("bm2", None, None, "content");
    let (id, title, source, content) = parse_bookmark_text(&text);
    assert_eq!(id.as_deref(), Some("bm2"));
    assert_eq!(title, None);
    assert_eq!(source, None);
    assert_eq!(content, "content");
}

#[test]
fn bookmark_untitled_reads_as_no_title() {
    let (id, title, source, content) = parse_bookmark_text("ID: a\nTitle: Untitled\nSource: web\n\nx");
    assert_eq!(id.as_deref(), Some("a"));
    assert_eq!(title, None);
    assert_eq!(source.as_deref(), Some("web"));
    assert_eq!(content, "x");
}

#[test]
fn bookmark_with_windows_line_endings() {
    let (id, title, source, content) = parse_bookmark_text("ID: a\r\nTitle: T\r\n\r\nBody\r\n");
    assert_eq!(id.as_deref(), Some("a"));
    assert_eq!(title.as_deref(), Some("T"));
    assert_eq!(source, None);
    assert_eq!(content, "Body");
}

#[test]
fn bookmark_without_headers_is_all_content() {
    let (id, title, source, content) = parse_bookmark_text("  just text  ");
    assert_eq!((id, title, source), (None, None, None));
    assert_eq!(content, "just text");
}

#[test]
fn translation_file_layout() {
    let text = format_translation_plain_text("t1", " hello ", " bonjour ");
    assert_eq!(text, "ID: t1\nOriginal: hello\n\nTranslated: bonjour");
}

#[test]
fn translation_reads_back_as_written() {
    let text = format_translation_plain_text("t1", " hello\nthere ", " bonjour ");
    let (id, src, trn) = parse_translation_text(&text);
    assert_eq!(id.as_deref(), Some("t1"));
    assert_eq!(src, "hello\nthere");
    assert_eq!(trn, "bonjour");
}

#[test]
fn translation_from_json_with_either_key_style() {
    let (id, src, trn) =
        parse_translation_text("{\"id\":\"x\",\"sourceText\":\" a \",\"translated_text\":\"b\"}");
    assert_eq!(id.as_deref(), Some("x"));
    assert_eq!(src, "a");
    assert_eq!(trn, "b");
}

#[test]
fn translation_that_looks_like_json_but_is_not_reads_as_plain_text() {
    let (id, src, trn) = parse_translation_text("{not json\n\nsecond");
    assert_eq!(id, None);
    assert_eq!(src, "{not json");
    assert_eq!(trn, "second");
}

#[test]
fn translation_without_translated_part() {
    let (id, src, trn) = parse_translation_text("ID: z\nonly source");
    assert_eq!(id.as_deref(), Some("z"));
    assert_eq!(src, "only source");
    assert_eq!(trn, "");
}

#[test]
fn timestamp_from_a_dated_file_name() {
    assert!(timestamp_cut_is_safe("bookmark_2024-05-06_07-08-09.txt"));
    assert_eq!(
        parse_timestamp_from_filename("bookmark_2024-05-06_07-08-09.txt", "").unwrap(),
        "2024-05-06 07:08:09"
    );
    assert_eq!(
        parse_timestamp_from_filename("translation_2023-12-31_23-59-58.json", "x").unwrap(),
        "2023-12-31 23:59:58"
    );
}

#[test]
fn timestamp_falls_back_to_the_creation_time() {
    assert_eq!(
        parse_timestamp_from_filename("notes.txt", "2024-01-02T03:04:05.678Z").unwrap(),
        "2024-01-02 03:04:05"
    );
}

#[test]
fn timestamp_falls_back_to_now() {
    let t = parse_timestamp_from_filename("notes.md", "").unwrap();
    assert_eq!(t.len(), 19);
    assert_eq!(&t[4..5], "-");
    assert_eq!(&t[10..11], " ");
}

#[test]
fn new_file_names_are_local_times() {
    let name = generate_timestamp_filename().unwrap();
    assert_eq!(name.len(), 23);
    assert!(name.ends_with(".txt"));
    assert_eq!(&name[10..11], "_");
    assert_eq!(
        parse_timestamp_from_filename(&name, "").unwrap().len(),
        19
    );
}

#[test]
fn url_encode_keeps_unreserved_bytes() {
    assert_eq!(url_encode("Az09-_.~"), "Az09-_.~");
}

#[test]
fn url_encode_escapes_the_rest_byte_by_byte() {
    assert_eq!(url_encode("a b/ü"), "a%20b%2F%C3%BC");
    assert_eq!(url_encode("'x' = y"), "%27x%27%20%3D%20y");
}

#[test]
fn encoded_text_is_unreserved_or_escaped() {
    let e = url_encode("ü 'x' ~ 100%");
    let b = e.as_bytes();
    for (k, &c) in b.iter().enumerate() {
        assert!(c.is_ascii_alphanumeric() || b"-_.~%".contains(&c));
        if c == b'%' {
            assert!(b[k + 1].is_ascii_hexdigit() && !b[k + 1].is_ascii_lowercase());
            assert!(b[k + 2].is_ascii_hexdigit() && !b[k + 2].is_ascii_lowercase());
        }
    }
}

#[test]
fn a_generated_name_reads_back_as_a_record_stamp() {
    let name = generate_timestamp_filename().unwrap();
    let stamp = parse_timestamp_from_filename(&name, "2000-01-01T00:00:00Z").unwrap();
    let expected = format!("{} {}", &name[..10], name[11..19].replace('-', ":"));
    assert_eq!(stamp, expected);
}
