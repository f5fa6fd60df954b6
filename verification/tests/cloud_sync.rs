use voce::cloud::{
    admit_cloud_bookmark, admit_cloud_translation, bookmark_needs_upload, cloud_bookmark_from_file,
    cloud_translation_from_file, fetched_bookmark, is_synced_file_name, lex_less,
    merge_local_bookmark_into, merge_local_translation_into, merge_synced_bookmarks,
    merge_synced_translations, sort_newest_first, translation_file_matches,
    translation_needs_upload,
};
use voce::models::{BookmarkItem, TranslationRecordPayload};

fn bookmark(id: &str, title: Option<&str>, content: &str, created: &str, file: Option<&str>) -> BookmarkItem {
    BookmarkItem {
        id: id.to_string(),
        title: title.map(|t| t.to_string()),
        content: content.to_string(),
        source: None,
        created_at: created.to_string(),
        drive_file_id: file.map(|f| f.to_string()),
    }
}

fn translation(id: &str, src: &str, trn: &str, ts: &str, file: Option<&str>) -> TranslationRecordPayload {
    TranslationRecordPayload {
        id: id.to_string(),
        timestamp: ts.to_string(),
        source_text: src.to_string(),
        source_lang: "Auto-detected".to_string(),
        translated_text: trn.to_string(),
        target_lang: "English".to_string(),
        char_count: src.len(),
        drive_file_id: file.map(|f| f.to_string()),
    }
}

#[test]
fn record_files_are_txt_or_json() {
    assert!(is_synced_file_name("a.txt"));
    assert!(is_synced_file_name("bookmark_x.json"));
    assert!(!is_synced_file_name("photo.png"));
}

#[test]
fn listed_json_bookmark_uses_its_fields() {
    let b = fetched_bookmark(
        "bookmark_abc.json",
        "{\"id\":\"j1\",\"title\":\"T\",\"content\":\"C\",\"created_at\":\"2024\"}",
        "f1",
        "ts",
    )
    .unwrap();
    assert_eq!(b.id, "j1");
    assert_eq!(b.title.as_deref(), Some("T"));
    assert_eq!(b.content, "C");
    assert_eq!(b.source, None);
    assert_eq!(b.created_at, "2024");
    assert_eq!(b.drive_file_id.as_deref(), Some("f1"));
}

#[test]
fn listed_json_bookmark_without_id_takes_it_from_the_file_name() {
    let b = fetched_bookmark("bookmark_abc.json", "{\"title\":\"x\"}", "f1", "ts").unwrap();
    assert_eq!(b.id, "abc");
    assert_eq!(b.content, "");
    assert_eq!(b.created_at, "ts");
}

#[test]
fn listed_broken_json_bookmark_is_skipped() {
    assert!(fetched_bookmark("b.json", "  {oops", "f1", "ts").is_none());
}

#[test]
fn listed_plain_bookmark_without_id_gets_one_from_the_file() {
    let b = fetched_bookmark("x.txt", "Title: T\n\nBody", "f7", "ts").unwrap();
    assert_eq!(b.id, "bm_f7");
    assert_eq!(b.title.as_deref(), Some("T"));
    assert_eq!(b.content, "Body");
    assert_eq!(b.created_at, "ts");
}

#[test]
fn synced_bookmark_from_plain_file() {
    let b = cloud_bookmark_from_file("ID: b1\nTitle: T\nSource: S\n\n Body ", "fid", "ts").unwrap();
    assert_eq!(b.id, "b1");
    assert_eq!(b.title.as_deref(), Some("T"));
    assert_eq!(b.source.as_deref(), Some("S"));
    assert_eq!(b.content, "Body");
    assert_eq!(b.created_at, "ts");
    assert_eq!(b.drive_file_id.as_deref(), Some("fid"));
}

#[test]
fn synced_bookmark_with_blank_content_is_dropped() {
    assert!(cloud_bookmark_from_file("ID: b1\nTitle: T\n\n   ", "fid", "ts").is_none());
}

#[test]
fn synced_translation_from_plain_file() {
    let t = cloud_translation_from_file("ID: t9\nOriginal: Héllo\n\nTranslated: Salut", "fid", "ts").unwrap();
    assert_eq!(t.id, "t9");
    assert_eq!(t.source_text, "Héllo");
    assert_eq!(t.translated_text, "Salut");
    assert_eq!(t.source_lang, "Auto-detected");
    assert_eq!(t.target_lang, "English");
    assert_eq!(t.char_count, 6);
    assert_eq!(t.timestamp, "ts");
    assert_eq!(t.drive_file_id.as_deref(), Some("fid"));
}

#[test]
fn synced_translation_without_id_gets_one_from_the_file() {
    let t = cloud_translation_from_file("Original: a\n\nTranslated: b", "fid", "ts").unwrap();
    assert_eq!(t.id, "trn_fid");
}

#[test]
fn synced_translation_with_a_blank_side_is_dropped() {
    assert!(cloud_translation_from_file("ID: t\nOriginal: a\n\nTranslated:   ", "f", "ts").is_none());
}

#[test]
fn cloud_duplicates_by_id_or_content_are_refused() {
    let mut kept = Vec::new();
    assert!(admit_cloud_bookmark(&mut kept, bookmark("a", None, "X", "1", Some("f1"))));
    assert!(!admit_cloud_bookmark(&mut kept, bookmark("b", None, "  X ", "2", Some("f2"))));
    assert!(!admit_cloud_bookmark(&mut kept, bookmark("a", None, "Y", "3", Some("f3"))));
    assert!(admit_cloud_bookmark(&mut kept, bookmark("c", None, "Y", "4", Some("f4"))));
    assert_eq!(kept.len(), 2);
    assert_eq!(kept[1].id, "c");
}

#[test]
fn cloud_translation_duplicates_are_refused() {
    let mut kept = Vec::new();
    assert!(admit_cloud_translation(&mut kept, translation("t1", "a", "b", "1", Some("f1"))));
    assert!(!admit_cloud_translation(&mut kept, translation("t2", " a", "b ", "2", Some("f2"))));
    assert!(!admit_cloud_translation(&mut kept, translation("t1", "c", "d", "3", Some("f3"))));
    assert!(admit_cloud_translation(&mut kept, translation("t3", "a", "other", "4", Some("f4"))));
    assert_eq!(kept.len(), 2);
}

#[test]
fn merge_keeps_cloud_bookmarks_and_appends_new_local_ones() {
    let cloud = vec![bookmark("a", None, "one", "2024-01-01", Some("f1"))];
    let locals = vec![
        bookmark("a", Some("T"), "one", "2024-01-01", None),
        bookmark("n", None, "two", "2024-02-01", None),
        bookmark("blank", None, "   ", "2024-03-01", None),
    ];
    assert!(!bookmark_needs_upload(&cloud, &cloud, &locals[0]));
    assert!(bookmark_needs_upload(&cloud, &cloud, &locals[1]));
    assert!(!bookmark_needs_upload(&cloud, &cloud, &locals[2]));
    let merged = merge_synced_bookmarks(&cloud, locals, vec![None, Some("f2".to_string()), None]);
    assert_eq!(merged.len(), 2);
    assert_eq!(merged[0].id, "a");
    assert_eq!(merged[0].title.as_deref(), Some("T"));
    assert_eq!(merged[0].drive_file_id.as_deref(), Some("f1"));
    assert_eq!(merged[1].id, "n");
    assert_eq!(merged[1].drive_file_id.as_deref(), Some("f2"));
}

#[test]
fn merge_keeps_the_cloud_title_where_there_is_one() {
    let cloud = vec![bookmark("a", Some("Cloud"), "one", "1", Some("f1"))];
    let locals = vec![bookmark("z", Some("Local"), " one ", "1", None)];
    let merged = merge_synced_bookmarks(&cloud, locals, vec![None]);
    assert_eq!(merged.len(), 1);
    assert_eq!(merged[0].title.as_deref(), Some("Cloud"));
}

#[test]
fn merge_appends_a_local_bookmark_whose_upload_failed_without_a_file() {
    let cloud: Vec<BookmarkItem> = Vec::new();
    let merged = merge_synced_bookmarks(&cloud, vec![bookmark("n", None, "x", "1", None)], vec![None]);
    assert_eq!(merged.len(), 1);
    assert_eq!(merged[0].drive_file_id, None);
}

#[test]
fn merge_of_translations() {
    let cloud = vec![translation("t1", "a", "b", "1", Some("f1"))];
    let locals = vec![
        translation("t1", "x", "y", "2", None),
        translation("t2", "c", "  ", "3", None),
        translation("t3", "c", "d", "4", None),
        translation("t4", " a ", " b ", "5", None),
    ];
    assert!(!translation_needs_upload(&cloud, &cloud, &locals[0]));
    assert!(!translation_needs_upload(&cloud, &cloud, &locals[1]));
    assert!(translation_needs_upload(&cloud, &cloud, &locals[2]));
    assert!(!translation_needs_upload(&cloud, &cloud, &locals[3]));
    let merged = merge_synced_translations(
        &cloud,
        locals,
        vec![None, None, Some("f3".to_string()), None],
    );
    assert_eq!(merged.len(), 2);
    assert_eq!(merged[0].id, "t1");
    assert_eq!(merged[1].id, "t3");
    assert_eq!(merged[1].drive_file_id.as_deref(), Some("f3"));
}

#[test]
fn sorting_puts_the_newest_first_and_keeps_ties_in_order() {
    let items = vec![
        bookmark("a", None, "1", "2024-01-01 00:00:00", None),
        bookmark("b", None, "2", "2025-01-01 00:00:00", None),
        bookmark("c", None, "3", "2024-06-01 00:00:00", None),
        bookmark("d", None, "4", "2024-06-01 00:00:00", None),
    ];
    let sorted = sort_newest_first(items);
    let ids: Vec<&str> = sorted.iter().map(|b| b.id.as_str()).collect();
    assert_eq!(ids, vec!["b", "c", "d", "a"]);
}

#[test]
fn sorting_translations_by_timestamp() {
    let items = vec![
        translation("x", "a", "b", "2023", None),
        translation("y", "a", "b", "2024", None),
    ];
    let sorted = sort_newest_first(items);
    assert_eq!(sorted[0].id, "y");
    assert_eq!(sorted[1].id, "x");
}

#[test]
fn lexicographic_order_of_texts() {
    let a: Vec<char> = "abc".chars().collect();
    let b: Vec<char> = "abd".chars().collect();
    let p: Vec<char> = "ab".chars().collect();
    assert!(lex_less(&a, &b));
    assert!(!lex_less(&b, &a));
    assert!(lex_less(&p, &a));
    assert!(!lex_less(&a, &a));
}

#[test]
fn translation_file_to_delete_by_id_or_text() {
    let text = "ID: t1\nOriginal: hello\n\nTranslated: hola";
    assert!(translation_file_matches(text, &Some("t1".to_string()), &None));
    assert!(translation_file_matches(text, &None, &Some("  hello ".to_string())));
    assert!(!translation_file_matches(text, &Some("t2".to_string()), &Some("bye".to_string())));
    assert!(!translation_file_matches(text, &None, &None));
}

#[test]
fn duplicate_local_bookmarks_are_merged_once() {
    let cloud: Vec<BookmarkItem> = Vec::new();
    let locals = vec![
        bookmark("n", None, "x", "1", None),
        bookmark("n", None, "y", "2", None),
        bookmark("m", None, " x ", "3", None),
        bookmark("k", None, "z", "4", None),
    ];
    let merged = merge_synced_bookmarks(&cloud, locals, vec![Some("f1".to_string()), None, None, None]);
    let ids: Vec<&str> = merged.iter().map(|b| b.id.as_str()).collect();
    assert_eq!(ids, vec!["n", "k"]);
    assert_eq!(merged[0].drive_file_id.as_deref(), Some("f1"));
}

#[test]
fn a_bookmark_merged_step_by_step_is_uploaded_once() {
    let cloud: Vec<BookmarkItem> = Vec::new();
    let mut merged: Vec<BookmarkItem> = Vec::new();
    let first = bookmark("n", None, "x", "1", None);
    assert!(bookmark_needs_upload(&cloud, &merged, &first));
    merge_local_bookmark_into(&cloud, &mut merged, first, Some("f".to_string()));
    let again = bookmark("n2", None, "x", "2", None);
    assert!(!bookmark_needs_upload(&cloud, &merged, &again));
    merge_local_bookmark_into(&cloud, &mut merged, again, None);
    assert_eq!(merged.len(), 1);
}

#[test]
fn duplicate_local_translations_are_merged_once() {
    let cloud: Vec<TranslationRecordPayload> = Vec::new();
    let locals = vec![
        translation("t1", "a", "b", "1", None),
        translation("t1", "c", "d", "2", None),
        translation("t2", " a", "b ", "3", None),
        translation("t3", "a", "e", "4", None),
    ];
    let mut merged = Vec::new();
    assert!(translation_needs_upload(&cloud, &merged, &locals[0]));
    merge_local_translation_into(&cloud, &mut merged, locals[0].duplicate(), None);
    assert!(!translation_needs_upload(&cloud, &merged, &locals[1]));
    let all = merge_synced_translations(&cloud, locals, vec![None, None, None, None]);
    let ids: Vec<&str> = all.iter().map(|t| t.id.as_str()).collect();
    assert_eq!(ids, vec!["t1", "t3"]);
}
