use voce::auth::signed_in_profile;
use voce::drive::{
    created_file_id, direct_delete_target, drive_bookmark_list_url, drive_children_list_url,
    drive_file_url, drive_folder_search_url, drive_media_update_url, drive_media_url,
    found_folder_id, listed_file_ids, multipart_body, multipart_content_type, parent_folder_lost,
    uploaded_bookmark, with_bookmarks_folder, with_drive_folders, DriveFile, ReplyError,
    UPLOAD_BOUNDARY,
};
use voce::models::BookmarkPayload;

fn file(id: Option<&str>) -> DriveFile {
    DriveFile { id: id.map(|s| s.to_string()), name: None, created_time: None }
}

#[test]
fn searching_for_the_root_folder() {
    assert_eq!(
        drive_folder_search_url("Voce", None),
        "https://www.googleapis.com/drive/v3/files?q=name%20%3D%20%27Voce%27%20and%20mimeType%20%3D%20%27application%2Fvnd.google-apps.folder%27%20and%20trashed%20%3D%20false&fields=files(id,name,trashed)&spaces=drive"
    );
}

#[test]
fn searching_for_a_subfolder() {
    assert_eq!(
        drive_folder_search_url("bookmarks", Some("P1")),
        "https://www.googleapis.com/drive/v3/files?q=name%20%3D%20%27bookmarks%27%20and%20%27P1%27%20in%20parents%20and%20mimeType%20%3D%20%27application%2Fvnd.google-apps.folder%27%20and%20trashed%20%3D%20false&fields=files(id,name,trashed)&spaces=drive"
    );
}

#[test]
fn the_first_listed_folder_is_used() {
    assert_eq!(found_folder_id(&vec![]), None);
    assert_eq!(found_folder_id(&vec![file(Some("a")), file(Some("b"))]), Some("a".to_string()));
    assert_eq!(found_folder_id(&vec![file(None), file(Some("b"))]), None);
}

#[test]
fn a_lost_parent_is_recognized() {
    assert!(parent_folder_lost(true, "File not found: x"));
    assert!(parent_folder_lost(true, "{\"reason\":\"notFound\"}"));
    assert!(parent_folder_lost(true, "status 404"));
    assert!(!parent_folder_lost(false, "404"));
    assert!(!parent_folder_lost(true, "quota exceeded"));
}

#[test]
fn the_id_of_a_created_file() {
    assert!(matches!(created_file_id("{\"id\":\"f\"}"), Ok(id) if id == "f"));
    assert!(matches!(created_file_id("{}"), Err(ReplyError::MissingField)));
    assert!(matches!(created_file_id("<html>"), Err(ReplyError::Unreadable)));
}

#[test]
fn listing_addresses() {
    assert_eq!(
        drive_children_list_url("F9", "id,name"),
        "https://www.googleapis.com/drive/v3/files?q=%27F9%27%20in%20parents%20and%20trashed%20%3D%20false&fields=files(id,name)&pageSize=1000"
    );
    assert_eq!(
        drive_bookmark_list_url("F9"),
        "https://www.googleapis.com/drive/v3/files?q='F9'%20in%20parents%20and%20trashed%3Dfalse&fields=files(id,name,createdTime)&pageSize=100"
    );
}

#[test]
fn file_addresses() {
    assert_eq!(drive_file_url("x"), "https://www.googleapis.com/drive/v3/files/x");
    assert_eq!(drive_media_url("x"), "https://www.googleapis.com/drive/v3/files/x?alt=media");
    assert_eq!(
        drive_media_update_url("x"),
        "https://www.googleapis.com/upload/drive/v3/files/x?uploadType=media"
    );
}

#[test]
fn an_upload_is_framed_in_two_parts() {
    assert_eq!(UPLOAD_BOUNDARY, "voce_boundary_txt");
    assert_eq!(
        multipart_body("{\"name\":\"n\"}", "body"),
        "--voce_boundary_txt\r\nContent-Type: application/json; charset=UTF-8\r\n\r\n{\"name\":\"n\"}\r\n--voce_boundary_txt\r\nContent-Type: text/plain; charset=UTF-8\r\n\r\nbody\r\n--voce_boundary_txt--"
    );
    assert_eq!(multipart_content_type(), "multipart/related; boundary=voce_boundary_txt");
}

#[test]
fn a_blank_file_id_is_not_deleted_directly() {
    assert_eq!(direct_delete_target(Some("  ".to_string())), None);
    assert_eq!(direct_delete_target(None), None);
    assert_eq!(direct_delete_target(Some(" f ".to_string())), Some(" f ".to_string()));
}

#[test]
fn files_without_an_id_are_skipped() {
    let ids = listed_file_ids(&vec![file(Some("a")), file(None), file(Some("c"))]);
    assert_eq!(ids, vec!["a".to_string(), "c".to_string()]);
}

#[test]
fn an_uploaded_bookmark_records_its_file() {
    let p = BookmarkPayload {
        id: "b".to_string(),
        title: Some("T".to_string()),
        content: "C".to_string(),
        source: None,
        created_at: "2024".to_string(),
    };
    let item = uploaded_bookmark(p, "fid".to_string());
    assert_eq!(item.id, "b");
    assert_eq!(item.title.as_deref(), Some("T"));
    assert_eq!(item.created_at, "2024");
    assert_eq!(item.drive_file_id.as_deref(), Some("fid"));
}

#[test]
fn folders_recorded_in_the_profile() {
    let p = signed_in_profile(Some("N".to_string()), None, None, None, Some("t0".to_string()), None);
    let q = with_bookmarks_folder(p, "v".to_string(), "b".to_string());
    assert!(q.google_drive_configured);
    assert_eq!(q.voce_folder_id.as_deref(), Some("v"));
    assert_eq!(q.translations_folder_id.as_deref(), Some("t0"));
    assert_eq!(q.name, "N");
    let r = with_drive_folders(q, "v2".to_string(), "b2".to_string(), "t2".to_string());
    assert_eq!(r.bookmarks_folder_id.as_deref(), Some("b2"));
    assert_eq!(r.translations_folder_id.as_deref(), Some("t2"));
}
