//! The requests that keep the app's files in Google Drive: folder
//! lookups, listings, uploads and what their replies give.
use vstd::prelude::*;
use crate::models::{opt_view, BookmarkItem, BookmarkPayload, UserProfile};
use crate::sync::{json_string_field, json_text_field, url_encode, url_encoded};
use crate::text::{chars_of, contains, contains_in, push_str, string_of, trim, trim_in};

verus! {

/// Why a reply from Drive or Google could not be used.
#[derive(Debug)]
pub enum ReplyError {
    /// The reply is not JSON.
    Unreadable,
    /// The reply lacks the field that was wanted.
    MissingField,
}

/// One entry of a Drive file listing, with the fields it carries as
/// strings.
#[derive(Debug)]
pub struct DriveFile {
    pub id: Option<String>,
    pub name: Option<String>,
    pub created_time: Option<String>,
}

/// The Drive search for a folder of the app: by name, inside the parent
/// where one is given, not trashed.
pub open spec fn folder_query(name: Seq<char>, parent: Option<Seq<char>>) -> Seq<char> {
    match parent {
        Some(pid) => "name = '"@ + name + "' and '"@ + pid
            + "' in parents and mimeType = 'application/vnd.google-apps.folder' and trashed = false"@,
        None => "name = '"@ + name
            + "' and mimeType = 'application/vnd.google-apps.folder' and trashed = false"@,
    }
}

/// The address that searches for a folder.
pub open spec fn folder_search_url(name: Seq<char>, parent: Option<Seq<char>>) -> Seq<char> {
    "https://www.googleapis.com/drive/v3/files?q="@ + url_encoded(
        vstd::utf8::encode_utf8(folder_query(name, parent)),
    ) + "&fields=files(id,name,trashed)&spaces=drive"@
}

/// Writes the address that searches for a folder.
pub fn drive_folder_search_url(name: &str, parent_id: Option<&str>) -> (r: String)
    ensures
        r@ == folder_search_url(name@, crate::text::opt_str_view(parent_id)),
{
    let mut q: Vec<char> = Vec::new();
    push_str(&mut q, "name = '");
    push_str(&mut q, name);
    match parent_id {
        Some(pid) => {
            push_str(&mut q, "' and '");
            push_str(&mut q, pid);
            push_str(
                &mut q,
                "' in parents and mimeType = 'application/vnd.google-apps.folder' and trashed = false",
            );
        },
        None => {
            push_str(
                &mut q,
                "' and mimeType = 'application/vnd.google-apps.folder' and trashed = false",
            );
        },
    }
    let query = string_of(q.as_slice());
    let enc = url_encode(query.as_str());
    let mut out: Vec<char> = Vec::new();
    push_str(&mut out, "https://www.googleapis.com/drive/v3/files?q=");
    push_str(&mut out, enc.as_str());
    push_str(&mut out, "&fields=files(id,name,trashed)&spaces=drive");
    string_of(out.as_slice())
}

/// The folder that a search found: the id of the first file listed, where
/// it has one.
pub fn found_folder_id(files: &Vec<DriveFile>) -> (r: Option<String>)
    ensures
        files@.len() == 0 ==> r is None,
        files@.len() > 0 ==> r == files@[0].id,
{
    if files.len() == 0 {
        None
    } else {
        crate::models::clone_opt(&files[0].id)
    }
}

/// A failed folder creation under a parent that Drive no longer shows
/// (`notFound`, `File not found` or `404` in the reply): the `Voce` folder
/// is then made again and the folder created under it.
pub open spec fn parent_lost(has_parent: bool, err: Seq<char>) -> bool {
    has_parent && (contains(err, "notFound"@) || contains(err, "File not found"@) || contains(
        err,
        "404"@,
    ))
}

/// Whether a failed folder creation calls for making the `Voce` folder
/// again.
pub fn parent_folder_lost(has_parent: bool, err: &str) -> (r: bool)
    ensures
        r == parent_lost(has_parent, err@),
{
    if !has_parent {
        return false;
    }
    let e = chars_of(err);
    let a = chars_of("notFound");
    let b = chars_of("File not found");
    let c = chars_of("404");
    contains_in(e.as_slice(), a.as_slice()) || contains_in(e.as_slice(), b.as_slice())
        || contains_in(e.as_slice(), c.as_slice())
}

/// The id of the file that a create or upload reply describes (its `id`
/// field).
pub fn created_file_id(body: &str) -> (r: Result<String, ReplyError>)
    ensures
        match json_string_field(body@, "id"@) {
            None => r matches Err(ReplyError::Unreadable),
            Some(None) => r matches Err(ReplyError::MissingField),
            Some(Some(id)) => r matches Ok(s) && s@ == id,
        },
{
    match json_text_field(body, "id") {
        None => Err(ReplyError::Unreadable),
        Some(None) => Err(ReplyError::MissingField),
        Some(Some(id)) => Ok(id),
    }
}

/// The Drive search for the files of a folder that are not trashed.
pub open spec fn children_query(folder_id: Seq<char>) -> Seq<char> {
    "'"@ + folder_id + "' in parents and trashed = false"@
}

/// The address that lists the files of a folder with the given fields, a
/// thousand at most.
pub open spec fn children_list_url(folder_id: Seq<char>, fields: Seq<char>) -> Seq<char> {
    "https://www.googleapis.com/drive/v3/files?q="@ + url_encoded(
        vstd::utf8::encode_utf8(children_query(folder_id)),
    ) + "&fields=files("@ + fields + ")&pageSize=1000"@
}

/// Writes the address that lists the files of a folder.
pub fn drive_children_list_url(folder_id: &str, fields: &str) -> (r: String)
    ensures
        r@ == children_list_url(folder_id@, fields@),
{
    let mut q: Vec<char> = Vec::new();
    push_str(&mut q, "'");
    push_str(&mut q, folder_id);
    push_str(&mut q, "' in parents and trashed = false");
    let query = string_of(q.as_slice());
    let enc = url_encode(query.as_str());
    let mut out: Vec<char> = Vec::new();
    push_str(&mut out, "https://www.googleapis.com/drive/v3/files?q=");
    push_str(&mut out, enc.as_str());
    push_str(&mut out, "&fields=files(");
    push_str(&mut out, fields);
    push_str(&mut out, ")&pageSize=1000");
    string_of(out.as_slice())
}

/// The address that lists the bookmark files of a folder, a hundred at
/// most (the folder id goes into the query as it is).
pub open spec fn bookmark_list_url(folder_id: Seq<char>) -> Seq<char> {
    "https://www.googleapis.com/drive/v3/files?q='"@ + folder_id
        + "'%20in%20parents%20and%20trashed%3Dfalse&fields=files(id,name,createdTime)&pageSize=100"@
}

/// Writes the address that lists the bookmark files of a folder.
pub fn drive_bookmark_list_url(folder_id: &str) -> (r: String)
    ensures
        r@ == bookmark_list_url(folder_id@),
{
    let mut out: Vec<char> = Vec::new();
    push_str(&mut out, "https://www.googleapis.com/drive/v3/files?q='");
    push_str(&mut out, folder_id);
    push_str(
        &mut out,
        "'%20in%20parents%20and%20trashed%3Dfalse&fields=files(id,name,createdTime)&pageSize=100",
    );
    string_of(out.as_slice())
}

/// The address of a Drive file.
pub fn drive_file_url(file_id: &str) -> (r: String)
    ensures
        r@ == "https://www.googleapis.com/drive/v3/files/"@ + file_id@,
{
    let mut out: Vec<char> = Vec::new();
    push_str(&mut out, "https://www.googleapis.com/drive/v3/files/");
    push_str(&mut out, file_id);
    string_of(out.as_slice())
}

/// The address that downloads the content of a Drive file.
pub fn drive_media_url(file_id: &str) -> (r: String)
    ensures
        r@ == "https://www.googleapis.com/drive/v3/files/"@ + file_id@ + "?alt=media"@,
{
    let mut out: Vec<char> = Vec::new();
    push_str(&mut out, "https://www.googleapis.com/drive/v3/files/");
    push_str(&mut out, file_id);
    push_str(&mut out, "?alt=media");
    string_of(out.as_slice())
}

/// The address that overwrites the content of a Drive file.
pub fn drive_media_update_url(file_id: &str) -> (r: String)
    ensures
        r@ == "https://www.googleapis.com/upload/drive/v3/files/"@ + file_id@
            + "?uploadType=media"@,
{
    let mut out: Vec<char> = Vec::new();
    push_str(&mut out, "https://www.googleapis.com/upload/drive/v3/files/");
    push_str(&mut out, file_id);
    push_str(&mut out, "?uploadType=media");
    string_of(out.as_slice())
}

/// The boundary between the parts of an upload.
pub const UPLOAD_BOUNDARY: &'static str = "voce_boundary_txt";

/// A `multipart/related` upload: the JSON metadata, then the text.
pub open spec fn multipart(metadata: Seq<char>, content: Seq<char>) -> Seq<char> {
    "--"@ + UPLOAD_BOUNDARY@ + "\r\nContent-Type: application/json; charset=UTF-8\r\n\r\n"@
        + metadata + "\r\n--"@ + UPLOAD_BOUNDARY@
        + "\r\nContent-Type: text/plain; charset=UTF-8\r\n\r\n"@ + content + "\r\n--"@
        + UPLOAD_BOUNDARY@ + "--"@
}

/// Frames the metadata and the text of an upload.
pub fn multipart_body(metadata: &str, content: &str) -> (r: String)
    ensures
        r@ == multipart(metadata@, content@),
{
    let mut out: Vec<char> = Vec::new();
    push_str(&mut out, "--");
    push_str(&mut out, UPLOAD_BOUNDARY);
    push_str(&mut out, "\r\nContent-Type: application/json; charset=UTF-8\r\n\r\n");
    push_str(&mut out, metadata);
    push_str(&mut out, "\r\n--");
    push_str(&mut out, UPLOAD_BOUNDARY);
    push_str(&mut out, "\r\nContent-Type: text/plain; charset=UTF-8\r\n\r\n");
    push_str(&mut out, content);
    push_str(&mut out, "\r\n--");
    push_str(&mut out, UPLOAD_BOUNDARY);
    push_str(&mut out, "--");
    string_of(out.as_slice())
}

/// The `Content-Type` of an upload.
pub fn multipart_content_type() -> (r: String)
    ensures
        r@ == "multipart/related; boundary="@ + UPLOAD_BOUNDARY@,
{
    let mut out: Vec<char> = Vec::new();
    push_str(&mut out, "multipart/related; boundary=");
    push_str(&mut out, UPLOAD_BOUNDARY);
    string_of(out.as_slice())
}

/// The Drive file to delete directly: the one given, unless it is blank.
pub fn direct_delete_target(file_id: Option<String>) -> (r: Option<String>)
    ensures
        r == match file_id {
            Some(f) => if trim(f@).len() > 0 {
                Some(f)
            } else {
                None
            },
            None => None,
        },
{
    match file_id {
        Some(f) => {
            let c = chars_of(f.as_str());
            if trim_in(c.as_slice()).len() > 0 {
                Some(f)
            } else {
                None
            }
        },
        None => None,
    }
}

/// The ids of the listed files that have one, in order.
pub open spec fn listed_ids(files: Seq<DriveFile>) -> Seq<String>
    decreases files.len(),
{
    if files.len() == 0 {
        Seq::empty()
    } else {
        let rest = listed_ids(files.drop_last());
        match files.last().id {
            Some(id) => rest.push(id),
            None => rest,
        }
    }
}

/// The files of a listing to visit: those with an id.
pub fn listed_file_ids(files: &Vec<DriveFile>) -> (r: Vec<String>)
    ensures
        r@ == listed_ids(files@),
{
    let mut r: Vec<String> = Vec::new();
    let mut i: usize = 0;
    while i < files.len()
        invariant
            i <= files.len(),
            r@ == listed_ids(files@.take(i as int)),
        decreases files.len() - i,
    {
        assert(files@.take(i + 1).drop_last() =~= files@.take(i as int));
        match &files[i].id {
            Some(id) => r.push(id.clone()),
            None => {},
        }
        i += 1;
    }
    assert(files@.take(files.len() as int) =~= files@);
    r
}

/// The bookmark that an upload or an update leaves: the payload, with the
/// Drive file that now holds it.
pub fn uploaded_bookmark(payload: BookmarkPayload, drive_file_id: String) -> (r: BookmarkItem)
    ensures
        r.id == payload.id,
        r.title == payload.title,
        r.content == payload.content,
        r.source == payload.source,
        r.created_at == payload.created_at,
        r.drive_file_id == Some(drive_file_id),
{
    BookmarkItem {
        id: payload.id,
        title: payload.title,
        content: payload.content,
        source: payload.source,
        created_at: payload.created_at,
        drive_file_id: Some(drive_file_id),
    }
}

/// The stored profile once the `Voce` and bookmarks folders have been set
/// up: both recorded, Drive configured, the rest as it was.
pub fn with_bookmarks_folder(profile: UserProfile, voce_id: String, bookmarks_id: String) -> (r:
    UserProfile)
    ensures
        r == (UserProfile {
            voce_folder_id: Some(voce_id),
            bookmarks_folder_id: Some(bookmarks_id),
            google_drive_configured: true,
            ..profile
        }),
{
    UserProfile {
        voce_folder_id: Some(voce_id),
        bookmarks_folder_id: Some(bookmarks_id),
        google_drive_configured: true,
        ..profile
    }
}

/// The stored profile once a sync has set up all three folders: each
/// recorded, Drive configured, the rest as it was.
pub fn with_drive_folders(
    profile: UserProfile,
    voce_id: String,
    bookmarks_id: String,
    translations_id: String,
) -> (r: UserProfile)
    ensures
        r == (UserProfile {
            voce_folder_id: Some(voce_id),
            bookmarks_folder_id: Some(bookmarks_id),
            translations_folder_id: Some(translations_id),
            google_drive_configured: true,
            ..profile
        }),
{
    UserProfile {
        voce_folder_id: Some(voce_id),
        bookmarks_folder_id: Some(bookmarks_id),
        translations_folder_id: Some(translations_id),
        google_drive_configured: true,
        ..profile
    }
}

} // verus!
