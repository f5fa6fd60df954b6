//! The records that travel between the interface, the local store and
//! Google Drive.
use vstd::prelude::*;

verus! {

/// A request to translate a piece of text.
#[derive(Debug)]
pub struct TranslationPayload {
    pub source_text: String,
    pub target_lang: String,
    pub source_lang: Option<String>,
}

/// A request to transcribe a recorded WAV file.
#[derive(Debug)]
pub struct DictationPayload {
    pub audio_buffer_path: String,
    pub model: String,
}

/// What the translation overlay is opened with.
#[derive(Debug)]
pub struct TranslationEventData {
    pub source_text: String,
    pub translated_text: String,
    pub source_lang: String,
    pub target_lang: String,
}

/// The signed-in Google account and the Drive folders of the app.
#[derive(Debug)]
pub struct UserProfile {
    pub name: String,
    pub email: String,
    pub avatar_url: Option<String>,
    pub is_authenticated: bool,
    pub google_drive_configured: bool,
    pub voce_folder_id: Option<String>,
    pub bookmarks_folder_id: Option<String>,
    pub translations_folder_id: Option<String>,
}

/// A bookmark, with the Drive file that holds it once uploaded.
#[derive(Debug)]
pub struct BookmarkItem {
    pub id: String,
    pub title: Option<String>,
    pub content: String,
    pub source: Option<String>,
    pub created_at: String,
    pub drive_file_id: Option<String>,
}

/// A bookmark as the interface submits it.
#[derive(Debug)]
pub struct BookmarkPayload {
    pub id: String,
    pub title: Option<String>,
    pub content: String,
    pub source: Option<String>,
    pub created_at: String,
}

/// A translation in the history, with the Drive file that holds it.
#[derive(Debug)]
pub struct TranslationRecordPayload {
    pub id: String,
    pub timestamp: String,
    pub source_text: String,
    pub source_lang: String,
    pub translated_text: String,
    pub target_lang: String,
    pub char_count: usize,
    pub drive_file_id: Option<String>,
}

/// A translation to upload retroactively.
#[derive(Debug)]
pub struct TranslationSyncItem {
    pub id: String,
    pub source_text: String,
    pub translated_text: String,
}

/// The merged state after a cloud sync.
#[derive(Debug)]
pub struct CloudSyncResult {
    pub bookmarks: Vec<BookmarkItem>,
    pub translations: Vec<TranslationRecordPayload>,
}

/// The three global shortcuts currently registered.
#[derive(Debug)]
pub struct AppHotkeys {
    pub stt_shortcut: String,
    pub translate_shortcut: String,
    pub bookmark_shortcut: String,
}

/// User preferences kept while the app runs.
#[derive(Debug)]
pub struct AppSettingsState {
    pub target_language: String,
    pub auto_paste: bool,
}

/// The view of an optional string.
pub open spec fn opt_view(o: Option<String>) -> Option<Seq<char>> {
    match o {
        Some(s) => Some(s@),
        None => None,
    }
}

/// A copy of an optional string.
pub fn clone_opt(o: &Option<String>) -> (r: Option<String>)
    ensures
        r == *o,
{
    match o {
        Some(s) => Some(s.clone()),
        None => None,
    }
}

impl BookmarkItem {
    /// A field-for-field copy.
    pub fn duplicate(&self) -> (r: Self)
        ensures
            r == *self,
    {
        BookmarkItem {
            id: self.id.clone(),
            title: clone_opt(&self.title),
            content: self.content.clone(),
            source: clone_opt(&self.source),
            created_at: self.created_at.clone(),
            drive_file_id: clone_opt(&self.drive_file_id),
        }
    }
}

impl TranslationRecordPayload {
    /// A field-for-field copy.
    pub fn duplicate(&self) -> (r: Self)
        ensures
            r == *self,
    {
        TranslationRecordPayload {
            id: self.id.clone(),
            timestamp: self.timestamp.clone(),
            source_text: self.source_text.clone(),
            source_lang: self.source_lang.clone(),
            translated_text: self.translated_text.clone(),
            target_lang: self.target_lang.clone(),
            char_count: self.char_count,
            drive_file_id: clone_opt(&self.drive_file_id),
        }
    }
}

} // verus!
