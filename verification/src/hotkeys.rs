//! The global shortcuts, the settings kept while the app runs, and what the
//! shortcuts and the tray menu start.
use vstd::prelude::*;
use crate::models::{AppHotkeys, AppSettingsState, TranslationEventData};

verus! {

/// The flows that a shortcut or the tray menu starts.
#[derive(Debug, Clone, Copy, PartialEq, Eq, Structural)]
pub enum Flow {
    /// Voice dictation.
    Dictation,
    /// Translating the selected text.
    Translation,
    /// Bookmarking the selected text.
    Bookmark,
}

impl AppHotkeys {
    /// The shortcut of a flow.
    pub open spec fn shortcut_of(self, flow: Flow) -> String {
        match flow {
            Flow::Dictation => self.stt_shortcut,
            Flow::Translation => self.translate_shortcut,
            Flow::Bookmark => self.bookmark_shortcut,
        }
    }

    /// The shortcuts registered at start-up: `Alt+Space` for dictation,
    /// `Alt+T` for translation and `Alt+B` for bookmarks.
    pub fn initial() -> (h: AppHotkeys)
        ensures
            h.stt_shortcut@ == "Alt+Space"@,
            h.translate_shortcut@ == "Alt+T"@,
            h.bookmark_shortcut@ == "Alt+B"@,
    {
        AppHotkeys {
            stt_shortcut: "Alt+Space".to_owned(),
            translate_shortcut: "Alt+T".to_owned(),
            bookmark_shortcut: "Alt+B".to_owned(),
        }
    }

    /// Records the outcome of registering a new shortcut for a flow: the
    /// shortcut is kept only where it was registered; the other flows keep
    /// theirs.
    pub fn record_registration(&mut self, flow: Flow, shortcut: String, registered: bool)
        ensures
            forall|f: Flow| f != flow ==> #[trigger] final(self).shortcut_of(f) == old(
                self,
            ).shortcut_of(f),
            registered ==> final(self).shortcut_of(flow) == shortcut,
            !registered ==> final(self).shortcut_of(flow) == old(self).shortcut_of(flow),
    {
        if registered {
            match flow {
                Flow::Dictation => self.stt_shortcut = shortcut,
                Flow::Translation => self.translate_shortcut = shortcut,
                Flow::Bookmark => self.bookmark_shortcut = shortcut,
            }
        }
    }
}

impl AppSettingsState {
    /// The settings at start-up: translations into English, pasted
    /// automatically.
    pub fn initial() -> (s: AppSettingsState)
        ensures
            s.target_language@ == "English"@,
            s.auto_paste,
    {
        AppSettingsState { target_language: "English".to_owned(), auto_paste: true }
    }
}

/// What the translation overlay opens with: the captured text, no
/// translation yet, the source language to be detected, and the target
/// language of the settings (English where it cannot be read).
pub fn translation_overlay_event(source_text: String, target_language: Option<String>) -> (r:
    TranslationEventData)
    ensures
        r.source_text == source_text,
        r.translated_text@.len() == 0,
        r.source_lang@ == "Auto-detected"@,
        r.target_lang@ == match target_language {
            Some(t) => t@,
            None => "English"@,
        },
{
    TranslationEventData {
        source_text,
        translated_text: String::new(),
        source_lang: "Auto-detected".to_owned(),
        target_lang: match target_language {
            Some(t) => t,
            None => "English".to_owned(),
        },
    }
}

/// What an entry of the tray menu does.
#[derive(Debug, Clone, Copy, PartialEq, Eq, Structural)]
pub enum TrayAction {
    /// Quit the app.
    Quit,
    /// Show the settings window.
    ShowSettings,
    /// Start a flow.
    Start(Flow),
}

/// The tray menu: `show`, `stt`, `trn`, `bm` and `quit`; other ids do
/// nothing.
pub fn tray_menu_action(id: &str) -> (r: Option<TrayAction>)
    ensures
        id@ == "quit"@ ==> r == Some(TrayAction::Quit),
        id@ == "show"@ ==> r == Some(TrayAction::ShowSettings),
        id@ == "stt"@ ==> r == Some(TrayAction::Start(Flow::Dictation)),
        id@ == "trn"@ ==> r == Some(TrayAction::Start(Flow::Translation)),
        id@ == "bm"@ ==> r == Some(TrayAction::Start(Flow::Bookmark)),
        !(id@ == "quit"@ || id@ == "show"@ || id@ == "stt"@ || id@ == "trn"@ || id@ == "bm"@)
            ==> r is None,
{
    let c = crate::text::chars_of(id);
    let quit = crate::text::chars_of("quit");
    let show = crate::text::chars_of("show");
    let stt = crate::text::chars_of("stt");
    let trn = crate::text::chars_of("trn");
    let bm = crate::text::chars_of("bm");
    proof {
        reveal_strlit("quit");
        reveal_strlit("show");
        reveal_strlit("stt");
        reveal_strlit("trn");
        reveal_strlit("bm");
        assert("quit"@[0] == 'q' && "show"@[0] == 's' && "stt"@[1] == 't' && "trn"@[0] == 't'
            && "bm"@[0] == 'b' && "show"@[1] == 'h');
    }
    if crate::text::same_chars(c.as_slice(), quit.as_slice()) {
        Some(TrayAction::Quit)
    } else if crate::text::same_chars(c.as_slice(), show.as_slice()) {
        Some(TrayAction::ShowSettings)
    } else if crate::text::same_chars(c.as_slice(), stt.as_slice()) {
        Some(TrayAction::Start(Flow::Dictation))
    } else if crate::text::same_chars(c.as_slice(), trn.as_slice()) {
        Some(TrayAction::Start(Flow::Translation))
    } else if crate::text::same_chars(c.as_slice(), bm.as_slice()) {
        Some(TrayAction::Start(Flow::Bookmark))
    } else {
        None
    }
}

} // verus!
