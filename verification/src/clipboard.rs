//! Capturing the selected text through the clipboard without losing what
//! the clipboard held: the decisions between the clipboard reads.
use vstd::prelude::*;
use crate::text::{chars_of, nonblank, nonblank_in};

verus! {

/// How many times the clipboard is read, 40 ms apart, after the copy
/// keystroke.
pub const CAPTURE_POLLS: u32 = 10;

/// A capture under way: what the clipboard held before, and the reads made.
#[derive(Debug)]
pub struct Capture {
    pub original: String,
    pub polls: u32,
}

/// What follows a clipboard read.
#[derive(Debug)]
pub enum CaptureAction {
    /// Wait 40 ms and read the clipboard again.
    Poll,
    /// The selection was copied: `text` is its trimmed text, and
    /// `restore`, where present, is put back on the clipboard.
    Captured { text: String, restore: Option<String> },
    /// Nothing was copied: put this text back on the clipboard; the
    /// capture gives the empty text.
    Restore(String),
    /// Nothing was copied and nothing is to be restored; the capture gives
    /// the empty text.
    Nothing,
}

/// What an action puts back on the clipboard.
pub open spec fn restored(a: CaptureAction) -> Option<String> {
    match a {
        CaptureAction::Captured { text, restore } => restore,
        CaptureAction::Restore(o) => Some(o),
        _ => None,
    }
}

impl Capture {
    /// What a finished capture puts back: the text the clipboard held, if
    /// it held any.
    pub open spec fn to_restore(self) -> Option<String> {
        if self.original@.len() > 0 {
            Some(self.original)
        } else {
            None
        }
    }

    /// The reads stay within their bound.
    pub open spec fn wf(self) -> bool {
        self.polls <= CAPTURE_POLLS
    }

    /// Starts a capture with what the clipboard held (empty where it could
    /// not be read).
    pub fn start(original: Option<String>) -> (c: Capture)
        ensures
            c.wf(),
            c.polls == 0,
            c.original@ == match original {
                Some(o) => o@,
                None => Seq::<char>::empty(),
            },
    {
        Capture {
            original: match original {
                Some(o) => o,
                None => String::new(),
            },
            polls: 0,
        }
    }

    /// Takes one clipboard read (nothing where it failed): a text that is
    /// not blank is the capture; otherwise the clipboard is read again
    /// until the reads are used up. A capture never loses what the
    /// clipboard held: once it ends, with or without a selection, what the
    /// clipboard held before is put back, unless that was empty.
    pub fn step(&mut self, read: Option<String>) -> (a: CaptureAction)
        requires
            old(self).wf(),
            old(self).polls < CAPTURE_POLLS,
        ensures
            final(self).wf(),
            final(self).original == old(self).original,
            final(self).polls == old(self).polls + 1,
            !(a is Poll) ==> restored(a) == old(self).to_restore(),
            match read {
                Some(t) if nonblank(t@) is Some => a matches CaptureAction::Captured { text, .. }
                    && Some(text@) == nonblank(t@),
                _ => if final(self).polls < CAPTURE_POLLS {
                    a is Poll
                } else if old(self).original@.len() > 0 {
                    a is Restore
                } else {
                    a is Nothing
                },
            },
    {
        self.polls = self.polls + 1;
        let captured = match &read {
            Some(t) => {
                let c = chars_of(t.as_str());
                nonblank_in(c.as_slice())
            },
            None => None,
        };
        let held = chars_of(self.original.as_str()).len() > 0;
        match captured {
            Some(c) => CaptureAction::Captured {
                text: c,
                restore: if held {
                    Some(self.original.clone())
                } else {
                    None
                },
            },
            None => {
                if self.polls < CAPTURE_POLLS {
                    CaptureAction::Poll
                } else if held {
                    CaptureAction::Restore(self.original.clone())
                } else {
                    CaptureAction::Nothing
                }
            },
        }
    }
}

/// The overlay windows hidden before text is pasted at the cursor.
pub const OVERLAY_LABELS: [&'static str; 3] = ["stt-overlay", "translate-overlay", "bookmark-overlay"];

} // verus!
