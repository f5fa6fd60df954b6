use voce::audio::{recording_file_name, speech_bounds};
use voce::clipboard::{Capture, CaptureAction, CAPTURE_POLLS, OVERLAY_LABELS};
use voce::hotkeys::{translation_overlay_event, tray_menu_action, Flow, TrayAction};
use voce::models::{AppHotkeys, AppSettingsState};
use voce::whisper::{parse_whisper_args, speech_script};
use voce::windows::{overlay_fits, overlay_position};

#[test]
fn start_up_shortcuts_and_settings() {
    let h = AppHotkeys::initial();
    assert_eq!(h.stt_shortcut, "Alt+Space");
    assert_eq!(h.translate_shortcut, "Alt+T");
    assert_eq!(h.bookmark_shortcut, "Alt+B");
    let s = AppSettingsState::initial();
    assert_eq!(s.target_language, "English");
    assert!(s.auto_paste);
}

#[test]
fn only_a_registered_shortcut_replaces_the_old_one() {
    let mut h = AppHotkeys::initial();
    h.record_registration(Flow::Translation, "Ctrl+T".to_string(), true);
    h.record_registration(Flow::Bookmark, "Bad+Key".to_string(), false);
    assert_eq!(h.stt_shortcut, "Alt+Space");
    assert_eq!(h.translate_shortcut, "Ctrl+T");
    assert_eq!(h.bookmark_shortcut, "Alt+B");
}

#[test]
fn the_translation_overlay_opens_with_the_capture() {
    let e = translation_overlay_event("text".to_string(), Some("German".to_string()));
    assert_eq!(e.source_text, "text");
    assert_eq!(e.translated_text, "");
    assert_eq!(e.source_lang, "Auto-detected");
    assert_eq!(e.target_lang, "German");
    let f = translation_overlay_event(String::new(), None);
    assert_eq!(f.target_lang, "English");
}

#[test]
fn tray_menu_entries() {
    assert_eq!(tray_menu_action("quit"), Some(TrayAction::Quit));
    assert_eq!(tray_menu_action("show"), Some(TrayAction::ShowSettings));
    assert_eq!(tray_menu_action("stt"), Some(TrayAction::Start(Flow::Dictation)));
    assert_eq!(tray_menu_action("trn"), Some(TrayAction::Start(Flow::Translation)));
    assert_eq!(tray_menu_action("bm"), Some(TrayAction::Start(Flow::Bookmark)));
    assert_eq!(tray_menu_action("other"), None);
}

#[test]
fn a_copied_selection_is_captured_trimmed() {
    let mut c = Capture::start(Some("old".to_string()));
    assert!(matches!(c.step(None), CaptureAction::Poll));
    assert!(matches!(c.step(Some("   ".to_string())), CaptureAction::Poll));
    assert!(matches!(
        c.step(Some("  picked ".to_string())),
        CaptureAction::Captured { text, restore: Some(o) } if text == "picked" && o == "old"
    ));
    assert_eq!(c.polls, 3);
}

#[test]
fn an_empty_clipboard_is_left_with_the_selection() {
    let mut c = Capture::start(None);
    assert!(matches!(
        c.step(Some("x".to_string())),
        CaptureAction::Captured { text, restore: None } if text == "x"
    ));
}

#[test]
fn without_a_selection_the_clipboard_is_restored() {
    let mut c = Capture::start(Some("old".to_string()));
    for _ in 0..CAPTURE_POLLS - 1 {
        assert!(matches!(c.step(None), CaptureAction::Poll));
    }
    assert!(matches!(c.step(Some("".to_string())), CaptureAction::Restore(o) if o == "old"));
}

#[test]
fn an_empty_clipboard_is_not_restored() {
    let mut c = Capture::start(None);
    for _ in 0..CAPTURE_POLLS - 1 {
        assert!(matches!(c.step(None), CaptureAction::Poll));
    }
    assert!(matches!(c.step(None), CaptureAction::Nothing));
    assert_eq!(OVERLAY_LABELS, ["stt-overlay", "translate-overlay", "bookmark-overlay"]);
}

#[test]
fn an_overlay_goes_under_the_cursor() {
    assert_eq!(overlay_position(500, 500, 400, 220, 0, 0, 1920, 1080, 20), (300, 520));
}

#[test]
fn an_overlay_near_the_bottom_right_goes_above_and_left() {
    assert_eq!(overlay_position(1900, 1000, 400, 220, 0, 0, 1920, 1080, 20), (1510, 760));
}

#[test]
fn an_overlay_in_the_corner_is_kept_inside() {
    assert_eq!(overlay_position(0, 0, 400, 220, 0, 0, 1920, 1080, 20), (10, 20));
    assert_eq!(overlay_position(100, 100, 400, 220, 1920, 0, 1280, 720, 20), (1930, 120));
}

#[test]
fn speech_is_kept_with_its_padding() {
    let mut loud = vec![false; 20];
    loud[10] = true;
    loud[12] = true;
    assert_eq!(speech_bounds(40, 100, &loud), (12, 34));
}

#[test]
fn silence_keeps_everything() {
    assert_eq!(speech_bounds(40, 100, &vec![false; 20]), (0, 40));
    let mut loud = vec![false; 5];
    loud[2] = true;
    assert_eq!(speech_bounds(100, 1000, &loud), (0, 100));
}

#[test]
fn speech_at_the_end_runs_to_the_end() {
    let mut loud = vec![false; 3];
    loud[2] = true;
    assert_eq!(speech_bounds(5, 100, &loud), (0, 5));
    let mut long = vec![false; 100];
    long[90] = true;
    assert_eq!(speech_bounds(16000 * 2, 16000, &vec![false; 100]), (0, 32000));
    assert_eq!(speech_bounds(32000, 16000, &long), (27520, 30400));
}

#[test]
fn recordings_are_named_by_the_moment() {
    assert_eq!(recording_file_name(123), "voce_recording_123.wav");
}

#[test]
fn recognizer_options() {
    let args: Vec<String> = vec!["w", "-m", "mdl", "-nt", "--file", "a.wav", "-f"]
        .into_iter()
        .map(|s| s.to_string())
        .collect();
    let o = parse_whisper_args(&args);
    assert_eq!(o.file_path, "a.wav");
    assert_eq!(o.model_path, "mdl");
    assert!(o.no_timestamps);
    let none = parse_whisper_args(&vec!["w".to_string()]);
    assert_eq!(none.file_path, "");
    assert!(!none.no_timestamps);
}

#[test]
fn recognition_script_quotes_the_path() {
    let script = speech_script("C:\\it's.wav");
    let expected = format!(
        "[Console]::OutputEncoding = [System.Text.Encoding]::UTF8; \
         Add-Type -AssemblyName System.Speech; \
         $engine = New-Object System.Speech.Recognition.SpeechRecognitionEngine; \
         try {{ \
             $engine.SetInputToWaveFile('{}'); \
             $engine.LoadGrammar((New-Object System.Speech.Recognition.DictationGrammar)); \
             $sb = New-Object System.Text.StringBuilder; \
             while ($true) {{ \
                 try {{ \
                     $res = $engine.Recognize(); \
                     if ($res -eq $null) {{ break }}; \
                     [void]$sb.Append($res.Text + ' ') \
                 }} catch {{ \
                     break \
                 }} \
             }}; \
             $transcription = $sb.ToString().Trim(); \
             if ($transcription.Length -gt 0) {{ \
                 [Console]::Out.Write($transcription) \
             }} \
         }} catch {{ \
             [Console]::Error.WriteLine($_) \
         }} finally {{ \
             $engine.Dispose() \
         }}",
        "C:\\it''s.wav"
    );
    assert_eq!(script, expected);
}

#[test]
fn placements_that_would_overflow_are_recognized() {
    assert!(overlay_fits(500, 500, 400, 220, 0, 0, 1920, 1080, 20));
    assert!(!overlay_fits(i32::MAX, 0, 400, 220, 0, 0, 1920, 1080, 20));
    assert!(!overlay_fits(0, 0, 400, 220, 0, 1, 1920, i32::MAX, 20));
    assert!(overlay_fits(0, 0, 400, 220, 0, 0, i32::MAX, 1080, 20));
}

#[test]
fn a_new_recording_is_named_by_the_clock() {
    let name = voce::audio::new_recording_file_name().unwrap();
    assert!(name.starts_with("voce_recording_"));
    assert!(name.ends_with(".wav"));
    let millis: u128 = name["voce_recording_".len()..name.len() - 4].parse().unwrap();
    assert!(millis > 1_600_000_000_000);
}
