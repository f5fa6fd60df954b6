//! The command-line speech recognizer: its options and the script it hands
//! to the system's speech engine.
use vstd::prelude::*;
use crate::text::{chars_of, push_slice, push_str, replace, replace_in, string_of};
use crate::translator::{arg_views, is_one_of, is_one_of_in};

verus! {

/// The flags that name the WAV file.
pub const FILE_FLAGS: [&'static str; 2] = ["-f", "--file"];

/// The flags that name the model.
pub const WHISPER_MODEL_FLAGS: [&'static str; 2] = ["-m", "--model"];

/// The flags that turn timestamps off.
pub const NO_TIMESTAMP_FLAGS: [&'static str; 2] = ["-nt", "--no-timestamps"];

/// The recognizer's options.
#[derive(Debug)]
pub struct WhisperOptions {
    pub file_path: String,
    pub model_path: String,
    pub no_timestamps: bool,
}

pub type WhisperValues = (Seq<char>, Seq<char>, bool);

/// The options read from the arguments from position `i` on: a file or
/// model flag followed by a value sets it and both are consumed (at the
/// end, the flag alone is skipped); a no-timestamps flag sets that option;
/// anything else is skipped.
pub open spec fn scan_whisper(args: Seq<Seq<char>>, i: int, o: WhisperValues) -> WhisperValues
    decreases args.len() - i,
{
    if i < 0 || i >= args.len() {
        o
    } else if is_one_of(args[i], FILE_FLAGS@) {
        if i + 1 < args.len() {
            scan_whisper(args, i + 2, (args[i + 1], o.1, o.2))
        } else {
            scan_whisper(args, i + 1, o)
        }
    } else if is_one_of(args[i], WHISPER_MODEL_FLAGS@) {
        if i + 1 < args.len() {
            scan_whisper(args, i + 2, (o.0, args[i + 1], o.2))
        } else {
            scan_whisper(args, i + 1, o)
        }
    } else if is_one_of(args[i], NO_TIMESTAMP_FLAGS@) {
        scan_whisper(args, i + 1, (o.0, o.1, true))
    } else {
        scan_whisper(args, i + 1, o)
    }
}

/// The options of a command line, the program name first; all empty or
/// off by default.
pub open spec fn whisper_options(args: Seq<Seq<char>>) -> WhisperValues {
    scan_whisper(args, 1, (Seq::empty(), Seq::empty(), false))
}

/// Reads the recognizer's options from its command line.
pub fn parse_whisper_args(args: &Vec<String>) -> (r: WhisperOptions)
    ensures
        (r.file_path@, r.model_path@, r.no_timestamps) == whisper_options(arg_views(args@)),
{
    let ghost av = arg_views(args@);
    let mut file_path = String::new();
    let mut model_path = String::new();
    let mut no_timestamps = false;
    let mut i: usize = 1;
    while i < args.len()
        invariant
            av == arg_views(args@),
            1 <= i,
            scan_whisper(av, i as int, (file_path@, model_path@, no_timestamps)) == whisper_options(
                av,
            ),
        decreases args.len() - i,
    {
        let a = chars_of(args[i].as_str());
        assert(av[i as int] == args@[i as int]@);
        if is_one_of_in(a.as_slice(), &FILE_FLAGS) {
            if i + 1 < args.len() {
                file_path = args[i + 1].clone();
                i += 1;
            }
        } else if is_one_of_in(a.as_slice(), &WHISPER_MODEL_FLAGS) {
            if i + 1 < args.len() {
                model_path = args[i + 1].clone();
                i += 1;
            }
        } else if is_one_of_in(a.as_slice(), &NO_TIMESTAMP_FLAGS) {
            no_timestamps = true;
        }
        i += 1;
    }
    WhisperOptions { file_path, model_path, no_timestamps }
}

/// The start of the recognition script, up to the quoted file path.
pub const SCRIPT_HEAD: &'static str =
    "[Console]::OutputEncoding = [System.Text.Encoding]::UTF8; Add-Type -AssemblyName System.Speech; $engine = New-Object System.Speech.Recognition.SpeechRecognitionEngine; try { $engine.SetInputToWaveFile('";

/// The rest of the recognition script after the quoted file path.
pub const SCRIPT_TAIL: &'static str =
    "'); $engine.LoadGrammar((New-Object System.Speech.Recognition.DictationGrammar)); $sb = New-Object System.Text.StringBuilder; while ($true) { try { $res = $engine.Recognize(); if ($res -eq $null) { break }; [void]$sb.Append($res.Text + ' ') } catch { break } }; $transcription = $sb.ToString().Trim(); if ($transcription.Length -gt 0) { [Console]::Out.Write($transcription) } } catch { [Console]::Error.WriteLine($_) } finally { $engine.Dispose() }";

/// The script that recognizes the speech in a WAV file: the path goes in
/// single quotes, each quote in it doubled.
pub open spec fn recognition_script(file_path: Seq<char>) -> Seq<char> {
    SCRIPT_HEAD@ + replace(file_path, "'"@, "''"@) + SCRIPT_TAIL@
}

/// Writes the script that recognizes the speech in a WAV file.
pub fn speech_script(file_path: &str) -> (r: String)
    ensures
        r@ == recognition_script(file_path@),
{
    let p = chars_of(file_path);
    let quote = chars_of("'");
    let doubled = chars_of("''");
    proof {
        reveal_strlit("'");
    }
    let escaped = replace_in(p.as_slice(), quote.as_slice(), doubled.as_slice());
    let mut out: Vec<char> = Vec::new();
    push_str(&mut out, SCRIPT_HEAD);
    push_slice(&mut out, escaped.as_slice());
    push_str(&mut out, SCRIPT_TAIL);
    string_of(out.as_slice())
}

} // verus!
