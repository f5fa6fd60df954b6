//! The Groq side of the assistant: which API key is used, what a
//! transcription reply yields, and how a translation walks through the
//! candidate models.
use vstd::prelude::*;
use crate::models::{opt_view, TranslationPayload};
use crate::sync::{json_field, json_string_field, json_text_field, opt_opt_view};
use crate::text::{
    char_is_ws, chars_of, contains, contains_in, decimal, is_ws, nonblank, nonblank_in, or_empty,
    push_slice, push_str, string_of, trim, trim_in,
};

verus! {

// ---------------------------------------------------------------------
// API key
// ---------------------------------------------------------------------

/// The key to use: the stored one, trimmed, if it is not blank, else the
/// `GROQ_API_KEY` variable, trimmed, if it is not blank.
pub open spec fn groq_key(stored: Option<Seq<char>>, env: Option<Seq<char>>) -> Option<Seq<char>> {
    match (match stored {
        Some(s) => nonblank(s),
        None => None,
    }) {
        Some(k) => Some(k),
        None => match env {
            Some(e) => nonblank(e),
            None => None,
        },
    }
}

fn nonblank_of(o: Option<&str>) -> (r: Option<String>)
    ensures
        opt_view(r) == match o {
            Some(s) => nonblank(s@),
            None => None,
        },
{
    match o {
        Some(s) => {
            let c = chars_of(s);
            nonblank_in(c.as_slice())
        },
        None => None,
    }
}

/// The key that the stored setting (a string, where the store holds one)
/// and the environment give, if any.
pub fn get_stored_api_key(stored: Option<&str>, env: Option<&str>) -> (r: Result<
    Option<String>,
    String,
>)
    ensures
        r matches Ok(k) && opt_view(k) == groq_key(opt_str(stored), opt_str(env)),
{
    match nonblank_of(stored) {
        Some(k) => Ok(Some(k)),
        None => Ok(nonblank_of(env)),
    }
}

pub open spec fn opt_str(o: Option<&str>) -> Option<Seq<char>> {
    match o {
        Some(s) => Some(s@),
        None => None,
    }
}

/// The message given where no key is configured.
pub const NO_KEY_MESSAGE: &'static str =
    "No Groq API key configured. Please enter your API key on the welcome screen or in Settings.";

/// The key for a request to Groq: refused where neither the store nor the
/// environment holds one.
pub fn get_groq_api_key(stored: Option<&str>, env: Option<&str>) -> (r: Result<String, String>)
    ensures
        match groq_key(opt_str(stored), opt_str(env)) {
            Some(k) => r matches Ok(s) && s@ == k,
            None => r matches Err(e) && e@ == NO_KEY_MESSAGE@,
        },
{
    match nonblank_of(stored) {
        Some(k) => Ok(k),
        None => match nonblank_of(env) {
            Some(k) => Ok(k),
            None => Err(NO_KEY_MESSAGE.to_owned()),
        },
    }
}

/// What saving a key does to the store.
#[derive(Debug)]
pub enum KeyUpdate {
    /// The entry is removed: the key given was blank.
    Remove,
    /// The trimmed key is stored.
    Store(String),
}

/// Saving a key stores it trimmed; a blank key removes the stored one.
pub fn api_key_update(api_key: &str) -> (r: KeyUpdate)
    ensures
        match nonblank(api_key@) {
            Some(k) => r matches KeyUpdate::Store(s) && s@ == k,
            None => r is Remove,
        },
{
    match nonblank_of(Some(api_key)) {
        Some(k) => KeyUpdate::Store(k),
        None => KeyUpdate::Remove,
    }
}

/// The key that a validation request is sent with: none (and no request)
/// where it is blank, in which case the key is not valid.
pub fn key_to_validate(api_key: &str) -> (r: Option<String>)
    ensures
        opt_view(r) == nonblank(api_key@),
{
    nonblank_of(Some(api_key))
}

/// The `Authorization` header value for a bearer token.
pub fn bearer(token: &str) -> (r: String)
    ensures
        r@ == "Bearer "@ + token@,
{
    let mut out: Vec<char> = Vec::new();
    push_str(&mut out, "Bearer ");
    push_str(&mut out, token);
    string_of(out.as_slice())
}

// ---------------------------------------------------------------------
// Record ids
// ---------------------------------------------------------------------

/// An integer in decimal, with a minus sign where it is negative.
pub open spec fn signed_decimal(i: int) -> Seq<char> {
    if i < 0 {
        "-"@ + decimal((-i) as nat)
    } else {
        decimal(i as nat)
    }
}

/// Writes a `u64` in decimal.
pub fn decimal_u64(n: u64) -> (r: Vec<char>)
    ensures
        r@ == decimal(n as nat),
    decreases n,
{
    if n < 10 {
        let mut v: Vec<char> = Vec::new();
        v.push(((0x30 + n) as u8) as char);
        assert(v@ =~= decimal(n as nat));
        v
    } else {
        let mut v = decimal_u64(n / 10);
        v.push(((0x30 + n % 10) as u8) as char);
        assert(v@ =~= decimal(n as nat));
        v
    }
}

/// The id of a record made at a moment: the prefix, then the moment in
/// milliseconds.
pub fn record_id(prefix: &str, millis: i64) -> (r: String)
    ensures
        r@ == prefix@ + signed_decimal(millis as int),
{
    let mut out: Vec<char> = Vec::new();
    push_str(&mut out, prefix);
    let magnitude: u64 = if millis < 0 {
        push_str(&mut out, "-");
        if millis == i64::MIN {
            0x8000_0000_0000_0000u64
        } else {
            (-millis) as u64
        }
    } else {
        millis as u64
    };
    let digits = decimal_u64(magnitude);
    push_slice(&mut out, digits.as_slice());
    proof {
        reveal_strlit("-");
    }
    assert(out@ =~= prefix@ + signed_decimal(millis as int));
    string_of(out.as_slice())
}

/// The id of a record made now: the prefix, then the milliseconds since
/// the Unix epoch; nothing where the clock is set before the epoch.
pub fn fresh_record_id(prefix: &str) -> (r: Option<String>)
    ensures
        r matches Some(s) ==> exists|m: nat| s@ == prefix@ + decimal(m),
{
    match crate::clock::millis_since_epoch() {
        Some(m) => {
            if m <= 0x7fff_ffff_ffff_ffffu128 {
                let r = record_id(prefix, m as i64);
                assert(r@ == prefix@ + decimal(m as nat));
                Some(r)
            } else {
                None
            }
        },
        None => None,
    }
}

// ---------------------------------------------------------------------
// Transcription
// ---------------------------------------------------------------------

/// The number of words among the first `n` characters of `s`: the
/// positions where a run of non-white-space characters begins.
pub open spec fn word_starts(s: Seq<char>, n: int) -> nat
    decreases n,
{
    if n <= 0 {
        0
    } else {
        word_starts(s, n - 1) + if !is_ws(s[n - 1]) && (n == 1 || is_ws(s[n - 2])) {
            1nat
        } else {
            0nat
        }
    }
}

/// The number of words of `s`, as `str::split_whitespace` counts them.
pub open spec fn word_count(s: Seq<char>) -> nat {
    word_starts(s, s.len() as int)
}

proof fn lemma_word_starts_bound(s: Seq<char>, n: int)
    requires
        0 <= n,
    ensures
        word_starts(s, n) <= n,
    decreases n,
{
    if n > 0 {
        lemma_word_starts_bound(s, n - 1);
    }
}

/// Counts the words of a text.
pub fn count_words(text: &str) -> (r: usize)
    ensures
        r == word_count(text@),
{
    let c = chars_of(text);
    let mut count: usize = 0;
    let mut i: usize = 0;
    while i < c.len()
        invariant
            i <= c.len(),
            c@ == text@,
            count == word_starts(c@, i as int),
        decreases c.len() - i,
    {
        proof {
            lemma_word_starts_bound(c@, i as int);
        }
        if !char_is_ws(c[i]) && (i == 0 || char_is_ws(c[i - 1])) {
            count = count + 1;
        }
        i += 1;
    }
    count
}

/// The transcript in a transcription reply: its `text` field, trimmed;
/// empty where the reply is not JSON or has no such text.
pub open spec fn reply_transcript(body: Seq<char>) -> Seq<char> {
    trim(or_empty(json_field(body, "text"@)))
}

/// A finished transcription: the transcript, its words, and whether it is
/// kept in the dictation history (only where it has words).
#[derive(Debug)]
pub struct Transcription {
    pub transcript: String,
    pub word_count: usize,
    pub persist: bool,
}

/// What a transcription reply gives; nothing where the reply is not JSON.
pub fn transcription_result(body: &str) -> (r: Option<Transcription>)
    ensures
        match r {
            None => json_string_field(body@, "text"@) is None,
            Some(t) => {
                &&& json_string_field(body@, "text"@) is Some
                &&& t.transcript@ == reply_transcript(body@)
                &&& t.word_count == word_count(reply_transcript(body@))
                &&& t.persist == (word_count(reply_transcript(body@)) > 0)
            },
        },
{
    let field = match json_text_field(body, "text") {
        None => return None,
        Some(Some(t)) => t,
        Some(None) => String::new(),
    };
    let c = chars_of(field.as_str());
    let transcript = string_of(trim_in(c.as_slice()));
    let n = count_words(transcript.as_str());
    Some(Transcription { transcript, word_count: n, persist: n > 0 })
}

/// The message of a transcription reply with a failing status.
pub fn transcription_error(body: &str) -> (r: String)
    ensures
        r@ == "Groq STT error: "@ + body@,
{
    let mut out: Vec<char> = Vec::new();
    push_str(&mut out, "Groq STT error: ");
    push_str(&mut out, body);
    string_of(out.as_slice())
}

// ---------------------------------------------------------------------
// Translation
// ---------------------------------------------------------------------

/// The instructions given to the model.
pub const SYSTEM_PROMPT: &'static str =
    "You are a professional translator. Translate the user's text into the requested target language. Output ONLY the translated text, no conversational filler.";

/// The models tried in turn: the fastest first, then the fallbacks.
pub const CANDIDATE_MODELS: [&'static str; 4] = [
    "openai/gpt-oss-20b",
    "openai/gpt-oss-120b",
    "qwen/qwen3.8-27b",
    "groq/compound",
];

/// `c` in ASCII lower case.
pub open spec fn ascii_lower(c: char) -> char {
    if 'A' <= c <= 'Z' {
        ((c as u32) + 32) as char
    } else {
        c
    }
}

/// Equal but for ASCII case (`str::eq_ignore_ascii_case`).
pub open spec fn eq_ignore_ascii_case(a: Seq<char>, b: Seq<char>) -> bool {
    a.len() == b.len() && forall|i: int| 0 <= i < a.len() ==> ascii_lower(a[i]) == ascii_lower(b[i])
}

fn char_ascii_lower(c: char) -> (r: char)
    ensures
        r == ascii_lower(c),
{
    if 'A' <= c && c <= 'Z' {
        ((c as u32 + 32) as u8) as char
    } else {
        c
    }
}

fn eq_ignore_ascii_case_in(a: &[char], b: &[char]) -> (r: bool)
    ensures
        r == eq_ignore_ascii_case(a@, b@),
{
    if a.len() != b.len() {
        return false;
    }
    let mut i: usize = 0;
    while i < a.len()
        invariant
            i <= a.len(),
            a.len() == b.len(),
            forall|k: int| 0 <= k < i ==> ascii_lower(a@[k]) == ascii_lower(b@[k]),
        decreases a.len() - i,
    {
        if char_ascii_lower(a[i]) != char_ascii_lower(b[i]) {
            return false;
        }
        i += 1;
    }
    true
}

/// The source language named in the prompt: none where it is to be
/// detected (`auto` in any case, or empty).
pub open spec fn named_source(hint: Seq<char>) -> bool {
    !(eq_ignore_ascii_case(hint, "auto"@) || hint.len() == 0)
}

/// The user message of a translation request.
pub open spec fn user_prompt(hint: Seq<char>, target: Seq<char>, text: Seq<char>) -> Seq<char> {
    if named_source(hint) {
        "Source Language: "@ + hint + "\nTarget Language: "@ + target + "\n\nText:\n"@ + text
    } else {
        "Target Language: "@ + target + "\n\nText:\n"@ + text
    }
}

/// A translation to ask for: the trimmed text and target, the source hint
/// (`auto` where none is given) and the user message.
#[derive(Debug)]
pub struct TranslationRequest {
    pub text: String,
    pub target_lang: String,
    pub source_hint: String,
    pub user_prompt: String,
}

/// The source hint of a payload: its source language, else `auto`.
pub open spec fn source_hint(p: TranslationPayload) -> Seq<char> {
    match p.source_lang {
        Some(s) => s@,
        None => "auto"@,
    }
}

/// The request for a payload; none where the text is blank, in which case
/// the translation is the empty text and nothing is sent.
pub fn translation_request(payload: &TranslationPayload) -> (r: Option<TranslationRequest>)
    ensures
        match r {
            None => trim(payload.source_text@).len() == 0,
            Some(q) => {
                &&& trim(payload.source_text@).len() > 0
                &&& q.text@ == trim(payload.source_text@)
                &&& q.target_lang@ == trim(payload.target_lang@)
                &&& q.source_hint@ == source_hint(*payload)
                &&& q.user_prompt@ == user_prompt(
                    source_hint(*payload),
                    trim(payload.target_lang@),
                    trim(payload.source_text@),
                )
            },
        },
{
    let src = chars_of(payload.source_text.as_str());
    let text = trim_in(src.as_slice());
    if text.len() == 0 {
        return None;
    }
    let tgt = chars_of(payload.target_lang.as_str());
    let target = trim_in(tgt.as_slice());
    let hint: Vec<char> = match &payload.source_lang {
        Some(s) => chars_of(s.as_str()),
        None => chars_of("auto"),
    };
    let auto = chars_of("auto");
    let mut out: Vec<char> = Vec::new();
    if eq_ignore_ascii_case_in(hint.as_slice(), auto.as_slice()) || hint.len() == 0 {
        push_str(&mut out, "Target Language: ");
    } else {
        push_str(&mut out, "Source Language: ");
        push_slice(&mut out, hint.as_slice());
        push_str(&mut out, "\nTarget Language: ");
    }
    push_slice(&mut out, target);
    push_str(&mut out, "\n\nText:\n");
    push_slice(&mut out, text);
    Some(TranslationRequest {
        text: string_of(text),
        target_lang: string_of(target),
        source_hint: string_of(hint.as_slice()),
        user_prompt: string_of(out.as_slice()),
    })
}

/// What serde_json reads a chat completion reply as, taken at
/// `choices[0].message.content`: nothing where the text is not JSON, and
/// otherwise the string there, if the reply holds one.
pub uninterp spec fn json_first_choice_content(text: Seq<char>) -> Option<Option<Seq<char>>>;

/// Parses a chat completion reply with `serde_json::from_str` into a
/// `serde_json::Value` and reads `choices[0].message.content`
/// (`Value::index`, `Value::as_str`). The contract names the result only.
#[verifier::external_body]
fn json_choice_content(text: &str) -> (r: Option<Option<String>>)
    ensures
        opt_opt_view(r) == json_first_choice_content(text@),
{
    match serde_json::from_str::<serde_json::Value>(text) {
        Ok(v) => Some(v["choices"][0]["message"]["content"].as_str().map(|s| s.to_string())),
        Err(_) => None,
    }
}

/// How one model answered.
#[derive(Debug)]
pub enum ModelReply {
    /// The request did not reach Groq.
    Unreachable(String),
    /// Groq answered with a failing status (as written, such as
    /// `404 Not Found`) and this body.
    Refused { status: String, body: String },
    /// Groq answered with a success status and this body.
    Answered(String),
}

/// What follows one model's answer.
#[derive(Debug)]
pub enum AttemptStep {
    /// The translation, trimmed.
    Done(String),
    /// The translation has failed with this message.
    Fail(String),
    /// The next model is tried.
    Next,
}

/// The body says that the model cannot be had.
pub open spec fn model_unavailable(body: Seq<char>) -> bool {
    contains(body, "model_not_found"@) || contains(body, "does not exist"@) || contains(
        body,
        "model_decommissioned"@,
    )
}

/// The step after one model's answer, and the last error it leaves.
pub open spec fn attempt_outcome(model: Seq<char>, reply: ModelReply, last_err: Seq<char>) -> (
    Option<Result<Seq<char>, Seq<char>>>,
    Seq<char>,
) {
    match reply {
        ModelReply::Unreachable(e) => (None, "Network error connecting to Groq: "@ + e@),
        ModelReply::Refused { status, body } => if model_unavailable(body@) {
            (None, "Model '"@ + model + "' not available: "@ + body@)
        } else {
            (Some(Err("Groq API error ("@ + status@ + "): "@ + body@)), last_err)
        },
        ModelReply::Answered(body) => match json_first_choice_content(body@) {
            Some(Some(c)) => (Some(Ok(trim(c))), last_err),
            _ => (None, last_err),
        },
    }
}

pub open spec fn step_view(s: AttemptStep) -> Option<Result<Seq<char>, Seq<char>>> {
    match s {
        AttemptStep::Done(t) => Some(Ok(t@)),
        AttemptStep::Fail(e) => Some(Err(e@)),
        AttemptStep::Next => None,
    }
}

fn joined(a: &str, b: &[char], c: &str, d: &[char]) -> (r: String)
    ensures
        r@ == a@ + b@ + c@ + d@,
{
    let mut out: Vec<char> = Vec::new();
    push_str(&mut out, a);
    push_slice(&mut out, b);
    push_str(&mut out, c);
    push_slice(&mut out, d);
    string_of(out.as_slice())
}

/// Decides what follows one model's answer: a usable answer ends the
/// translation; a refusal because the model cannot be had, an unreachable
/// service, or an answer without content moves on to the next model; any
/// other refusal ends the translation with its error.
pub fn translation_attempt(model: &str, reply: ModelReply, last_err: &mut String) -> (r:
    AttemptStep)
    ensures
        (step_view(r), final(last_err)@) == attempt_outcome(model@, reply, old(last_err)@),
{
    match reply {
        ModelReply::Unreachable(e) => {
            let mut out: Vec<char> = Vec::new();
            push_str(&mut out, "Network error connecting to Groq: ");
            push_str(&mut out, e.as_str());
            *last_err = string_of(out.as_slice());
            AttemptStep::Next
        },
        ModelReply::Refused { status, body } => {
            let b = chars_of(body.as_str());
            let k1 = chars_of("model_not_found");
            let k2 = chars_of("does not exist");
            let k3 = chars_of("model_decommissioned");
            if contains_in(b.as_slice(), k1.as_slice()) || contains_in(b.as_slice(), k2.as_slice())
                || contains_in(b.as_slice(), k3.as_slice()) {
                let m = chars_of(model);
                *last_err = joined("Model '", m.as_slice(), "' not available: ", b.as_slice());
                AttemptStep::Next
            } else {
                let st = chars_of(status.as_str());
                let mut out: Vec<char> = Vec::new();
                push_str(&mut out, "Groq API error (");
                push_slice(&mut out, st.as_slice());
                push_str(&mut out, "): ");
                push_slice(&mut out, b.as_slice());
                AttemptStep::Fail(string_of(out.as_slice()))
            }
        },
        ModelReply::Answered(body) => match json_choice_content(body.as_str()) {
            Some(Some(c)) => {
                let cc = chars_of(c.as_str());
                AttemptStep::Done(string_of(trim_in(cc.as_slice())))
            },
            _ => AttemptStep::Next,
        },
    }
}

/// The message once every candidate model has been tried.
pub fn translation_exhausted(last_err: &str) -> (r: String)
    ensures
        r@ == "Groq Translation failed across all candidate models. Last error: "@ + last_err@,
{
    let mut out: Vec<char> = Vec::new();
    push_str(&mut out, "Groq Translation failed across all candidate models. Last error: ");
    push_str(&mut out, last_err);
    string_of(out.as_slice())
}

} // verus!
