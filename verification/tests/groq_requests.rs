use voce::ai::{
    api_key_update, bearer, count_words, get_groq_api_key, get_stored_api_key, key_to_validate,
    record_id, transcription_error, transcription_result,
    translation_attempt, translation_exhausted, translation_request, AttemptStep, KeyUpdate,
    ModelReply, CANDIDATE_MODELS, NO_KEY_MESSAGE, SYSTEM_PROMPT,
};
use voce::models::TranslationPayload;

#[test]
fn the_stored_key_comes_first_trimmed() {
    assert_eq!(get_stored_api_key(Some("  k1 "), Some("e")), Ok(Some("k1".to_string())));
    assert_eq!(get_stored_api_key(Some("  "), Some(" e ")), Ok(Some("e".to_string())));
    assert_eq!(get_stored_api_key(None, Some("\t")), Ok(None));
    assert_eq!(get_stored_api_key(None, None), Ok(None));
}

#[test]
fn a_request_needs_a_key() {
    assert_eq!(get_groq_api_key(None, Some(" env ")), Ok("env".to_string()));
    assert_eq!(get_groq_api_key(Some(" "), None), Err(NO_KEY_MESSAGE.to_string()));
    assert_eq!(
        NO_KEY_MESSAGE,
        "No Groq API key configured. Please enter your API key on the welcome screen or in Settings."
    );
}

#[test]
fn saving_a_key() {
    assert!(matches!(api_key_update(" x "), KeyUpdate::Store(k) if k == "x"));
    assert!(matches!(api_key_update("   "), KeyUpdate::Remove));
}

#[test]
fn validating_a_key() {
    assert_eq!(key_to_validate(""), None);
    assert_eq!(key_to_validate(" gsk "), Some("gsk".to_string()));
    assert_eq!(bearer("t"), "Bearer t");
}

#[test]
fn record_ids_carry_the_moment() {
    assert_eq!(record_id("stt_", 1700000000123), "stt_1700000000123");
    assert_eq!(record_id("trn_", 0), "trn_0");
    assert_eq!(record_id("trn_", -5), "trn_-5");
    assert_eq!(record_id("x", i64::MIN), format!("x{}", i64::MIN));
}

#[test]
fn words_are_counted_like_split_whitespace() {
    assert_eq!(count_words("  one two\tthree\n"), 3);
    assert_eq!(count_words(""), 0);
    assert_eq!(count_words("   "), 0);
    assert_eq!(count_words("a\u{3000}b"), 2);
}

#[test]
fn a_transcription_reply() {
    let t = transcription_result("{\"text\":\"  hello world  \"}").unwrap();
    assert_eq!(t.transcript, "hello world");
    assert_eq!(t.word_count, 2);
    assert!(t.persist);
}

#[test]
fn a_transcription_reply_without_text_is_empty() {
    assert!(transcription_result("bad").is_none());
    let t = transcription_result("{\"x\":1}").unwrap();
    assert_eq!(t.transcript, "");
    assert_eq!(t.word_count, 0);
    assert!(!t.persist);
    assert_eq!(transcription_result("{\"text\":5}").unwrap().transcript, "");
    assert_eq!(transcription_error("quota"), "Groq STT error: quota");
}

fn payload(text: &str, target: &str, source: Option<&str>) -> TranslationPayload {
    TranslationPayload {
        source_text: text.to_string(),
        target_lang: target.to_string(),
        source_lang: source.map(|s| s.to_string()),
    }
}

#[test]
fn a_blank_text_is_not_sent() {
    assert!(translation_request(&payload("  \n", "English", None)).is_none());
}

#[test]
fn the_prompt_names_the_target() {
    let r = translation_request(&payload("  Bonjour ", " English ", None)).unwrap();
    assert_eq!(r.text, "Bonjour");
    assert_eq!(r.target_lang, "English");
    assert_eq!(r.source_hint, "auto");
    assert_eq!(r.user_prompt, "Target Language: English\n\nText:\nBonjour");
    let a = translation_request(&payload("x", "de", Some("AUTO"))).unwrap();
    assert_eq!(a.user_prompt, "Target Language: de\n\nText:\nx");
    let e = translation_request(&payload("x", "de", Some(""))).unwrap();
    assert_eq!(e.user_prompt, "Target Language: de\n\nText:\nx");
}

#[test]
fn the_prompt_names_a_given_source() {
    let r = translation_request(&payload("Bonjour", "English", Some("French"))).unwrap();
    assert_eq!(r.user_prompt, "Source Language: French\nTarget Language: English\n\nText:\nBonjour");
}

#[test]
fn models_and_instructions() {
    assert_eq!(CANDIDATE_MODELS[0], "openai/gpt-oss-20b");
    assert_eq!(CANDIDATE_MODELS.len(), 4);
    assert!(SYSTEM_PROMPT.starts_with("You are a professional translator."));
}

#[test]
fn a_usable_answer_ends_the_translation() {
    let mut last = String::from("before");
    let step = translation_attempt(
        "m",
        ModelReply::Answered("{\"choices\":[{\"message\":{\"content\":\"  Hola \"}}]}".to_string()),
        &mut last,
    );
    assert!(matches!(step, AttemptStep::Done(t) if t == "Hola"));
    assert_eq!(last, "before");
}

#[test]
fn an_answer_without_content_moves_on() {
    let mut last = String::from("before");
    let step = translation_attempt("m", ModelReply::Answered("{}".to_string()), &mut last);
    assert!(matches!(step, AttemptStep::Next));
    assert_eq!(last, "before");
}

#[test]
fn a_missing_model_moves_on() {
    let mut last = String::new();
    let step = translation_attempt(
        "m1",
        ModelReply::Refused { status: "404 Not Found".to_string(), body: "{\"code\":\"model_not_found\"}".to_string() },
        &mut last,
    );
    assert!(matches!(step, AttemptStep::Next));
    assert_eq!(last, "Model 'm1' not available: {\"code\":\"model_not_found\"}");
}

#[test]
fn another_refusal_ends_the_translation() {
    let mut last = String::from("x");
    let step = translation_attempt(
        "m",
        ModelReply::Refused { status: "401 Unauthorized".to_string(), body: "bad key".to_string() },
        &mut last,
    );
    assert!(matches!(step, AttemptStep::Fail(e) if e == "Groq API error (401 Unauthorized): bad key"));
    assert_eq!(last, "x");
}

#[test]
fn an_unreachable_service_moves_on() {
    let mut last = String::new();
    let step = translation_attempt("m", ModelReply::Unreachable("timeout".to_string()), &mut last);
    assert!(matches!(step, AttemptStep::Next));
    assert_eq!(last, "Network error connecting to Groq: timeout");
    assert_eq!(
        translation_exhausted(&last),
        "Groq Translation failed across all candidate models. Last error: Network error connecting to Groq: timeout"
    );
}

#[test]
fn fresh_ids_and_stamps_come_from_the_clock() {
    let id = voce::ai::fresh_record_id("trn_").unwrap();
    let millis: i64 = id["trn_".len()..].parse().unwrap();
    assert!(millis > 1_600_000_000_000);
    let stamp = voce::sync::current_local_timestamp().unwrap();
    assert_eq!(stamp.len(), 19);
    assert_eq!(&stamp[13..14], ":");
}
