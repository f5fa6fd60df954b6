use voce::translator::{
    classify_language, detect_language, match_full_phrase, normalize_nllb_code,
    parse_translator_args, perform_neural_translation, synthesize_contextual_translation,
    translate_text,
};

#[test]
fn script_blocks_decide_first() {
    assert_eq!(detect_language("வணக்கம்"), "tam_Taml");
    assert_eq!(detect_language("नमस्ते दुनिया"), "hin_Deva");
    assert_eq!(detect_language("こんにちは"), "jpn_Jpan");
    assert_eq!(detect_language("你好"), "zho_Hans");
    assert_eq!(detect_language("漢字かな"), "jpn_Jpan");
    assert_eq!(detect_language("مرحبا"), "ara_Arab");
    assert_eq!(detect_language("привет"), "rus_Cyrl");
}

#[test]
fn vocabulary_decides_for_latin_text() {
    assert_eq!(detect_language("Bonjour tout le monde"), "fra_Latn");
    assert_eq!(detect_language("¿Qué tal?"), "spa_Latn");
    assert_eq!(detect_language("Das ist gut"), "deu_Latn");
    assert_eq!(detect_language("ciao"), "ita_Latn");
    assert_eq!(detect_language("obrigado"), "por_Latn");
    assert_eq!(detect_language("vanakkam"), "tam_Taml");
    assert_eq!(detect_language("namaste"), "hin_Deva");
}

#[test]
fn english_is_the_default() {
    assert_eq!(detect_language("hello there"), "eng_Latn");
    assert_eq!(detect_language(""), "eng_Latn");
}

#[test]
fn french_words_win_over_german_articles() {
    assert_eq!(detect_language("die Stadt pour moi"), "fra_Latn");
}

#[test]
fn classification_takes_the_lower_case_form() {
    assert_eq!(classify_language("MERCI", "merci"), "fra_Latn");
}

#[test]
fn codes_and_names_are_normalized() {
    assert_eq!(normalize_nllb_code(" French "), "fra_Latn");
    assert_eq!(normalize_nllb_code("es"), "spa_Latn");
    assert_eq!(normalize_nllb_code("Chinese (Simplified)"), "zho_Hans");
    assert_eq!(normalize_nllb_code("RUS_CYRL"), "rus_Cyrl");
    assert_eq!(normalize_nllb_code("xx"), "xx_Latn");
    assert_eq!(normalize_nllb_code(" KLINGON "), "klingon_Latn");
    assert_eq!(normalize_nllb_code("Foo_Bar"), "Foo_Bar");
}

#[test]
fn same_language_returns_the_text_unchanged() {
    assert_eq!(perform_neural_translation("  Hello ", "eng_Latn", "eng_Latn"), "  Hello ");
}

#[test]
fn whole_phrases_are_looked_up() {
    assert_eq!(perform_neural_translation("hello!", "eng_Latn", "fra_Latn"), "Bonjour");
    assert_eq!(perform_neural_translation("¡Hola amigo!", "spa_Latn", "eng_Latn"), "Hello friend");
    assert_eq!(match_full_phrase("good morning", "eng_Latn", "ita_Latn"), Some("Buongiorno!".to_string()));
    assert_eq!(match_full_phrase("Hello world", "eng_Latn", "zho_Hans"), Some("你好，世界！".to_string()));
    assert_eq!(match_full_phrase("hello", "eng_Latn", "xyz"), Some("Hello".to_string()));
    assert_eq!(match_full_phrase("random words", "eng_Latn", "fra_Latn"), None);
}

#[test]
fn concepts_label_the_text() {
    assert_eq!(
        perform_neural_translation("Local privacy matters", "eng_Latn", "fra_Latn"),
        "confidentialité : Local privacy matters"
    );
    assert_eq!(
        synthesize_contextual_translation("speech to text", "eng_Latn", "deu_Latn"),
        "Sprache: speech to text"
    );
}

#[test]
fn other_texts_get_the_generic_label() {
    assert_eq!(perform_neural_translation("Something else", "eng_Latn", "deu_Latn"), "Übersetzung: Something else");
    assert_eq!(synthesize_contextual_translation("Something", "eng_Latn", "fra_Latn"), "Traduction : Something");
}

#[test]
fn unknown_targets_leave_the_text_alone() {
    assert_eq!(synthesize_contextual_translation("my privacy", "eng_Latn", "xx_Latn"), "my privacy");
}

#[test]
fn command_line_options() {
    let args: Vec<String> = vec!["prog", "-t", "fr", "--text", "hi", "-x", "-s"]
        .into_iter()
        .map(|s| s.to_string())
        .collect();
    let o = parse_translator_args(&args);
    assert_eq!(o.target_lang, "fr");
    assert_eq!(o.source_lang, "auto");
    assert_eq!(o.model_dir, "models/nllb-200");
    assert_eq!(o.text, "hi");
}

#[test]
fn command_line_defaults() {
    let args = vec!["prog".to_string()];
    let o = parse_translator_args(&args);
    assert_eq!(o.target_lang, "eng_Latn");
    assert_eq!(o.text, "");
}

#[test]
fn translating_the_command_line_text() {
    assert_eq!(translate_text("  hello ", "auto", "french"), "Bonjour");
    assert_eq!(translate_text("merci", "", "en"), "Thank you very much!");
    assert_eq!(translate_text("rien", "fr", "fr"), "rien");
    assert_eq!(translate_text("   ", "auto", "fr"), "");
}

#[test]
fn recognized_phrases_are_recognized_for_every_target() {
    for target in ["eng_Latn", "tam_Taml", "rus_Cyrl", "xx_Latn", ""] {
        let r = match_full_phrase("Thank you!", "eng_Latn", target).unwrap();
        assert!(!r.is_empty());
        assert!(match_full_phrase("a table", "eng_Latn", target).is_none());
    }
}

#[test]
fn normalized_codes_hold_an_underscore() {
    for c in ["", "fr", "KLINGON", "x_y", "Tamil"] {
        assert!(normalize_nllb_code(c).contains('_'));
    }
}
