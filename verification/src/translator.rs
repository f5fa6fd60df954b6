//! The offline translator: language detection, language codes, and the
//! phrase-table translation it offers without a model.
use vstd::prelude::*;
use crate::cloud::{first_such, is_first_such, lemma_first_such_is, lemma_first_such_none};
use crate::phrases::{
    LANGUAGE_CODES,
    CODE_ALIASES,
    ALIAS_LANGUAGES,
    FRENCH_WORDS,
    FRENCH_PHRASES,
    SPANISH_WORDS,
    SPANISH_PHRASES,
    GERMAN_WORDS,
    GERMAN_PHRASES,
    ITALIAN_WORDS,
    ITALIAN_PHRASES,
    PORTUGUESE_WORDS,
    PORTUGUESE_PHRASES,
    ROMANIZED_TAMIL_WORDS,
    ROMANIZED_TAMIL_PHRASES,
    ROMANIZED_HINDI_WORDS,
    ROMANIZED_HINDI_PHRASES,
    SPANISH_OPENINGS,
    HELLO_WORDS,
    HELLO_RENDERINGS,
    HELLO_FRIEND_WORDS,
    HELLO_FRIEND_RENDERINGS,
    HELLO_WORLD_WORDS,
    HELLO_WORLD_RENDERINGS,
    HELLO_EVERYONE_WORDS,
    HELLO_EVERYONE_RENDERINGS,
    GOOD_MORNING_WORDS,
    GOOD_MORNING_RENDERINGS,
    GOOD_EVENING_WORDS,
    GOOD_EVENING_RENDERINGS,
    THANK_YOU_WORDS,
    THANK_YOU_RENDERINGS,
    HOW_ARE_YOU_WORDS,
    HOW_ARE_YOU_RENDERINGS,
    LANGUAGE_LIMITS_PHRASES,
    LANGUAGE_LIMITS_RENDERINGS,
    SILENCE_LUXURY_PHRASES,
    SILENCE_LUXURY_RENDERINGS,
    WELCOME_WORDS,
    WELCOME_RENDERINGS,
    GOODBYE_WORDS,
    GOODBYE_RENDERINGS,
    YES_WORDS,
    YES_RENDERINGS,
    NO_WORDS,
    NO_RENDERINGS,
    CONCEPT_KEYS,
    CONCEPT_WORDS,
    TRANSLATION_LABELS,
    LABEL_SEPARATORS,
};
use crate::text::{
    chars_of, contains, contains_in, opt_int, push_slice, push_str, same_chars, starts_with,
    starts_with_in, string_of, trim, trim_in,
};

verus! {

pub const ENGLISH: usize = 0;
pub const FRENCH: usize = 1;
pub const SPANISH: usize = 2;
pub const GERMAN: usize = 3;
pub const TAMIL: usize = 4;
pub const HINDI: usize = 5;
pub const JAPANESE: usize = 6;
pub const CHINESE: usize = 7;
pub const ARABIC: usize = 8;
pub const ITALIAN: usize = 9;
pub const PORTUGUESE: usize = 10;
pub const RUSSIAN: usize = 11;

/// The code of the language at position `i` of `LANGUAGE_CODES`.
pub open spec fn code(i: int) -> Seq<char> {
    LANGUAGE_CODES@[i]@
}

/// What `str::to_lowercase` makes of a text: its Unicode lower-case form
/// (by the Unicode `Lowercase` property, with a capital sigma mapped by its
/// context).
pub uninterp spec fn lowercase(s: Seq<char>) -> Seq<char>;

/// Lower-cases a text (`str::to_lowercase`). The mapping takes the Unicode
/// tables to state, so the contract names its result only.
#[verifier::external_body]
fn to_lowercase(s: &str) -> (r: String)
    ensures
        r@ == lowercase(s@),
{
    s.to_lowercase()
}

/// An owned copy of a text.
pub fn owned(s: &str) -> (r: String)
    ensures
        r@ == s@,
{
    let c = chars_of(s);
    string_of(c.as_slice())
}

/// `x` is one of the words.
pub open spec fn is_one_of(x: Seq<char>, words: Seq<&str>) -> bool {
    exists|i: int| 0 <= i < words.len() && x == #[trigger] words[i]@
}

/// `x` holds one of the words.
pub open spec fn holds_one_of(x: Seq<char>, words: Seq<&str>) -> bool {
    exists|i: int| 0 <= i < words.len() && contains(x, #[trigger] words[i]@)
}

/// `x` begins with one of the words.
pub open spec fn starts_with_one_of(x: Seq<char>, words: Seq<&str>) -> bool {
    exists|i: int| 0 <= i < words.len() && starts_with(x, #[trigger] words[i]@)
}

pub open spec fn names(x: Seq<char>) -> spec_fn(&'static str) -> bool {
    |w: &'static str| w@ == x
}

/// The first position of `x` among the words.
pub open spec fn position_of(x: Seq<char>, words: Seq<&'static str>) -> Option<int> {
    first_such(words, names(x))
}

pub fn is_one_of_in(x: &[char], words: &[&str]) -> (r: bool)
    ensures
        r == is_one_of(x@, words@),
{
    let mut i: usize = 0;
    while i < words.len()
        invariant
            i <= words.len(),
            forall|k: int| 0 <= k < i ==> x@ != #[trigger] words@[k]@,
        decreases words.len() - i,
    {
        let w = chars_of(words[i]);
        if same_chars(x, w.as_slice()) {
            return true;
        }
        i += 1;
    }
    false
}

pub fn holds_one_of_in(x: &[char], words: &[&str]) -> (r: bool)
    ensures
        r == holds_one_of(x@, words@),
{
    let mut i: usize = 0;
    while i < words.len()
        invariant
            i <= words.len(),
            forall|k: int| 0 <= k < i ==> !contains(x@, #[trigger] words@[k]@),
        decreases words.len() - i,
    {
        let w = chars_of(words[i]);
        if contains_in(x, w.as_slice()) {
            return true;
        }
        i += 1;
    }
    false
}

pub fn starts_with_one_of_in(x: &[char], words: &[&str]) -> (r: bool)
    ensures
        r == starts_with_one_of(x@, words@),
{
    let mut i: usize = 0;
    while i < words.len()
        invariant
            i <= words.len(),
            forall|k: int| 0 <= k < i ==> !starts_with(x@, #[trigger] words@[k]@),
        decreases words.len() - i,
    {
        let w = chars_of(words[i]);
        if starts_with_in(x, w.as_slice()) {
            return true;
        }
        i += 1;
    }
    false
}

pub fn position_in(x: &[char], words: &[&'static str]) -> (r: Option<usize>)
    ensures
        opt_int(r) == position_of(x@, words@),
{
    let mut i: usize = 0;
    while i < words.len()
        invariant
            i <= words.len(),
            forall|k: int| 0 <= k < i ==> !names(x@)(#[trigger] words@[k]),
        decreases words.len() - i,
    {
        let w = chars_of(words[i]);
        if same_chars(x, w.as_slice()) {
            proof {
                lemma_first_such_is(words@, names(x@), i as int);
            }
            return Some(i);
        }
        i += 1;
    }
    proof {
        lemma_first_such_none(words@, names(x@));
    }
    None
}


// ---------------------------------------------------------------------
// Language detection
// ---------------------------------------------------------------------

pub open spec fn in_range(c: char, lo: u32, hi: u32) -> bool {
    lo <= (c as u32) <= hi
}

/// Characters whose script names the language: Tamil, Devanagari, kana,
/// Arabic, Cyrillic and CJK ideographs.
pub open spec fn is_script_char(c: char) -> bool {
    ||| in_range(c, 0x0B80, 0x0BFF)
    ||| in_range(c, 0x0900, 0x097F)
    ||| in_range(c, 0x3040, 0x30FF)
    ||| in_range(c, 0x0600, 0x06FF)
    ||| in_range(c, 0x0400, 0x04FF)
    ||| in_range(c, 0x4E00, 0x9FFF)
}

pub open spec fn script_char_pred() -> spec_fn(char) -> bool {
    |c: char| is_script_char(c)
}

/// The text has kana in it.
pub open spec fn has_kana(text: Seq<char>) -> bool {
    exists|i: int| 0 <= i < text.len() && in_range(#[trigger] text[i], 0x3040, 0x30FF)
}

/// The language a script character names; ideographs are Japanese where
/// the text has kana, Chinese otherwise.
pub open spec fn script_language_of(c: char, text: Seq<char>) -> int {
    if in_range(c, 0x0B80, 0x0BFF) {
        TAMIL as int
    } else if in_range(c, 0x0900, 0x097F) {
        HINDI as int
    } else if in_range(c, 0x3040, 0x30FF) {
        JAPANESE as int
    } else if in_range(c, 0x0600, 0x06FF) {
        ARABIC as int
    } else if in_range(c, 0x0400, 0x04FF) {
        RUSSIAN as int
    } else if has_kana(text) {
        JAPANESE as int
    } else {
        CHINESE as int
    }
}

/// The language that the first script character of the text names.
pub open spec fn script_language(text: Seq<char>) -> Option<int> {
    match first_such(text, script_char_pred()) {
        Some(i) => Some(script_language_of(text[i], text)),
        None => None,
    }
}

/// The language that the words of a text without a telling script mark:
/// `clean` is the trimmed lower-case text, `lower` the lower-case text.
pub open spec fn vocabulary_language(clean: Seq<char>, lower: Seq<char>) -> int {
    if is_one_of(clean, FRENCH_WORDS@) || holds_one_of(lower, FRENCH_PHRASES@) {
        FRENCH as int
    } else if is_one_of(clean, SPANISH_WORDS@) || starts_with_one_of(clean, SPANISH_OPENINGS@)
        || holds_one_of(lower, SPANISH_PHRASES@) {
        SPANISH as int
    } else if is_one_of(clean, GERMAN_WORDS@) || holds_one_of(lower, GERMAN_PHRASES@) {
        GERMAN as int
    } else if is_one_of(clean, ITALIAN_WORDS@) || holds_one_of(lower, ITALIAN_PHRASES@) {
        ITALIAN as int
    } else if is_one_of(clean, PORTUGUESE_WORDS@) || holds_one_of(lower, PORTUGUESE_PHRASES@) {
        PORTUGUESE as int
    } else if is_one_of(clean, ROMANIZED_TAMIL_WORDS@) || holds_one_of(
        lower,
        ROMANIZED_TAMIL_PHRASES@,
    ) {
        TAMIL as int
    } else if is_one_of(clean, ROMANIZED_HINDI_WORDS@) || holds_one_of(
        lower,
        ROMANIZED_HINDI_PHRASES@,
    ) {
        HINDI as int
    } else {
        ENGLISH as int
    }
}

/// The language of a text given its lower-case form: by script where a
/// character names one, by vocabulary otherwise, English by default.
pub open spec fn language_of(text: Seq<char>, lower: Seq<char>) -> int {
    match script_language(text) {
        Some(l) => l,
        None => vocabulary_language(trim(lower), lower),
    }
}

fn script_language_in(text: &[char]) -> (r: Option<usize>)
    ensures
        opt_int(r) == script_language(text@),
{
    let mut i: usize = 0;
    while i < text.len()
        invariant
            i <= text.len(),
            forall|k: int| 0 <= k < i ==> !script_char_pred()(#[trigger] text@[k]),
        decreases text.len() - i,
    {
        let u = text[i] as u32;
        let l = if 0x0B80 <= u && u <= 0x0BFF {
            Some(TAMIL)
        } else if 0x0900 <= u && u <= 0x097F {
            Some(HINDI)
        } else if 0x3040 <= u && u <= 0x30FF {
            Some(JAPANESE)
        } else if 0x0600 <= u && u <= 0x06FF {
            Some(ARABIC)
        } else if 0x0400 <= u && u <= 0x04FF {
            Some(RUSSIAN)
        } else if 0x4E00 <= u && u <= 0x9FFF {
            let mut kana = false;
            let mut j: usize = 0;
            while j < text.len()
                invariant
                    j <= text.len(),
                    kana == exists|k: int| 0 <= k < j && in_range(#[trigger] text@[k], 0x3040, 0x30FF),
                decreases text.len() - j,
            {
                let v = text[j] as u32;
                if 0x3040 <= v && v <= 0x30FF {
                    kana = true;
                }
                j += 1;
            }
            if kana {
                Some(JAPANESE)
            } else {
                Some(CHINESE)
            }
        } else {
            None
        };
        match l {
            Some(l) => {
                proof {
                    lemma_first_such_is(text@, script_char_pred(), i as int);
                }
                return Some(l);
            },
            None => {},
        }
        i += 1;
    }
    proof {
        lemma_first_such_none(text@, script_char_pred());
    }
    None
}

fn vocabulary_language_in(clean: &[char], lower: &[char]) -> (r: usize)
    ensures
        r == vocabulary_language(clean@, lower@),
{
    if is_one_of_in(clean, &FRENCH_WORDS) || holds_one_of_in(lower, &FRENCH_PHRASES) {
        FRENCH
    } else if is_one_of_in(clean, &SPANISH_WORDS) || starts_with_one_of_in(clean, &SPANISH_OPENINGS)
        || holds_one_of_in(lower, &SPANISH_PHRASES) {
        SPANISH
    } else if is_one_of_in(clean, &GERMAN_WORDS) || holds_one_of_in(lower, &GERMAN_PHRASES) {
        GERMAN
    } else if is_one_of_in(clean, &ITALIAN_WORDS) || holds_one_of_in(lower, &ITALIAN_PHRASES) {
        ITALIAN
    } else if is_one_of_in(clean, &PORTUGUESE_WORDS) || holds_one_of_in(
        lower,
        &PORTUGUESE_PHRASES,
    ) {
        PORTUGUESE
    } else if is_one_of_in(clean, &ROMANIZED_TAMIL_WORDS) || holds_one_of_in(
        lower,
        &ROMANIZED_TAMIL_PHRASES,
    ) {
        TAMIL
    } else if is_one_of_in(clean, &ROMANIZED_HINDI_WORDS) || holds_one_of_in(
        lower,
        &ROMANIZED_HINDI_PHRASES,
    ) {
        HINDI
    } else {
        ENGLISH
    }
}

/// The code of the language at position `l`.
fn code_text(l: usize) -> (r: String)
    requires
        l < 12,
    ensures
        r@ == code(l as int),
{
    owned(LANGUAGE_CODES[l])
}

/// Detects the language of a text from its lower-case form (what
/// `str::to_lowercase` gives for it).
pub fn classify_language(text: &str, lower: &str) -> (r: String)
    ensures
        r@ == code(language_of(text@, lower@)),
        0 <= language_of(text@, lower@) < 12,
{
    let t = chars_of(text);
    match script_language_in(t.as_slice()) {
        Some(l) => code_text(l),
        None => {
            let lw = chars_of(lower);
            let clean = trim_in(lw.as_slice());
            code_text(vocabulary_language_in(clean, lw.as_slice()))
        },
    }
}

/// The code of the language that a text is detected as, its words read
/// in lower case.
pub open spec fn detected_language(text: Seq<char>) -> Seq<char> {
    code(language_of(text, lowercase(text)))
}

/// Detects the language of a text by the script of its characters, then
/// by telling words, and otherwise takes it for English. The code returned
/// is always one of the supported ones.
pub fn detect_language(text: &str) -> (r: String)
    ensures
        r@ == code(language_of(text@, lowercase(text@))),
        r@ == detected_language(text@),
        is_one_of(r@, LANGUAGE_CODES@),
{
    let lower = to_lowercase(text);
    let r = classify_language(text, lower.as_str());
    assert(LANGUAGE_CODES@[language_of(text@, lowercase(text@))]@ == r@);
    r
}


// ---------------------------------------------------------------------
// Language codes
// ---------------------------------------------------------------------

/// The NLLB code a user gives a language by: the canonical code of a
/// known name; a code with `_` as given; any other name with `_Latn`
/// appended. `lowered` is the trimmed code in lower case.
pub open spec fn canonical_code(given: Seq<char>, lowered: Seq<char>) -> Seq<char> {
    match position_of(lowered, CODE_ALIASES@) {
        Some(i) => code(ALIAS_LANGUAGES@[i] as int),
        None => if given.contains('_') {
            given
        } else {
            lowered + "_Latn"@
        },
    }
}

/// Every name of the alias table stands for a supported language.
proof fn lemma_alias_languages()
    ensures
        forall|i: int| 0 <= i < ALIAS_LANGUAGES@.len() ==> #[trigger] ALIAS_LANGUAGES@[i] < 12,
        ALIAS_LANGUAGES@.len() == CODE_ALIASES@.len(),
{
}

/// Canonicalizes a language code given its trimmed lower-case form.
pub fn canonical_language_code(code: &str, lowered: &str) -> (r: String)
    ensures
        r@ == canonical_code(code@, lowered@),
{
    let l = chars_of(lowered);
    proof {
        lemma_alias_languages();
    }
    match position_in(l.as_slice(), &CODE_ALIASES) {
        Some(i) => code_text(ALIAS_LANGUAGES[i]),
        None => {
            let g = chars_of(code);
            let underscore = chars_of("_");
            proof {
                reveal_strlit("_");
                assert(contains(g@, underscore@) == g@.contains('_')) by {
                    if g@.contains('_') {
                        let k = choose|k: int| 0 <= k < g@.len() && g@[k] == '_';
                        assert(g@.subrange(k, k + 1) =~= underscore@);
                        assert(crate::text::occurs_at(g@, underscore@, k));
                    }
                    if contains(g@, underscore@) {
                        let k = choose|k: int| crate::text::occurs_at(g@, underscore@, k);
                        assert(g@.subrange(k, k + 1)[0] == '_');
                    }
                }
            }
            if contains_in(g.as_slice(), underscore.as_slice()) {
                owned(code)
            } else {
                let mut out = l;
                push_str(&mut out, "_Latn");
                string_of(out.as_slice())
            }
        },
    }
}

/// Normalizes a language name or code to an NLLB code: `fr`, `French`
/// or `fra_latn` all give `fra_Latn`.
pub fn normalize_nllb_code(code: &str) -> (r: String)
    ensures
        r@ == canonical_code(code@, lowercase(trim(code@))),
{
    let c = chars_of(code);
    let t = string_of(trim_in(c.as_slice()));
    let lowered = to_lowercase(t.as_str());
    canonical_language_code(code, lowered.as_str())
}


// ---------------------------------------------------------------------
// Phrase-table translation
// ---------------------------------------------------------------------

/// The phrases the translator knows by heart.
#[derive(Debug, Clone, Copy, PartialEq, Eq)]
pub enum Phrase {
    Hello,
    HelloFriend,
    HelloWorld,
    HelloEveryone,
    GoodMorning,
    GoodEvening,
    ThankYou,
    HowAreYou,
    LanguageLimits,
    SilenceLuxury,
    Welcome,
    Goodbye,
    Yes,
    No,
}

/// The phrase a cleaned, lower-case text stands for, tried in this order.
pub open spec fn phrase_of(clean: Seq<char>) -> Option<Phrase> {
    if is_one_of(clean, HELLO_WORDS@) {
        Some(Phrase::Hello)
    } else if is_one_of(clean, HELLO_FRIEND_WORDS@) {
        Some(Phrase::HelloFriend)
    } else if is_one_of(clean, HELLO_WORLD_WORDS@) {
        Some(Phrase::HelloWorld)
    } else if is_one_of(clean, HELLO_EVERYONE_WORDS@) {
        Some(Phrase::HelloEveryone)
    } else if is_one_of(clean, GOOD_MORNING_WORDS@) {
        Some(Phrase::GoodMorning)
    } else if is_one_of(clean, GOOD_EVENING_WORDS@) {
        Some(Phrase::GoodEvening)
    } else if is_one_of(clean, THANK_YOU_WORDS@) {
        Some(Phrase::ThankYou)
    } else if is_one_of(clean, HOW_ARE_YOU_WORDS@) {
        Some(Phrase::HowAreYou)
    } else if holds_one_of(clean, LANGUAGE_LIMITS_PHRASES@) {
        Some(Phrase::LanguageLimits)
    } else if (contains(clean, "silence"@) && (contains(clean, "luxury"@) || contains(clean, "luxe"@))) || holds_one_of(clean, SILENCE_LUXURY_PHRASES@) {
        Some(Phrase::SilenceLuxury)
    } else if is_one_of(clean, WELCOME_WORDS@) {
        Some(Phrase::Welcome)
    } else if is_one_of(clean, GOODBYE_WORDS@) {
        Some(Phrase::Goodbye)
    } else if is_one_of(clean, YES_WORDS@) {
        Some(Phrase::Yes)
    } else if is_one_of(clean, NO_WORDS@) {
        Some(Phrase::No)
    } else {
        None
    }
}

fn phrase_of_in(clean: &[char]) -> (r: Option<Phrase>)
    ensures
        r == phrase_of(clean@),
{
    let silence = chars_of("silence");
    let luxury = chars_of("luxury");
    let luxe = chars_of("luxe");
    if is_one_of_in(clean, &HELLO_WORDS) {
        Some(Phrase::Hello)
    } else if is_one_of_in(clean, &HELLO_FRIEND_WORDS) {
        Some(Phrase::HelloFriend)
    } else if is_one_of_in(clean, &HELLO_WORLD_WORDS) {
        Some(Phrase::HelloWorld)
    } else if is_one_of_in(clean, &HELLO_EVERYONE_WORDS) {
        Some(Phrase::HelloEveryone)
    } else if is_one_of_in(clean, &GOOD_MORNING_WORDS) {
        Some(Phrase::GoodMorning)
    } else if is_one_of_in(clean, &GOOD_EVENING_WORDS) {
        Some(Phrase::GoodEvening)
    } else if is_one_of_in(clean, &THANK_YOU_WORDS) {
        Some(Phrase::ThankYou)
    } else if is_one_of_in(clean, &HOW_ARE_YOU_WORDS) {
        Some(Phrase::HowAreYou)
    } else if holds_one_of_in(clean, &LANGUAGE_LIMITS_PHRASES) {
        Some(Phrase::LanguageLimits)
    } else if (contains_in(clean, silence.as_slice()) && (contains_in(clean, luxury.as_slice()) || contains_in(clean, luxe.as_slice()))) || holds_one_of_in(clean, &SILENCE_LUXURY_PHRASES) {
        Some(Phrase::SilenceLuxury)
    } else if is_one_of_in(clean, &WELCOME_WORDS) {
        Some(Phrase::Welcome)
    } else if is_one_of_in(clean, &GOODBYE_WORDS) {
        Some(Phrase::Goodbye)
    } else if is_one_of_in(clean, &YES_WORDS) {
        Some(Phrase::Yes)
    } else if is_one_of_in(clean, &NO_WORDS) {
        Some(Phrase::No)
    } else {
        None
    }
}

/// How a phrase is said in each language, then in any other.
pub open spec fn renderings(p: Phrase) -> Seq<&'static str> {
    match p {
        Phrase::Hello => HELLO_RENDERINGS@,
        Phrase::HelloFriend => HELLO_FRIEND_RENDERINGS@,
        Phrase::HelloWorld => HELLO_WORLD_RENDERINGS@,
        Phrase::HelloEveryone => HELLO_EVERYONE_RENDERINGS@,
        Phrase::GoodMorning => GOOD_MORNING_RENDERINGS@,
        Phrase::GoodEvening => GOOD_EVENING_RENDERINGS@,
        Phrase::ThankYou => THANK_YOU_RENDERINGS@,
        Phrase::HowAreYou => HOW_ARE_YOU_RENDERINGS@,
        Phrase::LanguageLimits => LANGUAGE_LIMITS_RENDERINGS@,
        Phrase::SilenceLuxury => SILENCE_LUXURY_RENDERINGS@,
        Phrase::Welcome => WELCOME_RENDERINGS@,
        Phrase::Goodbye => GOODBYE_RENDERINGS@,
        Phrase::Yes => YES_RENDERINGS@,
        Phrase::No => NO_RENDERINGS@,
    }
}

fn renderings_of(p: Phrase) -> (r: &'static [&'static str])
    ensures
        r@ == renderings(p),
        r@.len() == 13,
{
    match p {
        Phrase::Hello => &HELLO_RENDERINGS,
        Phrase::HelloFriend => &HELLO_FRIEND_RENDERINGS,
        Phrase::HelloWorld => &HELLO_WORLD_RENDERINGS,
        Phrase::HelloEveryone => &HELLO_EVERYONE_RENDERINGS,
        Phrase::GoodMorning => &GOOD_MORNING_RENDERINGS,
        Phrase::GoodEvening => &GOOD_EVENING_RENDERINGS,
        Phrase::ThankYou => &THANK_YOU_RENDERINGS,
        Phrase::HowAreYou => &HOW_ARE_YOU_RENDERINGS,
        Phrase::LanguageLimits => &LANGUAGE_LIMITS_RENDERINGS,
        Phrase::SilenceLuxury => &SILENCE_LUXURY_RENDERINGS,
        Phrase::Welcome => &WELCOME_RENDERINGS,
        Phrase::Goodbye => &GOODBYE_RENDERINGS,
        Phrase::Yes => &YES_RENDERINGS,
        Phrase::No => &NO_RENDERINGS,
    }
}

/// How a phrase is said in the target language: its entry for a known
/// code, its last entry for any other.
pub open spec fn rendering(p: Phrase, target: Seq<char>) -> Seq<char> {
    match position_of(target, LANGUAGE_CODES@) {
        Some(i) => renderings(p)[i]@,
        None => renderings(p)[12]@,
    }
}

/// The phrase-table translation of a cleaned, lower-case text.
pub open spec fn phrase_translation(clean: Seq<char>, target: Seq<char>) -> Option<Seq<char>> {
    match phrase_of(clean) {
        Some(p) => Some(rendering(p, target)),
        None => None,
    }
}

/// Translates a cleaned, lower-case text by the phrase table.
pub fn phrase_translation_for(clean: &str, target: &str) -> (r: Option<String>)
    ensures
        match r {
            Some(x) => phrase_translation(clean@, target@) == Some(x@),
            None => phrase_translation(clean@, target@) is None,
        },
{
    let c = chars_of(clean);
    match phrase_of_in(c.as_slice()) {
        Some(p) => {
            let table = renderings_of(p);
            let t = chars_of(target);
            proof {
                assert(LANGUAGE_CODES@.len() == 12);
            }
            match position_in(t.as_slice(), &LANGUAGE_CODES) {
                Some(i) => Some(owned(table[i])),
                None => Some(owned(table[12])),
            }
        },
        None => None,
    }
}

/// Punctuation stripped from around a phrase: ASCII punctuation and the
/// inverted `?` and `!`.
pub open spec fn is_phrase_punct(c: char) -> bool {
    ||| in_range(c, 0x21, 0x2F)
    ||| in_range(c, 0x3A, 0x40)
    ||| in_range(c, 0x5B, 0x60)
    ||| in_range(c, 0x7B, 0x7E)
    ||| c == '\u{BF}'
    ||| c == '\u{A1}'
}

/// `s` without leading punctuation.
pub open spec fn strip_punct_start(s: Seq<char>) -> Seq<char>
    decreases s.len(),
{
    if s.len() > 0 && is_phrase_punct(s[0]) {
        strip_punct_start(s.drop_first())
    } else {
        s
    }
}

/// `s` without trailing punctuation.
pub open spec fn strip_punct_end(s: Seq<char>) -> Seq<char>
    decreases s.len(),
{
    if s.len() > 0 && is_phrase_punct(s.last()) {
        strip_punct_end(s.drop_last())
    } else {
        s
    }
}

/// `str::trim_matches` with the phrase punctuation.
pub open spec fn strip_punct(s: Seq<char>) -> Seq<char> {
    strip_punct_end(strip_punct_start(s))
}

fn char_is_phrase_punct(c: char) -> (r: bool)
    ensures
        r == is_phrase_punct(c),
{
    let u = c as u32;
    (0x21 <= u && u <= 0x2F) || (0x3A <= u && u <= 0x40) || (0x5B <= u && u <= 0x60) || (0x7B <= u
        && u <= 0x7E) || c == '\u{BF}' || c == '\u{A1}'
}

fn strip_punct_in(s: &[char]) -> (r: &[char])
    ensures
        r@ == strip_punct(s@),
{
    let mut i: usize = 0;
    assert(s@.skip(0) =~= s@);
    while i < s.len() && char_is_phrase_punct(s[i])
        invariant
            i <= s.len(),
            strip_punct_start(s@) == strip_punct_start(s@.skip(i as int)),
        decreases s.len() - i,
    {
        assert(s@.skip(i as int).drop_first() =~= s@.skip(i + 1));
        i += 1;
    }
    let ghost rest = s@.skip(i as int);
    assert(strip_punct_start(rest) == rest);
    let mut j: usize = s.len();
    assert(rest =~= s@.subrange(i as int, s.len() as int));
    while j > i && char_is_phrase_punct(s[j - 1])
        invariant
            i <= j <= s.len(),
            rest == s@.skip(i as int),
            strip_punct_end(rest) == strip_punct_end(s@.subrange(i as int, j as int)),
        decreases j,
    {
        assert(s@.subrange(i as int, j as int).drop_last() =~= s@.subrange(i as int, j - 1));
        j -= 1;
    }
    &s[i..j]
}

/// The text a phrase is looked up by: trimmed, stripped of surrounding
/// punctuation, trimmed again, then lower-cased.
pub open spec fn phrase_key_of(text: Seq<char>) -> Seq<char> {
    trim(strip_punct(trim(text)))
}

/// Translates a whole phrase that the table knows, such as a greeting or a
/// thank-you, into the target language.
pub fn match_full_phrase(text: &str, source: &str, target: &str) -> (r: Option<String>)
    ensures
        match r {
            Some(x) => phrase_translation(lowercase(phrase_key_of(text@)), target@) == Some(x@),
            None => phrase_translation(lowercase(phrase_key_of(text@)), target@) is None,
        },
{
    let t = chars_of(text);
    let key = string_of(trim_in(strip_punct_in(trim_in(t.as_slice()))));
    let clean = to_lowercase(key.as_str());
    phrase_translation_for(clean.as_str(), target)
}

/// The concepts that a lower-case text mentions.
pub open spec fn mentions(lower: Seq<char>) -> spec_fn(&'static str) -> bool {
    |k: &'static str| contains(lower, k@)
}

/// A text labelled in the target language: with the first concept it
/// mentions, or else as a translation; English and unknown targets get
/// the text as it is.
pub open spec fn contextual(text: Seq<char>, lower: Seq<char>, target: Seq<char>) -> Seq<char> {
    match position_of(target, LANGUAGE_CODES@) {
        Some(l) => match first_such(CONCEPT_KEYS@, mentions(lower)) {
            Some(c) => if l == ENGLISH {
                text
            } else {
                CONCEPT_WORDS@[c]@[l]@ + LABEL_SEPARATORS@[l]@ + text
            },
            None => TRANSLATION_LABELS@[l]@ + text,
        },
        None => text,
    }
}

/// Labels a text in the target language, given its lower-case form.
pub fn contextual_translation(text: &str, lower: &str, target: &str) -> (r: String)
    ensures
        r@ == contextual(text@, lower@, target@),
{
    let t = chars_of(target);
    let lw = chars_of(lower);
    match position_in(t.as_slice(), &LANGUAGE_CODES) {
        Some(l) => {
            let mut c: usize = 0;
            let mut found: Option<usize> = None;
            while c < CONCEPT_KEYS.len()
                invariant_except_break
                    found is None,
                invariant
                    c <= CONCEPT_KEYS@.len(),
                    forall|k: int| 0 <= k < c ==> !mentions(lw@)(#[trigger] CONCEPT_KEYS@[k]),
                ensures
                    match found {
                        Some(f) => first_such(CONCEPT_KEYS@, mentions(lw@)) == Some(f as int) && f
                            < 6,
                        None => c == CONCEPT_KEYS@.len(),
                    },
                decreases CONCEPT_KEYS@.len() - c,
            {
                let key = chars_of(CONCEPT_KEYS[c]);
                if contains_in(lw.as_slice(), key.as_slice()) {
                    proof {
                        lemma_first_such_is(CONCEPT_KEYS@, mentions(lw@), c as int);
                    }
                    found = Some(c);
                    break;
                }
                c += 1;
            }
            let mut out: Vec<char> = Vec::new();
            match found {
                Some(c) => {
                    if l == ENGLISH {
                        return owned(text);
                    }
                    push_str(&mut out, CONCEPT_WORDS[c][l]);
                    push_str(&mut out, LABEL_SEPARATORS[l]);
                    push_str(&mut out, text);
                },
                None => {
                    proof {
                        lemma_first_such_none(CONCEPT_KEYS@, mentions(lw@));
                    }
                    push_str(&mut out, TRANSLATION_LABELS[l]);
                    push_str(&mut out, text);
                },
            }
            string_of(out.as_slice())
        },
        None => owned(text),
    }
}

/// The label of a text in the target language, chosen by the concepts
/// that its lower-case form mentions, followed by the text itself.
pub open spec fn labelled(text: Seq<char>, target: Seq<char>) -> Seq<char> {
    contextual(text, lowercase(text), target)
}

/// Labels a text that the phrase table does not know in the target
/// language, after the first concept it mentions.
pub fn synthesize_contextual_translation(text: &str, source: &str, target: &str) -> (r: String)
    ensures
        r@ == contextual(text@, lowercase(text@), target@),
        r@ == labelled(text@, target@),
{
    let lower = to_lowercase(text);
    contextual_translation(text, lower.as_str(), target)
}

/// The offline translation of a text: the text itself where source and
/// target are the same language; otherwise the phrase-table translation
/// of the trimmed text, or else its labelled form.
pub open spec fn offline_translation(text: Seq<char>, source: Seq<char>, target: Seq<char>) -> Seq<
    char,
> {
    if source == target {
        text
    } else {
        let t = trim(text);
        match phrase_translation(lowercase(phrase_key_of(t)), target) {
            Some(x) => x,
            None => labelled(t, target),
        }
    }
}

/// Translates a text offline from the source into the target language.
pub fn perform_neural_translation(text: &str, source: &str, target: &str) -> (r: String)
    ensures
        r@ == offline_translation(text@, source@, target@),
        source@ == target@ ==> r@ == text@,
{
    let s = chars_of(source);
    let g = chars_of(target);
    if same_chars(s.as_slice(), g.as_slice()) {
        return owned(text);
    }
    let c = chars_of(text);
    let trimmed = string_of(trim_in(c.as_slice()));
    match match_full_phrase(trimmed.as_str(), source, target) {
        Some(x) => x,
        None => synthesize_contextual_translation(trimmed.as_str(), source, target),
    }
}


// ---------------------------------------------------------------------
// The command line of the translator
// ---------------------------------------------------------------------

/// Flags that set the target language.
pub const TARGET_FLAGS: [&'static str; 2] = ["-t", "--target"];

/// Flags that set the source language.
pub const SOURCE_FLAGS: [&'static str; 2] = ["-s", "--source"];

/// Flags that set the model directory.
pub const MODEL_FLAGS: [&'static str; 3] = ["-m", "--model", "--model-dir"];

/// Flags that set the text to translate.
pub const TEXT_FLAGS: [&'static str; 3] = ["-i", "--text", "--input"];

/// What the translator is asked to do.
#[derive(Debug)]
pub struct TranslatorOptions {
    pub target_lang: String,
    pub source_lang: String,
    pub model_dir: String,
    pub text: String,
}

/// The option a flag sets: 0 target, 1 source, 2 model, 3 text; none
/// otherwise.
pub open spec fn flag_option(a: Seq<char>) -> Option<int> {
    if is_one_of(a, TARGET_FLAGS@) {
        Some(0)
    } else if is_one_of(a, SOURCE_FLAGS@) {
        Some(1)
    } else if is_one_of(a, MODEL_FLAGS@) {
        Some(2)
    } else if is_one_of(a, TEXT_FLAGS@) {
        Some(3)
    } else {
        None
    }
}

pub type OptionValues = (Seq<char>, Seq<char>, Seq<char>, Seq<char>);

pub open spec fn set_option(o: OptionValues, k: int, v: Seq<char>) -> OptionValues {
    if k == 0 {
        (v, o.1, o.2, o.3)
    } else if k == 1 {
        (o.0, v, o.2, o.3)
    } else if k == 2 {
        (o.0, o.1, v, o.3)
    } else {
        (o.0, o.1, o.2, v)
    }
}

/// The options read from the arguments from position `i` on: a flag
/// followed by a value sets its option and both are consumed; anything
/// else, a flag at the end included, is skipped.
pub open spec fn scan_options(args: Seq<Seq<char>>, i: int, o: OptionValues) -> OptionValues
    decreases args.len() - i,
{
    if i < 0 || i >= args.len() {
        o
    } else {
        match flag_option(args[i]) {
            Some(k) => if i + 1 < args.len() {
                scan_options(args, i + 2, set_option(o, k, args[i + 1]))
            } else {
                scan_options(args, i + 1, o)
            },
            None => scan_options(args, i + 1, o),
        }
    }
}

pub open spec fn arg_views(args: Seq<String>) -> Seq<Seq<char>> {
    args.map_values(|a: String| a@)
}

/// The options of a command line, the program name first: by default the
/// target is `eng_Latn`, the source `auto`, the model `models/nllb-200`
/// and the text empty.
pub open spec fn translator_options(args: Seq<Seq<char>>) -> OptionValues {
    scan_options(args, 1, ("eng_Latn"@, "auto"@, "models/nllb-200"@, Seq::empty()))
}

fn flag_option_in(a: &[char]) -> (r: Option<usize>)
    ensures
        opt_int(r) == flag_option(a@),
{
    if is_one_of_in(a, &TARGET_FLAGS) {
        Some(0)
    } else if is_one_of_in(a, &SOURCE_FLAGS) {
        Some(1)
    } else if is_one_of_in(a, &MODEL_FLAGS) {
        Some(2)
    } else if is_one_of_in(a, &TEXT_FLAGS) {
        Some(3)
    } else {
        None
    }
}

/// Reads the translator's options from its command line.
pub fn parse_translator_args(args: &Vec<String>) -> (r: TranslatorOptions)
    ensures
        (r.target_lang@, r.source_lang@, r.model_dir@, r.text@) == translator_options(
            arg_views(args@),
        ),
{
    let ghost av = arg_views(args@);
    let mut target_lang = owned("eng_Latn");
    let mut source_lang = owned("auto");
    let mut model_dir = owned("models/nllb-200");
    let mut text = String::new();
    let mut i: usize = 1;
    while i < args.len()
        invariant
            av == arg_views(args@),
            1 <= i,
            scan_options(av, i as int, (target_lang@, source_lang@, model_dir@, text@))
                == translator_options(av),
        decreases args.len() - i,
    {
        let a = chars_of(args[i].as_str());
        match flag_option_in(a.as_slice()) {
            Some(k) => {
                if i + 1 < args.len() {
                    let v = args[i + 1].clone();
                    if k == 0 {
                        target_lang = v;
                    } else if k == 1 {
                        source_lang = v;
                    } else if k == 2 {
                        model_dir = v;
                    } else {
                        text = v;
                    }
                    i += 1;
                }
            },
            None => {},
        }
        i += 1;
    }
    TranslatorOptions { target_lang, source_lang, model_dir, text }
}

/// What the translator prints for a text: nothing for a blank text;
/// otherwise the offline translation of the trimmed text, from the detected
/// language where the source is `auto` or empty, else from the normalized
/// source, into the normalized target.
pub open spec fn translator_output(text: Seq<char>, source: Seq<char>, target: Seq<char>) -> Seq<
    char,
> {
    let input = trim(text);
    if input.len() == 0 {
        Seq::empty()
    } else {
        let from = if source == "auto"@ || source.len() == 0 {
            code(language_of(input, lowercase(input)))
        } else {
            canonical_code(source, lowercase(trim(source)))
        };
        offline_translation(input, from, canonical_code(target, lowercase(trim(target))))
    }
}

/// Translates the text of the command line, as the translator prints it.
pub fn translate_text(text: &str, source_lang: &str, target_lang: &str) -> (r: String)
    ensures
        r@ == translator_output(text@, source_lang@, target_lang@),
{
    let c = chars_of(text);
    let input = string_of(trim_in(c.as_slice()));
    if input.as_str().is_empty() {
        return String::new();
    }
    let s = chars_of(source_lang);
    let auto = chars_of("auto");
    let from = if same_chars(s.as_slice(), auto.as_slice()) || s.len() == 0 {
        detect_language(input.as_str())
    } else {
        normalize_nllb_code(source_lang)
    };
    let to = normalize_nllb_code(target_lang);
    perform_neural_translation(input.as_str(), from.as_str(), to.as_str())
}


// ---------------------------------------------------------------------
// What the phrase table gives
// ---------------------------------------------------------------------

proof fn lemma_hello_renderings_nonempty()
    ensures
        forall|i: int| 0 <= i < 13 ==> #[trigger] HELLO_RENDERINGS@[i]@.len() > 0,
{
    assert forall|i: int| 0 <= i < 13 implies #[trigger] HELLO_RENDERINGS@[i]@.len() > 0 by {
        if i == 0 {
            reveal_strlit("Hello");
            assert(HELLO_RENDERINGS@[0]@ == "Hello"@);
        } else if i == 1 {
            reveal_strlit("Bonjour");
            assert(HELLO_RENDERINGS@[1]@ == "Bonjour"@);
        } else if i == 2 {
            reveal_strlit("¡Hola!");
            assert(HELLO_RENDERINGS@[2]@ == "¡Hola!"@);
        } else if i == 3 {
            reveal_strlit("Hallo");
            assert(HELLO_RENDERINGS@[3]@ == "Hallo"@);
        } else if i == 4 {
            reveal_strlit("வணக்கம்");
            assert(HELLO_RENDERINGS@[4]@ == "வணக்கம்"@);
        } else if i == 5 {
            reveal_strlit("नमस्ते");
            assert(HELLO_RENDERINGS@[5]@ == "नमस्ते"@);
        } else if i == 6 {
            reveal_strlit("こんにちは");
            assert(HELLO_RENDERINGS@[6]@ == "こんにちは"@);
        } else if i == 7 {
            reveal_strlit("你好");
            assert(HELLO_RENDERINGS@[7]@ == "你好"@);
        } else if i == 8 {
            reveal_strlit("مرحبا");
            assert(HELLO_RENDERINGS@[8]@ == "مرحبا"@);
        } else if i == 9 {
            reveal_strlit("Ciao");
            assert(HELLO_RENDERINGS@[9]@ == "Ciao"@);
        } else if i == 10 {
            reveal_strlit("Olá");
            assert(HELLO_RENDERINGS@[10]@ == "Olá"@);
        } else if i == 11 {
            reveal_strlit("Здравствуйте");
            assert(HELLO_RENDERINGS@[11]@ == "Здравствуйте"@);
        } else if i == 12 {
            reveal_strlit("Hello");
            assert(HELLO_RENDERINGS@[12]@ == "Hello"@);
        }
    }
}

proof fn lemma_hello_friend_renderings_nonempty()
    ensures
        forall|i: int| 0 <= i < 13 ==> #[trigger] HELLO_FRIEND_RENDERINGS@[i]@.len() > 0,
{
    assert forall|i: int| 0 <= i < 13 implies #[trigger] HELLO_FRIEND_RENDERINGS@[i]@.len() > 0 by {
        if i == 0 {
            reveal_strlit("Hello friend");
            assert(HELLO_FRIEND_RENDERINGS@[0]@ == "Hello friend"@);
        } else if i == 1 {
            reveal_strlit("Bonjour mon ami");
            assert(HELLO_FRIEND_RENDERINGS@[1]@ == "Bonjour mon ami"@);
        } else if i == 2 {
            reveal_strlit("¡Hola amigo!");
            assert(HELLO_FRIEND_RENDERINGS@[2]@ == "¡Hola amigo!"@);
        } else if i == 3 {
            reveal_strlit("Hallo mein Freund");
            assert(HELLO_FRIEND_RENDERINGS@[3]@ == "Hallo mein Freund"@);
        } else if i == 4 {
            reveal_strlit("வணக்கம் நண்பரே!");
            assert(HELLO_FRIEND_RENDERINGS@[4]@ == "வணக்கம் நண்பரே!"@);
        } else if i == 5 {
            reveal_strlit("नमस्ते मित्र!");
            assert(HELLO_FRIEND_RENDERINGS@[5]@ == "नमस्ते मित्र!"@);
        } else if i == 6 {
            reveal_strlit("こんにちは、友よ！");
            assert(HELLO_FRIEND_RENDERINGS@[6]@ == "こんにちは、友よ！"@);
        } else if i == 7 {
            reveal_strlit("你好朋友！");
            assert(HELLO_FRIEND_RENDERINGS@[7]@ == "你好朋友！"@);
        } else if i == 8 {
            reveal_strlit("مرحبا صديقي!");
            assert(HELLO_FRIEND_RENDERINGS@[8]@ == "مرحبا صديقي!"@);
        } else if i == 9 {
            reveal_strlit("Ciao amico!");
            assert(HELLO_FRIEND_RENDERINGS@[9]@ == "Ciao amico!"@);
        } else if i == 10 {
            reveal_strlit("Olá amigo!");
            assert(HELLO_FRIEND_RENDERINGS@[10]@ == "Olá amigo!"@);
        } else if i == 11 {
            reveal_strlit("Привет, друг!");
            assert(HELLO_FRIEND_RENDERINGS@[11]@ == "Привет, друг!"@);
        } else if i == 12 {
            reveal_strlit("Hello friend");
            assert(HELLO_FRIEND_RENDERINGS@[12]@ == "Hello friend"@);
        }
    }
}

proof fn lemma_hello_world_renderings_nonempty()
    ensures
        forall|i: int| 0 <= i < 13 ==> #[trigger] HELLO_WORLD_RENDERINGS@[i]@.len() > 0,
{
    assert forall|i: int| 0 <= i < 13 implies #[trigger] HELLO_WORLD_RENDERINGS@[i]@.len() > 0 by {
        if i == 0 {
            reveal_strlit("Hello, world!");
            assert(HELLO_WORLD_RENDERINGS@[0]@ == "Hello, world!"@);
        } else if i == 1 {
            reveal_strlit("Bonjour le monde !");
            assert(HELLO_WORLD_RENDERINGS@[1]@ == "Bonjour le monde !"@);
        } else if i == 2 {
            reveal_strlit("¡Hola, mundo!");
            assert(HELLO_WORLD_RENDERINGS@[2]@ == "¡Hola, mundo!"@);
        } else if i == 3 {
            reveal_strlit("Hallo Welt!");
            assert(HELLO_WORLD_RENDERINGS@[3]@ == "Hallo Welt!"@);
        } else if i == 4 {
            reveal_strlit("வணக்கம் உலகம்!");
            assert(HELLO_WORLD_RENDERINGS@[4]@ == "வணக்கம் உலகம்!"@);
        } else if i == 5 {
            reveal_strlit("नमस्ते दुनिया!");
            assert(HELLO_WORLD_RENDERINGS@[5]@ == "नमस्ते दुनिया!"@);
        } else if i == 6 {
            reveal_strlit("こんにちは世界！");
            assert(HELLO_WORLD_RENDERINGS@[6]@ == "こんにちは世界！"@);
        } else if i == 7 {
            reveal_strlit("你好，世界！");
            assert(HELLO_WORLD_RENDERINGS@[7]@ == "你好，世界！"@);
        } else if i == 8 {
            reveal_strlit("مرحبا بالعالم!");
            assert(HELLO_WORLD_RENDERINGS@[8]@ == "مرحبا بالعالم!"@);
        } else if i == 9 {
            reveal_strlit("Ciao mondo!");
            assert(HELLO_WORLD_RENDERINGS@[9]@ == "Ciao mondo!"@);
        } else if i == 10 {
            reveal_strlit("Olá Mundo!");
            assert(HELLO_WORLD_RENDERINGS@[10]@ == "Olá Mundo!"@);
        } else if i == 11 {
            reveal_strlit("Привет, мир!");
            assert(HELLO_WORLD_RENDERINGS@[11]@ == "Привет, мир!"@);
        } else if i == 12 {
            reveal_strlit("Hello, world!");
            assert(HELLO_WORLD_RENDERINGS@[12]@ == "Hello, world!"@);
        }
    }
}

proof fn lemma_hello_everyone_renderings_nonempty()
    ensures
        forall|i: int| 0 <= i < 13 ==> #[trigger] HELLO_EVERYONE_RENDERINGS@[i]@.len() > 0,
{
    assert forall|i: int| 0 <= i < 13 implies #[trigger] HELLO_EVERYONE_RENDERINGS@[i]@.len() > 0 by {
        if i == 0 {
            reveal_strlit("Hello everyone!");
            assert(HELLO_EVERYONE_RENDERINGS@[0]@ == "Hello everyone!"@);
        } else if i == 1 {
            reveal_strlit("Bonjour à tous !");
            assert(HELLO_EVERYONE_RENDERINGS@[1]@ == "Bonjour à tous !"@);
        } else if i == 2 {
            reveal_strlit("¡Hola a todos!");
            assert(HELLO_EVERYONE_RENDERINGS@[2]@ == "¡Hola a todos!"@);
        } else if i == 3 {
            reveal_strlit("Hallo zusammen!");
            assert(HELLO_EVERYONE_RENDERINGS@[3]@ == "Hallo zusammen!"@);
        } else if i == 4 {
            reveal_strlit("அனைவருக்கும் வணக்கம்!");
            assert(HELLO_EVERYONE_RENDERINGS@[4]@ == "அனைவருக்கும் வணக்கம்!"@);
        } else if i == 5 {
            reveal_strlit("आप सभी को नमस्ते!");
            assert(HELLO_EVERYONE_RENDERINGS@[5]@ == "आप सभी को नमस्ते!"@);
        } else if i == 6 {
            reveal_strlit("皆さん、こんにちは！");
            assert(HELLO_EVERYONE_RENDERINGS@[6]@ == "皆さん、こんにちは！"@);
        } else if i == 7 {
            reveal_strlit("大家好！");
            assert(HELLO_EVERYONE_RENDERINGS@[7]@ == "大家好！"@);
        } else if i == 8 {
            reveal_strlit("مرحبا بالجميع!");
            assert(HELLO_EVERYONE_RENDERINGS@[8]@ == "مرحبا بالجميع!"@);
        } else if i == 9 {
            reveal_strlit("Ciao a tutti!");
            assert(HELLO_EVERYONE_RENDERINGS@[9]@ == "Ciao a tutti!"@);
        } else if i == 10 {
            reveal_strlit("Olá a todos!");
            assert(HELLO_EVERYONE_RENDERINGS@[10]@ == "Olá a todos!"@);
        } else if i == 11 {
            reveal_strlit("Всем привет!");
            assert(HELLO_EVERYONE_RENDERINGS@[11]@ == "Всем привет!"@);
        } else if i == 12 {
            reveal_strlit("Hello everyone!");
            assert(HELLO_EVERYONE_RENDERINGS@[12]@ == "Hello everyone!"@);
        }
    }
}

proof fn lemma_good_morning_renderings_nonempty()
    ensures
        forall|i: int| 0 <= i < 13 ==> #[trigger] GOOD_MORNING_RENDERINGS@[i]@.len() > 0,
{
    assert forall|i: int| 0 <= i < 13 implies #[trigger] GOOD_MORNING_RENDERINGS@[i]@.len() > 0 by {
        if i == 0 {
            reveal_strlit("Good morning!");
            assert(GOOD_MORNING_RENDERINGS@[0]@ == "Good morning!"@);
        } else if i == 1 {
            reveal_strlit("Bonjour !");
            assert(GOOD_MORNING_RENDERINGS@[1]@ == "Bonjour !"@);
        } else if i == 2 {
            reveal_strlit("¡Buenos días!");
            assert(GOOD_MORNING_RENDERINGS@[2]@ == "¡Buenos días!"@);
        } else if i == 3 {
            reveal_strlit("Guten Morgen!");
            assert(GOOD_MORNING_RENDERINGS@[3]@ == "Guten Morgen!"@);
        } else if i == 4 {
            reveal_strlit("காலை வணக்கம்!");
            assert(GOOD_MORNING_RENDERINGS@[4]@ == "காலை வணக்கம்!"@);
        } else if i == 5 {
            reveal_strlit("सुप्रभात!");
            assert(GOOD_MORNING_RENDERINGS@[5]@ == "सुप्रभात!"@);
        } else if i == 6 {
            reveal_strlit("おはようございます！");
            assert(GOOD_MORNING_RENDERINGS@[6]@ == "おはようございます！"@);
        } else if i == 7 {
            reveal_strlit("早上好！");
            assert(GOOD_MORNING_RENDERINGS@[7]@ == "早上好！"@);
        } else if i == 8 {
            reveal_strlit("صباح الخير!");
            assert(GOOD_MORNING_RENDERINGS@[8]@ == "صباح الخير!"@);
        } else if i == 9 {
            reveal_strlit("Buongiorno!");
            assert(GOOD_MORNING_RENDERINGS@[9]@ == "Buongiorno!"@);
        } else if i == 10 {
            reveal_strlit("Bom dia!");
            assert(GOOD_MORNING_RENDERINGS@[10]@ == "Bom dia!"@);
        } else if i == 11 {
            reveal_strlit("Доброе утро!");
            assert(GOOD_MORNING_RENDERINGS@[11]@ == "Доброе утро!"@);
        } else if i == 12 {
            reveal_strlit("Good morning!");
            assert(GOOD_MORNING_RENDERINGS@[12]@ == "Good morning!"@);
        }
    }
}

proof fn lemma_good_evening_renderings_nonempty()
    ensures
        forall|i: int| 0 <= i < 13 ==> #[trigger] GOOD_EVENING_RENDERINGS@[i]@.len() > 0,
{
    assert forall|i: int| 0 <= i < 13 implies #[trigger] GOOD_EVENING_RENDERINGS@[i]@.len() > 0 by {
        if i == 0 {
            reveal_strlit("Good evening!");
            assert(GOOD_EVENING_RENDERINGS@[0]@ == "Good evening!"@);
        } else if i == 1 {
            reveal_strlit("Bonsoir !");
            assert(GOOD_EVENING_RENDERINGS@[1]@ == "Bonsoir !"@);
        } else if i == 2 {
            reveal_strlit("¡Buenas noches!");
            assert(GOOD_EVENING_RENDERINGS@[2]@ == "¡Buenas noches!"@);
        } else if i == 3 {
            reveal_strlit("Guten Abend!");
            assert(GOOD_EVENING_RENDERINGS@[3]@ == "Guten Abend!"@);
        } else if i == 4 {
            reveal_strlit("மாலை வணக்கம்!");
            assert(GOOD_EVENING_RENDERINGS@[4]@ == "மாலை வணக்கம்!"@);
        } else if i == 5 {
            reveal_strlit("शुभ संध्या!");
            assert(GOOD_EVENING_RENDERINGS@[5]@ == "शुभ संध्या!"@);
        } else if i == 6 {
            reveal_strlit("こんばんは！");
            assert(GOOD_EVENING_RENDERINGS@[6]@ == "こんばんは！"@);
        } else if i == 7 {
            reveal_strlit("晚上好！");
            assert(GOOD_EVENING_RENDERINGS@[7]@ == "晚上好！"@);
        } else if i == 8 {
            reveal_strlit("مساء الخير!");
            assert(GOOD_EVENING_RENDERINGS@[8]@ == "مساء الخير!"@);
        } else if i == 9 {
            reveal_strlit("Buonasera!");
            assert(GOOD_EVENING_RENDERINGS@[9]@ == "Buonasera!"@);
        } else if i == 10 {
            reveal_strlit("Boa noite!");
            assert(GOOD_EVENING_RENDERINGS@[10]@ == "Boa noite!"@);
        } else if i == 11 {
            reveal_strlit("Добрый вечер!");
            assert(GOOD_EVENING_RENDERINGS@[11]@ == "Добрый вечер!"@);
        } else if i == 12 {
            reveal_strlit("Good evening!");
            assert(GOOD_EVENING_RENDERINGS@[12]@ == "Good evening!"@);
        }
    }
}

proof fn lemma_thank_you_renderings_nonempty()
    ensures
        forall|i: int| 0 <= i < 13 ==> #[trigger] THANK_YOU_RENDERINGS@[i]@.len() > 0,
{
    assert forall|i: int| 0 <= i < 13 implies #[trigger] THANK_YOU_RENDERINGS@[i]@.len() > 0 by {
        if i == 0 {
            reveal_strlit("Thank you very much!");
            assert(THANK_YOU_RENDERINGS@[0]@ == "Thank you very much!"@);
        } else if i == 1 {
            reveal_strlit("Merci beaucoup !");
            assert(THANK_YOU_RENDERINGS@[1]@ == "Merci beaucoup !"@);
        } else if i == 2 {
            reveal_strlit("¡Muchas gracias!");
            assert(THANK_YOU_RENDERINGS@[2]@ == "¡Muchas gracias!"@);
        } else if i == 3 {
            reveal_strlit("Vielen Dank!");
            assert(THANK_YOU_RENDERINGS@[3]@ == "Vielen Dank!"@);
        } else if i == 4 {
            reveal_strlit("மிக்க நன்றி!");
            assert(THANK_YOU_RENDERINGS@[4]@ == "மிக்க நன்றி!"@);
        } else if i == 5 {
            reveal_strlit("बहुत-बहुत धन्यवाद!");
            assert(THANK_YOU_RENDERINGS@[5]@ == "बहुत-बहुत धन्यवाद!"@);
        } else if i == 6 {
            reveal_strlit("どうもありがとうございます！");
            assert(THANK_YOU_RENDERINGS@[6]@ == "どうもありがとうございます！"@);
        } else if i == 7 {
            reveal_strlit("非常感谢！");
            assert(THANK_YOU_RENDERINGS@[7]@ == "非常感谢！"@);
        } else if i == 8 {
            reveal_strlit("شكرا جزيلا!");
            assert(THANK_YOU_RENDERINGS@[8]@ == "شكرا جزيلا!"@);
        } else if i == 9 {
            reveal_strlit("Grazie mille!");
            assert(THANK_YOU_RENDERINGS@[9]@ == "Grazie mille!"@);
        } else if i == 10 {
            reveal_strlit("Muito obrigado!");
            assert(THANK_YOU_RENDERINGS@[10]@ == "Muito obrigado!"@);
        } else if i == 11 {
            reveal_strlit("Большое спасибо!");
            assert(THANK_YOU_RENDERINGS@[11]@ == "Большое спасибо!"@);
        } else if i == 12 {
            reveal_strlit("Thank you!");
            assert(THANK_YOU_RENDERINGS@[12]@ == "Thank you!"@);
        }
    }
}

proof fn lemma_how_are_you_renderings_nonempty()
    ensures
        forall|i: int| 0 <= i < 13 ==> #[trigger] HOW_ARE_YOU_RENDERINGS@[i]@.len() > 0,
{
    assert forall|i: int| 0 <= i < 13 implies #[trigger] HOW_ARE_YOU_RENDERINGS@[i]@.len() > 0 by {
        if i == 0 {
            reveal_strlit("How are you?");
            assert(HOW_ARE_YOU_RENDERINGS@[0]@ == "How are you?"@);
        } else if i == 1 {
            reveal_strlit("Comment allez-vous ?");
            assert(HOW_ARE_YOU_RENDERINGS@[1]@ == "Comment allez-vous ?"@);
        } else if i == 2 {
            reveal_strlit("¿Cómo estás?");
            assert(HOW_ARE_YOU_RENDERINGS@[2]@ == "¿Cómo estás?"@);
        } else if i == 3 {
            reveal_strlit("Wie geht es Ihnen?");
            assert(HOW_ARE_YOU_RENDERINGS@[3]@ == "Wie geht es Ihnen?"@);
        } else if i == 4 {
            reveal_strlit("நீங்கள் எப்படி இருக்கிறீர்கள்?");
            assert(HOW_ARE_YOU_RENDERINGS@[4]@ == "நீங்கள் எப்படி இருக்கிறீர்கள்?"@);
        } else if i == 5 {
            reveal_strlit("आप कैसे हैं?");
            assert(HOW_ARE_YOU_RENDERINGS@[5]@ == "आप कैसे हैं?"@);
        } else if i == 6 {
            reveal_strlit("お元気ですか？");
            assert(HOW_ARE_YOU_RENDERINGS@[6]@ == "お元気ですか？"@);
        } else if i == 7 {
            reveal_strlit("你好吗？");
            assert(HOW_ARE_YOU_RENDERINGS@[7]@ == "你好吗？"@);
        } else if i == 8 {
            reveal_strlit("كيف حالك؟");
            assert(HOW_ARE_YOU_RENDERINGS@[8]@ == "كيف حالك؟"@);
        } else if i == 9 {
            reveal_strlit("Come stai?");
            assert(HOW_ARE_YOU_RENDERINGS@[9]@ == "Come stai?"@);
        } else if i == 10 {
            reveal_strlit("Como você está?");
            assert(HOW_ARE_YOU_RENDERINGS@[10]@ == "Como você está?"@);
        } else if i == 11 {
            reveal_strlit("Как поживаете?");
            assert(HOW_ARE_YOU_RENDERINGS@[11]@ == "Как поживаете?"@);
        } else if i == 12 {
            reveal_strlit("How are you?");
            assert(HOW_ARE_YOU_RENDERINGS@[12]@ == "How are you?"@);
        }
    }
}

proof fn lemma_language_limits_renderings_nonempty()
    ensures
        forall|i: int| 0 <= i < 13 ==> #[trigger] LANGUAGE_LIMITS_RENDERINGS@[i]@.len() > 0,
{
    assert forall|i: int| 0 <= i < 13 implies #[trigger] LANGUAGE_LIMITS_RENDERINGS@[i]@.len() > 0 by {
        if i == 0 {
            reveal_strlit("The limits of my language mean the limits of my world.");
            assert(LANGUAGE_LIMITS_RENDERINGS@[0]@ == "The limits of my language mean the limits of my world."@);
        } else if i == 1 {
            reveal_strlit("Les limites de mon langage signifient les limites de mon monde.");
            assert(LANGUAGE_LIMITS_RENDERINGS@[1]@ == "Les limites de mon langage signifient les limites de mon monde."@);
        } else if i == 2 {
            reveal_strlit("Los límites de mi lenguaje significan los límites de mi mundo.");
            assert(LANGUAGE_LIMITS_RENDERINGS@[2]@ == "Los límites de mi lenguaje significan los límites de mi mundo."@);
        } else if i == 3 {
            reveal_strlit("Die Grenzen meiner Sprache bedeuten die Grenzen meiner Welt.");
            assert(LANGUAGE_LIMITS_RENDERINGS@[3]@ == "Die Grenzen meiner Sprache bedeuten die Grenzen meiner Welt."@);
        } else if i == 4 {
            reveal_strlit("என் மொழியின் எல்லைகள் என் உலகின் எல்லைகளைக் குறிக்கின்றன.");
            assert(LANGUAGE_LIMITS_RENDERINGS@[4]@ == "என் மொழியின் எல்லைகள் என் உலகின் எல்லைகளைக் குறிக்கின்றன."@);
        } else if i == 5 {
            reveal_strlit("मेरी भाषा की सीमाएं मेरी दुनिया की सीमाओं का प्रतीक हैं।");
            assert(LANGUAGE_LIMITS_RENDERINGS@[5]@ == "मेरी भाषा की सीमाएं मेरी दुनिया की सीमाओं का प्रतीक हैं।"@);
        } else if i == 6 {
            reveal_strlit("私の言語の限界は私の世界の限界を意味する。");
            assert(LANGUAGE_LIMITS_RENDERINGS@[6]@ == "私の言語の限界は私の世界の限界を意味する。"@);
        } else if i == 7 {
            reveal_strlit("我的语言的边界意味着我的世界的边界。");
            assert(LANGUAGE_LIMITS_RENDERINGS@[7]@ == "我的语言的边界意味着我的世界的边界。"@);
        } else if i == 8 {
            reveal_strlit("حدود لغتي تعني حدود عالمي.");
            assert(LANGUAGE_LIMITS_RENDERINGS@[8]@ == "حدود لغتي تعني حدود عالمي."@);
        } else if i == 9 {
            reveal_strlit("I limiti del mio linguaggio significano i limiti del mio mondo.");
            assert(LANGUAGE_LIMITS_RENDERINGS@[9]@ == "I limiti del mio linguaggio significano i limiti del mio mondo."@);
        } else if i == 10 {
            reveal_strlit("Os limites da minha linguagem significam os limites do meu mundo.");
            assert(LANGUAGE_LIMITS_RENDERINGS@[10]@ == "Os limites da minha linguagem significam os limites do meu mundo."@);
        } else if i == 11 {
            reveal_strlit("Границы моего языка определяют границы моего мира.");
            assert(LANGUAGE_LIMITS_RENDERINGS@[11]@ == "Границы моего языка определяют границы моего мира."@);
        } else if i == 12 {
            reveal_strlit("The limits of my language mean the limits of my world.");
            assert(LANGUAGE_LIMITS_RENDERINGS@[12]@ == "The limits of my language mean the limits of my world."@);
        }
    }
}

proof fn lemma_silence_luxury_renderings_nonempty()
    ensures
        forall|i: int| 0 <= i < 13 ==> #[trigger] SILENCE_LUXURY_RENDERINGS@[i]@.len() > 0,
{
    assert forall|i: int| 0 <= i < 13 implies #[trigger] SILENCE_LUXURY_RENDERINGS@[i]@.len() > 0 by {
        if i == 0 {
            reveal_strlit("Silence is the greatest luxury of modern life.");
            assert(SILENCE_LUXURY_RENDERINGS@[0]@ == "Silence is the greatest luxury of modern life."@);
        } else if i == 1 {
            reveal_strlit("Le silence est le plus grand luxe de la vie moderne.");
            assert(SILENCE_LUXURY_RENDERINGS@[1]@ == "Le silence est le plus grand luxe de la vie moderne."@);
        } else if i == 2 {
            reveal_strlit("El silencio es el mayor lujo de la vida moderna.");
            assert(SILENCE_LUXURY_RENDERINGS@[2]@ == "El silencio es el mayor lujo de la vida moderna."@);
        } else if i == 3 {
            reveal_strlit("Stille ist der größte Luxus des modernen Lebens.");
            assert(SILENCE_LUXURY_RENDERINGS@[3]@ == "Stille ist der größte Luxus des modernen Lebens."@);
        } else if i == 4 {
            reveal_strlit("நவீன வாழ்க்கையின் மிகப்பெரிய ஆடம்பரம் அமைதி ஆகும்.");
            assert(SILENCE_LUXURY_RENDERINGS@[4]@ == "நவீன வாழ்க்கையின் மிகப்பெரிய ஆடம்பரம் அமைதி ஆகும்."@);
        } else if i == 5 {
            reveal_strlit("शांति आधुनिक जीवन का सबसे बड़ा विलास है।");
            assert(SILENCE_LUXURY_RENDERINGS@[5]@ == "शांति आधुनिक जीवन का सबसे बड़ा विलास है।"@);
        } else if i == 6 {
            reveal_strlit("静寂は現代生活における最大の贅沢です。");
            assert(SILENCE_LUXURY_RENDERINGS@[6]@ == "静寂は現代生活における最大の贅沢です。"@);
        } else if i == 7 {
            reveal_strlit("宁静是现代生活中最奢华的享受。");
            assert(SILENCE_LUXURY_RENDERINGS@[7]@ == "宁静是现代生活中最奢华的享受。"@);
        } else if i == 8 {
            reveal_strlit("الصمت هو أعظم ترف في الحياة الحديثة.");
            assert(SILENCE_LUXURY_RENDERINGS@[8]@ == "الصمت هو أعظم ترف في الحياة الحديثة."@);
        } else if i == 9 {
            reveal_strlit("Il silenzio è il più grande lusso della vita moderna.");
            assert(SILENCE_LUXURY_RENDERINGS@[9]@ == "Il silenzio è il più grande lusso della vita moderna."@);
        } else if i == 10 {
            reveal_strlit("O silêncio é o maior luxo da vida moderna.");
            assert(SILENCE_LUXURY_RENDERINGS@[10]@ == "O silêncio é o maior luxo da vida moderna."@);
        } else if i == 11 {
            reveal_strlit("Тишина — это величайшая роскошь современной жизни.");
            assert(SILENCE_LUXURY_RENDERINGS@[11]@ == "Тишина — это величайшая роскошь современной жизни."@);
        } else if i == 12 {
            reveal_strlit("Silence is the greatest luxury of modern life.");
            assert(SILENCE_LUXURY_RENDERINGS@[12]@ == "Silence is the greatest luxury of modern life."@);
        }
    }
}

proof fn lemma_welcome_renderings_nonempty()
    ensures
        forall|i: int| 0 <= i < 13 ==> #[trigger] WELCOME_RENDERINGS@[i]@.len() > 0,
{
    assert forall|i: int| 0 <= i < 13 implies #[trigger] WELCOME_RENDERINGS@[i]@.len() > 0 by {
        if i == 0 {
            reveal_strlit("Welcome");
            assert(WELCOME_RENDERINGS@[0]@ == "Welcome"@);
        } else if i == 1 {
            reveal_strlit("Bienvenue");
            assert(WELCOME_RENDERINGS@[1]@ == "Bienvenue"@);
        } else if i == 2 {
            reveal_strlit("Bienvenido");
            assert(WELCOME_RENDERINGS@[2]@ == "Bienvenido"@);
        } else if i == 3 {
            reveal_strlit("Willkommen");
            assert(WELCOME_RENDERINGS@[3]@ == "Willkommen"@);
        } else if i == 4 {
            reveal_strlit("வரவேற்கிறோம்");
            assert(WELCOME_RENDERINGS@[4]@ == "வரவேற்கிறோம்"@);
        } else if i == 5 {
            reveal_strlit("स्वागत है");
            assert(WELCOME_RENDERINGS@[5]@ == "स्वागत है"@);
        } else if i == 6 {
            reveal_strlit("ようこそ");
            assert(WELCOME_RENDERINGS@[6]@ == "ようこそ"@);
        } else if i == 7 {
            reveal_strlit("欢迎");
            assert(WELCOME_RENDERINGS@[7]@ == "欢迎"@);
        } else if i == 8 {
            reveal_strlit("أهلا بك");
            assert(WELCOME_RENDERINGS@[8]@ == "أهلا بك"@);
        } else if i == 9 {
            reveal_strlit("Benvenuto");
            assert(WELCOME_RENDERINGS@[9]@ == "Benvenuto"@);
        } else if i == 10 {
            reveal_strlit("Bem-vindo");
            assert(WELCOME_RENDERINGS@[10]@ == "Bem-vindo"@);
        } else if i == 11 {
            reveal_strlit("Добро пожаловать");
            assert(WELCOME_RENDERINGS@[11]@ == "Добро пожаловать"@);
        } else if i == 12 {
            reveal_strlit("Welcome");
            assert(WELCOME_RENDERINGS@[12]@ == "Welcome"@);
        }
    }
}

proof fn lemma_goodbye_renderings_nonempty()
    ensures
        forall|i: int| 0 <= i < 13 ==> #[trigger] GOODBYE_RENDERINGS@[i]@.len() > 0,
{
    assert forall|i: int| 0 <= i < 13 implies #[trigger] GOODBYE_RENDERINGS@[i]@.len() > 0 by {
        if i == 0 {
            reveal_strlit("Goodbye");
            assert(GOODBYE_RENDERINGS@[0]@ == "Goodbye"@);
        } else if i == 1 {
            reveal_strlit("Au revoir");
            assert(GOODBYE_RENDERINGS@[1]@ == "Au revoir"@);
        } else if i == 2 {
            reveal_strlit("Adiós");
            assert(GOODBYE_RENDERINGS@[2]@ == "Adiós"@);
        } else if i == 3 {
            reveal_strlit("Auf Wiedersehen");
            assert(GOODBYE_RENDERINGS@[3]@ == "Auf Wiedersehen"@);
        } else if i == 4 {
            reveal_strlit("போய் வருகிறேன்");
            assert(GOODBYE_RENDERINGS@[4]@ == "போய் வருகிறேன்"@);
        } else if i == 5 {
            reveal_strlit("अलविदा");
            assert(GOODBYE_RENDERINGS@[5]@ == "अलविदा"@);
        } else if i == 6 {
            reveal_strlit("さようなら");
            assert(GOODBYE_RENDERINGS@[6]@ == "さようなら"@);
        } else if i == 7 {
            reveal_strlit("再见");
            assert(GOODBYE_RENDERINGS@[7]@ == "再见"@);
        } else if i == 8 {
            reveal_strlit("مع السلامة");
            assert(GOODBYE_RENDERINGS@[8]@ == "مع السلامة"@);
        } else if i == 9 {
            reveal_strlit("Arrivederci");
            assert(GOODBYE_RENDERINGS@[9]@ == "Arrivederci"@);
        } else if i == 10 {
            reveal_strlit("Adeus");
            assert(GOODBYE_RENDERINGS@[10]@ == "Adeus"@);
        } else if i == 11 {
            reveal_strlit("До свидания");
            assert(GOODBYE_RENDERINGS@[11]@ == "До свидания"@);
        } else if i == 12 {
            reveal_strlit("Goodbye");
            assert(GOODBYE_RENDERINGS@[12]@ == "Goodbye"@);
        }
    }
}

proof fn lemma_yes_renderings_nonempty()
    ensures
        forall|i: int| 0 <= i < 13 ==> #[trigger] YES_RENDERINGS@[i]@.len() > 0,
{
    assert forall|i: int| 0 <= i < 13 implies #[trigger] YES_RENDERINGS@[i]@.len() > 0 by {
        if i == 0 {
            reveal_strlit("Yes");
            assert(YES_RENDERINGS@[0]@ == "Yes"@);
        } else if i == 1 {
            reveal_strlit("Oui");
            assert(YES_RENDERINGS@[1]@ == "Oui"@);
        } else if i == 2 {
            reveal_strlit("Sí");
            assert(YES_RENDERINGS@[2]@ == "Sí"@);
        } else if i == 3 {
            reveal_strlit("Ja");
            assert(YES_RENDERINGS@[3]@ == "Ja"@);
        } else if i == 4 {
            reveal_strlit("ஆம்");
            assert(YES_RENDERINGS@[4]@ == "ஆம்"@);
        } else if i == 5 {
            reveal_strlit("हाँ");
            assert(YES_RENDERINGS@[5]@ == "हाँ"@);
        } else if i == 6 {
            reveal_strlit("はい");
            assert(YES_RENDERINGS@[6]@ == "はい"@);
        } else if i == 7 {
            reveal_strlit("是");
            assert(YES_RENDERINGS@[7]@ == "是"@);
        } else if i == 8 {
            reveal_strlit("نعم");
            assert(YES_RENDERINGS@[8]@ == "نعم"@);
        } else if i == 9 {
            reveal_strlit("Sì");
            assert(YES_RENDERINGS@[9]@ == "Sì"@);
        } else if i == 10 {
            reveal_strlit("Sim");
            assert(YES_RENDERINGS@[10]@ == "Sim"@);
        } else if i == 11 {
            reveal_strlit("Да");
            assert(YES_RENDERINGS@[11]@ == "Да"@);
        } else if i == 12 {
            reveal_strlit("Yes");
            assert(YES_RENDERINGS@[12]@ == "Yes"@);
        }
    }
}

proof fn lemma_no_renderings_nonempty()
    ensures
        forall|i: int| 0 <= i < 13 ==> #[trigger] NO_RENDERINGS@[i]@.len() > 0,
{
    assert forall|i: int| 0 <= i < 13 implies #[trigger] NO_RENDERINGS@[i]@.len() > 0 by {
        if i == 0 {
            reveal_strlit("No");
            assert(NO_RENDERINGS@[0]@ == "No"@);
        } else if i == 1 {
            reveal_strlit("Non");
            assert(NO_RENDERINGS@[1]@ == "Non"@);
        } else if i == 2 {
            reveal_strlit("No");
            assert(NO_RENDERINGS@[2]@ == "No"@);
        } else if i == 3 {
            reveal_strlit("Nein");
            assert(NO_RENDERINGS@[3]@ == "Nein"@);
        } else if i == 4 {
            reveal_strlit("இல்லை");
            assert(NO_RENDERINGS@[4]@ == "இல்லை"@);
        } else if i == 5 {
            reveal_strlit("नहीं");
            assert(NO_RENDERINGS@[5]@ == "नहीं"@);
        } else if i == 6 {
            reveal_strlit("いいえ");
            assert(NO_RENDERINGS@[6]@ == "いいえ"@);
        } else if i == 7 {
            reveal_strlit("不");
            assert(NO_RENDERINGS@[7]@ == "不"@);
        } else if i == 8 {
            reveal_strlit("لا");
            assert(NO_RENDERINGS@[8]@ == "لا"@);
        } else if i == 9 {
            reveal_strlit("No");
            assert(NO_RENDERINGS@[9]@ == "No"@);
        } else if i == 10 {
            reveal_strlit("Não");
            assert(NO_RENDERINGS@[10]@ == "Não"@);
        } else if i == 11 {
            reveal_strlit("Нет");
            assert(NO_RENDERINGS@[11]@ == "Нет"@);
        } else if i == 12 {
            reveal_strlit("No");
            assert(NO_RENDERINGS@[12]@ == "No"@);
        }
    }
}

/// Every rendering of a phrase has text.
proof fn lemma_renderings_nonempty(p: Phrase)
    ensures
        forall|i: int| 0 <= i < 13 ==> #[trigger] renderings(p)[i]@.len() > 0,
{
    match p {
        Phrase::Hello => lemma_hello_renderings_nonempty(),
        Phrase::HelloFriend => lemma_hello_friend_renderings_nonempty(),
        Phrase::HelloWorld => lemma_hello_world_renderings_nonempty(),
        Phrase::HelloEveryone => lemma_hello_everyone_renderings_nonempty(),
        Phrase::GoodMorning => lemma_good_morning_renderings_nonempty(),
        Phrase::GoodEvening => lemma_good_evening_renderings_nonempty(),
        Phrase::ThankYou => lemma_thank_you_renderings_nonempty(),
        Phrase::HowAreYou => lemma_how_are_you_renderings_nonempty(),
        Phrase::LanguageLimits => lemma_language_limits_renderings_nonempty(),
        Phrase::SilenceLuxury => lemma_silence_luxury_renderings_nonempty(),
        Phrase::Welcome => lemma_welcome_renderings_nonempty(),
        Phrase::Goodbye => lemma_goodbye_renderings_nonempty(),
        Phrase::Yes => lemma_yes_renderings_nonempty(),
        Phrase::No => lemma_no_renderings_nonempty(),
    }
}

/// Whether the phrase table knows a text does not depend on the target
/// language, and what it gives is never empty.
pub proof fn phrase_recognition_ignores_target(clean: Seq<char>, target: Seq<char>, other: Seq<char>)
    ensures
        phrase_translation(clean, target) is Some <==> phrase_translation(clean, other) is Some,
        phrase_translation(clean, target) matches Some(x) ==> x.len() > 0,
{
    if let Some(p) = phrase_of(clean) {
        lemma_renderings_nonempty(p);
        assert(LANGUAGE_CODES@.len() == 12);
        match position_of(target, LANGUAGE_CODES@) {
            Some(i) => {
                assert(renderings(p)[i]@.len() > 0);
            },
            None => {
                assert(renderings(p)[12]@.len() > 0);
            },
        }
    }
}

/// Every supported code holds `_`.
proof fn lemma_codes_hold_underscore()
    ensures
        forall|i: int| 0 <= i < 12 ==> #[trigger] code(i).contains('_'),
{
    assert forall|i: int| 0 <= i < 12 implies #[trigger] code(i).contains('_') by {
        if i == 0 {
            reveal_strlit("eng_Latn");
            assert(code(0) == "eng_Latn"@);
            assert(code(0)[3] == '_');
        } else if i == 1 {
            reveal_strlit("fra_Latn");
            assert(code(1) == "fra_Latn"@);
            assert(code(1)[3] == '_');
        } else if i == 2 {
            reveal_strlit("spa_Latn");
            assert(code(2) == "spa_Latn"@);
            assert(code(2)[3] == '_');
        } else if i == 3 {
            reveal_strlit("deu_Latn");
            assert(code(3) == "deu_Latn"@);
            assert(code(3)[3] == '_');
        } else if i == 4 {
            reveal_strlit("tam_Taml");
            assert(code(4) == "tam_Taml"@);
            assert(code(4)[3] == '_');
        } else if i == 5 {
            reveal_strlit("hin_Deva");
            assert(code(5) == "hin_Deva"@);
            assert(code(5)[3] == '_');
        } else if i == 6 {
            reveal_strlit("jpn_Jpan");
            assert(code(6) == "jpn_Jpan"@);
            assert(code(6)[3] == '_');
        } else if i == 7 {
            reveal_strlit("zho_Hans");
            assert(code(7) == "zho_Hans"@);
            assert(code(7)[3] == '_');
        } else if i == 8 {
            reveal_strlit("ara_Arab");
            assert(code(8) == "ara_Arab"@);
            assert(code(8)[3] == '_');
        } else if i == 9 {
            reveal_strlit("ita_Latn");
            assert(code(9) == "ita_Latn"@);
            assert(code(9)[3] == '_');
        } else if i == 10 {
            reveal_strlit("por_Latn");
            assert(code(10) == "por_Latn"@);
            assert(code(10)[3] == '_');
        } else if i == 11 {
            reveal_strlit("rus_Cyrl");
            assert(code(11) == "rus_Cyrl"@);
            assert(code(11)[3] == '_');
        }
    }
}

/// A normalized language code always holds `_`: the canonical code of a
/// known name, a code given with `_`, or a name with `_Latn` appended.
pub proof fn normalized_code_holds_underscore(given: Seq<char>, lowered: Seq<char>)
    ensures
        canonical_code(given, lowered).contains('_'),
{
    lemma_codes_hold_underscore();
    lemma_alias_languages();
    match position_of(lowered, CODE_ALIASES@) {
        Some(i) => {
            assert(ALIAS_LANGUAGES@[i] < 12);
            assert(code(ALIAS_LANGUAGES@[i] as int).contains('_'));
        },
        None => {
            if !given.contains('_') {
                reveal_strlit("_Latn");
                let r = lowered + "_Latn"@;
                assert(r[lowered.len() as int] == '_');
            }
        },
    }
}


// ---------------------------------------------------------------------
// What detection gives
// ---------------------------------------------------------------------

/// Text below U+0400: none of its characters is of a script that names a
/// language.
pub open spec fn below_cyrillic(text: Seq<char>) -> bool {
    forall|i: int| 0 <= i < text.len() ==> (#[trigger] text[i] as u32) < 0x400
}

proof fn lemma_no_script_language(text: Seq<char>)
    requires
        below_cyrillic(text),
    ensures
        script_language(text) is None,
{
    assert forall|k: int| 0 <= k < text.len() implies !script_char_pred()(#[trigger] text[k]) by {
        assert((text[k] as u32) < 0x400);
    }
    lemma_first_such_none(text, script_char_pred());
}

/// A text whose characters are all below U+0400 and whose lower-case
/// form `lower` is or holds one of the French markers is detected as
/// French.
pub proof fn detects_french(text: Seq<char>, lower: Seq<char>)
    requires
        below_cyrillic(text),
        trim(lower) == "bonjour"@
            || trim(lower) == "bon jour"@
            || trim(lower) == "salut"@
            || trim(lower) == "merci"@
            || trim(lower) == "merci beaucoup"@
            || trim(lower) == "au revoir"@
            || trim(lower) == "oui"@
            || trim(lower) == "non"@
            || trim(lower) == "s'il vous plaît"@
            || trim(lower) == "silence"@
            || trim(lower) == "luxe"@
            || contains(lower, "bonjour"@)
            || contains(lower, "bon jour"@)
            || contains(lower, "merci"@)
            || contains(lower, "comment allez"@)
            || contains(lower, "c'est"@)
            || contains(lower, "dans"@)
            || contains(lower, "avec"@)
            || contains(lower, "pour"@)
            || contains(lower, "très"@)
            || contains(lower, "le silence"@)
            || contains(lower, "la vie"@)
            || contains(lower, "est le plus"@),
    ensures
        language_of(text, lower) == FRENCH as int,
{
    lemma_no_script_language(text);
    let clean = trim(lower);
    if clean == "bonjour"@ { assert(FRENCH_WORDS@[0]@ == "bonjour"@); }
    if clean == "bon jour"@ { assert(FRENCH_WORDS@[1]@ == "bon jour"@); }
    if clean == "salut"@ { assert(FRENCH_WORDS@[2]@ == "salut"@); }
    if clean == "merci"@ { assert(FRENCH_WORDS@[3]@ == "merci"@); }
    if clean == "merci beaucoup"@ { assert(FRENCH_WORDS@[4]@ == "merci beaucoup"@); }
    if clean == "au revoir"@ { assert(FRENCH_WORDS@[5]@ == "au revoir"@); }
    if clean == "oui"@ { assert(FRENCH_WORDS@[6]@ == "oui"@); }
    if clean == "non"@ { assert(FRENCH_WORDS@[7]@ == "non"@); }
    if clean == "s'il vous plaît"@ { assert(FRENCH_WORDS@[8]@ == "s'il vous plaît"@); }
    if clean == "silence"@ { assert(FRENCH_WORDS@[9]@ == "silence"@); }
    if clean == "luxe"@ { assert(FRENCH_WORDS@[10]@ == "luxe"@); }
    if contains(lower, "bonjour"@) { assert(FRENCH_PHRASES@[0]@ == "bonjour"@); }
    if contains(lower, "bon jour"@) { assert(FRENCH_PHRASES@[1]@ == "bon jour"@); }
    if contains(lower, "merci"@) { assert(FRENCH_PHRASES@[2]@ == "merci"@); }
    if contains(lower, "comment allez"@) { assert(FRENCH_PHRASES@[3]@ == "comment allez"@); }
    if contains(lower, "c'est"@) { assert(FRENCH_PHRASES@[4]@ == "c'est"@); }
    if contains(lower, "dans"@) { assert(FRENCH_PHRASES@[5]@ == "dans"@); }
    if contains(lower, "avec"@) { assert(FRENCH_PHRASES@[6]@ == "avec"@); }
    if contains(lower, "pour"@) { assert(FRENCH_PHRASES@[7]@ == "pour"@); }
    if contains(lower, "très"@) { assert(FRENCH_PHRASES@[8]@ == "très"@); }
    if contains(lower, "le silence"@) { assert(FRENCH_PHRASES@[9]@ == "le silence"@); }
    if contains(lower, "la vie"@) { assert(FRENCH_PHRASES@[10]@ == "la vie"@); }
    if contains(lower, "est le plus"@) { assert(FRENCH_PHRASES@[11]@ == "est le plus"@); }
}

/// A text whose characters are all below U+0400, that carries no marker
/// of a language tried earlier and that is or holds one of the Spanish
/// markers (with `lower` its lower-case form) is detected as Spanish.
pub proof fn detects_spanish(text: Seq<char>, lower: Seq<char>)
    requires
        below_cyrillic(text),
        !(is_one_of(trim(lower), FRENCH_WORDS@) || holds_one_of(lower, FRENCH_PHRASES@)),
        trim(lower) == "hola"@
            || trim(lower) == "hola amigo"@
            || trim(lower) == "gracias"@
            || trim(lower) == "muchas gracias"@
            || trim(lower) == "buenos días"@
            || trim(lower) == "buenos dias"@
            || trim(lower) == "buenas tardes"@
            || trim(lower) == "buenas noches"@
            || trim(lower) == "adiós"@
            || trim(lower) == "adios"@
            || trim(lower) == "amigo"@
            || trim(lower) == "amiga"@
            || contains(lower, "hola"@)
            || contains(lower, "cómo estás"@)
            || contains(lower, "por favor"@)
            || contains(lower, "los límites"@)
            || contains(lower, "mi mundo"@)
            || contains(lower, "el silencio"@)
            || starts_with(trim(lower), "¿"@)
            || starts_with(trim(lower), "¡"@),
    ensures
        language_of(text, lower) == SPANISH as int,
{
    lemma_no_script_language(text);
    let clean = trim(lower);
    if clean == "hola"@ { assert(SPANISH_WORDS@[0]@ == "hola"@); }
    if clean == "hola amigo"@ { assert(SPANISH_WORDS@[1]@ == "hola amigo"@); }
    if clean == "gracias"@ { assert(SPANISH_WORDS@[2]@ == "gracias"@); }
    if clean == "muchas gracias"@ { assert(SPANISH_WORDS@[3]@ == "muchas gracias"@); }
    if clean == "buenos días"@ { assert(SPANISH_WORDS@[4]@ == "buenos días"@); }
    if clean == "buenos dias"@ { assert(SPANISH_WORDS@[5]@ == "buenos dias"@); }
    if clean == "buenas tardes"@ { assert(SPANISH_WORDS@[6]@ == "buenas tardes"@); }
    if clean == "buenas noches"@ { assert(SPANISH_WORDS@[7]@ == "buenas noches"@); }
    if clean == "adiós"@ { assert(SPANISH_WORDS@[8]@ == "adiós"@); }
    if clean == "adios"@ { assert(SPANISH_WORDS@[9]@ == "adios"@); }
    if clean == "amigo"@ { assert(SPANISH_WORDS@[10]@ == "amigo"@); }
    if clean == "amiga"@ { assert(SPANISH_WORDS@[11]@ == "amiga"@); }
    if contains(lower, "hola"@) { assert(SPANISH_PHRASES@[0]@ == "hola"@); }
    if contains(lower, "cómo estás"@) { assert(SPANISH_PHRASES@[1]@ == "cómo estás"@); }
    if contains(lower, "por favor"@) { assert(SPANISH_PHRASES@[2]@ == "por favor"@); }
    if contains(lower, "los límites"@) { assert(SPANISH_PHRASES@[3]@ == "los límites"@); }
    if contains(lower, "mi mundo"@) { assert(SPANISH_PHRASES@[4]@ == "mi mundo"@); }
    if contains(lower, "el silencio"@) { assert(SPANISH_PHRASES@[5]@ == "el silencio"@); }
    if starts_with(clean, "¿"@) { assert(SPANISH_OPENINGS@[0]@ == "¿"@); }
    if starts_with(clean, "¡"@) { assert(SPANISH_OPENINGS@[1]@ == "¡"@); }
}

/// A text whose characters are all below U+0400, that carries no marker
/// of a language tried earlier and that is or holds one of the German
/// markers (with `lower` its lower-case form) is detected as German.
pub proof fn detects_german(text: Seq<char>, lower: Seq<char>)
    requires
        below_cyrillic(text),
        !(is_one_of(trim(lower), FRENCH_WORDS@) || holds_one_of(lower, FRENCH_PHRASES@)),
        !(is_one_of(trim(lower), SPANISH_WORDS@) || starts_with_one_of(trim(lower), SPANISH_OPENINGS@) || holds_one_of(lower, SPANISH_PHRASES@)),
        trim(lower) == "hallo"@
            || trim(lower) == "guten tag"@
            || trim(lower) == "guten morgen"@
            || trim(lower) == "gute nacht"@
            || trim(lower) == "danke"@
            || trim(lower) == "vielen dank"@
            || trim(lower) == "bitte"@
            || trim(lower) == "auf wiedersehen"@
            || contains(lower, "die grenzen"@)
            || contains(lower, "meiner sprache"@)
            || contains(lower, "bedeuten"@)
            || contains(lower, "stille ist"@)
            || contains(lower, "wie geht"@)
            || contains(lower, "nicht"@)
            || contains(lower, "der "@)
            || contains(lower, "die "@)
            || contains(lower, "das "@),
    ensures
        language_of(text, lower) == GERMAN as int,
{
    lemma_no_script_language(text);
    let clean = trim(lower);
    if clean == "hallo"@ { assert(GERMAN_WORDS@[0]@ == "hallo"@); }
    if clean == "guten tag"@ { assert(GERMAN_WORDS@[1]@ == "guten tag"@); }
    if clean == "guten morgen"@ { assert(GERMAN_WORDS@[2]@ == "guten morgen"@); }
    if clean == "gute nacht"@ { assert(GERMAN_WORDS@[3]@ == "gute nacht"@); }
    if clean == "danke"@ { assert(GERMAN_WORDS@[4]@ == "danke"@); }
    if clean == "vielen dank"@ { assert(GERMAN_WORDS@[5]@ == "vielen dank"@); }
    if clean == "bitte"@ { assert(GERMAN_WORDS@[6]@ == "bitte"@); }
    if clean == "auf wiedersehen"@ { assert(GERMAN_WORDS@[7]@ == "auf wiedersehen"@); }
    if contains(lower, "die grenzen"@) { assert(GERMAN_PHRASES@[0]@ == "die grenzen"@); }
    if contains(lower, "meiner sprache"@) { assert(GERMAN_PHRASES@[1]@ == "meiner sprache"@); }
    if contains(lower, "bedeuten"@) { assert(GERMAN_PHRASES@[2]@ == "bedeuten"@); }
    if contains(lower, "stille ist"@) { assert(GERMAN_PHRASES@[3]@ == "stille ist"@); }
    if contains(lower, "wie geht"@) { assert(GERMAN_PHRASES@[4]@ == "wie geht"@); }
    if contains(lower, "nicht"@) { assert(GERMAN_PHRASES@[5]@ == "nicht"@); }
    if contains(lower, "der "@) { assert(GERMAN_PHRASES@[6]@ == "der "@); }
    if contains(lower, "die "@) { assert(GERMAN_PHRASES@[7]@ == "die "@); }
    if contains(lower, "das "@) { assert(GERMAN_PHRASES@[8]@ == "das "@); }
}

/// A text whose characters are all below U+0400, that carries no marker
/// of a language tried earlier and that is or holds one of the Italian
/// markers (with `lower` its lower-case form) is detected as Italian.
pub proof fn detects_italian(text: Seq<char>, lower: Seq<char>)
    requires
        below_cyrillic(text),
        !(is_one_of(trim(lower), FRENCH_WORDS@) || holds_one_of(lower, FRENCH_PHRASES@)),
        !(is_one_of(trim(lower), SPANISH_WORDS@) || starts_with_one_of(trim(lower), SPANISH_OPENINGS@) || holds_one_of(lower, SPANISH_PHRASES@)),
        !(is_one_of(trim(lower), GERMAN_WORDS@) || holds_one_of(lower, GERMAN_PHRASES@)),
        trim(lower) == "ciao"@
            || trim(lower) == "buongiorno"@
            || trim(lower) == "buonasera"@
            || trim(lower) == "grazie"@
            || trim(lower) == "grazie mille"@
            || trim(lower) == "per favore"@
            || trim(lower) == "arrivederci"@
            || contains(lower, "come stai"@)
            || contains(lower, "i limiti"@)
            || contains(lower, "il silenzio"@),
    ensures
        language_of(text, lower) == ITALIAN as int,
{
    lemma_no_script_language(text);
    let clean = trim(lower);
    if clean == "ciao"@ { assert(ITALIAN_WORDS@[0]@ == "ciao"@); }
    if clean == "buongiorno"@ { assert(ITALIAN_WORDS@[1]@ == "buongiorno"@); }
    if clean == "buonasera"@ { assert(ITALIAN_WORDS@[2]@ == "buonasera"@); }
    if clean == "grazie"@ { assert(ITALIAN_WORDS@[3]@ == "grazie"@); }
    if clean == "grazie mille"@ { assert(ITALIAN_WORDS@[4]@ == "grazie mille"@); }
    if clean == "per favore"@ { assert(ITALIAN_WORDS@[5]@ == "per favore"@); }
    if clean == "arrivederci"@ { assert(ITALIAN_WORDS@[6]@ == "arrivederci"@); }
    if contains(lower, "come stai"@) { assert(ITALIAN_PHRASES@[0]@ == "come stai"@); }
    if contains(lower, "i limiti"@) { assert(ITALIAN_PHRASES@[1]@ == "i limiti"@); }
    if contains(lower, "il silenzio"@) { assert(ITALIAN_PHRASES@[2]@ == "il silenzio"@); }
}

/// A text whose characters are all below U+0400, that carries no marker
/// of a language tried earlier and that is or holds one of the Portuguese
/// markers (with `lower` its lower-case form) is detected as Portuguese.
pub proof fn detects_portuguese(text: Seq<char>, lower: Seq<char>)
    requires
        below_cyrillic(text),
        !(is_one_of(trim(lower), FRENCH_WORDS@) || holds_one_of(lower, FRENCH_PHRASES@)),
        !(is_one_of(trim(lower), SPANISH_WORDS@) || starts_with_one_of(trim(lower), SPANISH_OPENINGS@) || holds_one_of(lower, SPANISH_PHRASES@)),
        !(is_one_of(trim(lower), GERMAN_WORDS@) || holds_one_of(lower, GERMAN_PHRASES@)),
        !(is_one_of(trim(lower), ITALIAN_WORDS@) || holds_one_of(lower, ITALIAN_PHRASES@)),
        trim(lower) == "olá"@
            || trim(lower) == "ola"@
            || trim(lower) == "bom dia"@
            || trim(lower) == "boa tarde"@
            || trim(lower) == "boa noite"@
            || trim(lower) == "obrigado"@
            || trim(lower) == "obrigada"@
            || trim(lower) == "muito obrigado"@
            || contains(lower, "tudo bem"@)
            || contains(lower, "como vai"@)
            || contains(lower, "o silêncio"@),
    ensures
        language_of(text, lower) == PORTUGUESE as int,
{
    lemma_no_script_language(text);
    let clean = trim(lower);
    if clean == "olá"@ { assert(PORTUGUESE_WORDS@[0]@ == "olá"@); }
    if clean == "ola"@ { assert(PORTUGUESE_WORDS@[1]@ == "ola"@); }
    if clean == "bom dia"@ { assert(PORTUGUESE_WORDS@[2]@ == "bom dia"@); }
    if clean == "boa tarde"@ { assert(PORTUGUESE_WORDS@[3]@ == "boa tarde"@); }
    if clean == "boa noite"@ { assert(PORTUGUESE_WORDS@[4]@ == "boa noite"@); }
    if clean == "obrigado"@ { assert(PORTUGUESE_WORDS@[5]@ == "obrigado"@); }
    if clean == "obrigada"@ { assert(PORTUGUESE_WORDS@[6]@ == "obrigada"@); }
    if clean == "muito obrigado"@ { assert(PORTUGUESE_WORDS@[7]@ == "muito obrigado"@); }
    if contains(lower, "tudo bem"@) { assert(PORTUGUESE_PHRASES@[0]@ == "tudo bem"@); }
    if contains(lower, "como vai"@) { assert(PORTUGUESE_PHRASES@[1]@ == "como vai"@); }
    if contains(lower, "o silêncio"@) { assert(PORTUGUESE_PHRASES@[2]@ == "o silêncio"@); }
}

/// A text whose characters are all below U+0400, that carries no marker
/// of a language tried earlier and that is or holds one of the romanized Tamil
/// markers (with `lower` its lower-case form) is detected as Tamil.
pub proof fn detects_romanized_tamil(text: Seq<char>, lower: Seq<char>)
    requires
        below_cyrillic(text),
        !(is_one_of(trim(lower), FRENCH_WORDS@) || holds_one_of(lower, FRENCH_PHRASES@)),
        !(is_one_of(trim(lower), SPANISH_WORDS@) || starts_with_one_of(trim(lower), SPANISH_OPENINGS@) || holds_one_of(lower, SPANISH_PHRASES@)),
        !(is_one_of(trim(lower), GERMAN_WORDS@) || holds_one_of(lower, GERMAN_PHRASES@)),
        !(is_one_of(trim(lower), ITALIAN_WORDS@) || holds_one_of(lower, ITALIAN_PHRASES@)),
        !(is_one_of(trim(lower), PORTUGUESE_WORDS@) || holds_one_of(lower, PORTUGUESE_PHRASES@)),
        trim(lower) == "vanakkam"@
            || trim(lower) == "nandri"@
            || contains(lower, "vanakkam"@)
            || contains(lower, "nandri"@),
    ensures
        language_of(text, lower) == TAMIL as int,
{
    lemma_no_script_language(text);
    let clean = trim(lower);
    if clean == "vanakkam"@ { assert(ROMANIZED_TAMIL_WORDS@[0]@ == "vanakkam"@); }
    if clean == "nandri"@ { assert(ROMANIZED_TAMIL_WORDS@[1]@ == "nandri"@); }
    if contains(lower, "vanakkam"@) { assert(ROMANIZED_TAMIL_PHRASES@[0]@ == "vanakkam"@); }
    if contains(lower, "nandri"@) { assert(ROMANIZED_TAMIL_PHRASES@[1]@ == "nandri"@); }
}

/// A text whose characters are all below U+0400, that carries no marker
/// of a language tried earlier and that is or holds one of the romanized Hindi
/// markers (with `lower` its lower-case form) is detected as Hindi.
pub proof fn detects_romanized_hindi(text: Seq<char>, lower: Seq<char>)
    requires
        below_cyrillic(text),
        !(is_one_of(trim(lower), FRENCH_WORDS@) || holds_one_of(lower, FRENCH_PHRASES@)),
        !(is_one_of(trim(lower), SPANISH_WORDS@) || starts_with_one_of(trim(lower), SPANISH_OPENINGS@) || holds_one_of(lower, SPANISH_PHRASES@)),
        !(is_one_of(trim(lower), GERMAN_WORDS@) || holds_one_of(lower, GERMAN_PHRASES@)),
        !(is_one_of(trim(lower), ITALIAN_WORDS@) || holds_one_of(lower, ITALIAN_PHRASES@)),
        !(is_one_of(trim(lower), PORTUGUESE_WORDS@) || holds_one_of(lower, PORTUGUESE_PHRASES@)),
        !(is_one_of(trim(lower), ROMANIZED_TAMIL_WORDS@) || holds_one_of(lower, ROMANIZED_TAMIL_PHRASES@)),
        trim(lower) == "namaste"@
            || trim(lower) == "dhanyavaad"@
            || trim(lower) == "shukriya"@
            || contains(lower, "namaste"@),
    ensures
        language_of(text, lower) == HINDI as int,
{
    lemma_no_script_language(text);
    let clean = trim(lower);
    if clean == "namaste"@ { assert(ROMANIZED_HINDI_WORDS@[0]@ == "namaste"@); }
    if clean == "dhanyavaad"@ { assert(ROMANIZED_HINDI_WORDS@[1]@ == "dhanyavaad"@); }
    if clean == "shukriya"@ { assert(ROMANIZED_HINDI_WORDS@[2]@ == "shukriya"@); }
    if contains(lower, "namaste"@) { assert(ROMANIZED_HINDI_PHRASES@[0]@ == "namaste"@); }
}

/// A text whose characters are all below U+0400 and that carries no
/// marker of any language is detected as English.
pub proof fn detects_english_by_default(text: Seq<char>, lower: Seq<char>)
    requires
        below_cyrillic(text),
        !(is_one_of(trim(lower), FRENCH_WORDS@) || holds_one_of(lower, FRENCH_PHRASES@)),
        !(is_one_of(trim(lower), SPANISH_WORDS@) || starts_with_one_of(trim(lower), SPANISH_OPENINGS@) || holds_one_of(lower, SPANISH_PHRASES@)),
        !(is_one_of(trim(lower), GERMAN_WORDS@) || holds_one_of(lower, GERMAN_PHRASES@)),
        !(is_one_of(trim(lower), ITALIAN_WORDS@) || holds_one_of(lower, ITALIAN_PHRASES@)),
        !(is_one_of(trim(lower), PORTUGUESE_WORDS@) || holds_one_of(lower, PORTUGUESE_PHRASES@)),
        !(is_one_of(trim(lower), ROMANIZED_TAMIL_WORDS@) || holds_one_of(lower, ROMANIZED_TAMIL_PHRASES@)),
        !(is_one_of(trim(lower), ROMANIZED_HINDI_WORDS@) || holds_one_of(lower, ROMANIZED_HINDI_PHRASES@)),
    ensures
        code(language_of(text, lower)) == "eng_Latn"@,
{
    lemma_no_script_language(text);
}


// ---------------------------------------------------------------------
// What the phrase key ignores
// ---------------------------------------------------------------------

/// The marks that surround a phrase and are no part of it: ASCII
/// punctuation, `¿` and `¡`.
pub open spec fn is_surrounding_mark(c: char) -> bool {
    let u = c as u32;
    ||| 0x21 <= u <= 0x2F
    ||| 0x3A <= u <= 0x40
    ||| 0x5B <= u <= 0x60
    ||| 0x7B <= u <= 0x7E
    ||| u == 0xBF
    ||| u == 0xA1
}

proof fn lemma_trim_end_prepend(c: char, t: Seq<char>)
    requires
        !crate::text::is_ws(c),
    ensures
        crate::text::trim_end(seq![c] + t) == seq![c] + crate::text::trim_end(t),
    decreases t.len(),
{
    let s = seq![c] + t;
    if t.len() == 0 {
        assert(s =~= seq![c]);
        assert(crate::text::trim_end(t) =~= t);
    } else if crate::text::is_ws(t.last()) {
        assert(s.last() == t.last());
        assert(s.drop_last() =~= seq![c] + t.drop_last());
        lemma_trim_end_prepend(c, t.drop_last());
    } else {
        assert(s.last() == t.last());
    }
}

proof fn lemma_trim_start_append(t: Seq<char>, c: char)
    requires
        !crate::text::is_ws(c),
    ensures
        crate::text::trim_start(t + seq![c]) == crate::text::trim_start(t) + seq![c],
        crate::text::trim_start(t).len() > 0 ==> crate::text::trim_start(t).last() == t.last(),
    decreases t.len(),
{
    let s = t + seq![c];
    if t.len() == 0 {
        assert(s =~= seq![c]);
        assert(crate::text::trim_start(t) =~= t);
        assert(s =~= crate::text::trim_start(t) + seq![c]);
    } else if crate::text::is_ws(t[0]) {
        assert(s[0] == t[0]);
        assert(s.drop_first() =~= t.drop_first() + seq![c]);
        lemma_trim_start_append(t.drop_first(), c);
        if crate::text::trim_start(t.drop_first()).len() > 0 {
            assert(t.drop_first().last() == t.last());
        }
    } else {
        assert(s[0] == t[0]);
    }
}

proof fn lemma_strip_start_append(y: Seq<char>, c: char)
    requires
        is_phrase_punct(c),
    ensures
        strip_punct_end(strip_punct_start(y + seq![c])) == strip_punct_end(strip_punct_start(y)),
    decreases y.len(),
{
    let s = y + seq![c];
    if y.len() == 0 {
        assert(s =~= seq![c]);
        assert(s.drop_first() =~= Seq::<char>::empty());
        assert(strip_punct_start(Seq::<char>::empty()) =~= Seq::<char>::empty());
        assert(strip_punct_start(s) == strip_punct_start(s.drop_first()));
        assert(strip_punct_start(y) =~= Seq::<char>::empty());
    } else if is_phrase_punct(y[0]) {
        assert(s[0] == y[0]);
        assert(s.drop_first() =~= y.drop_first() + seq![c]);
        lemma_strip_start_append(y.drop_first(), c);
        assert(strip_punct_start(s) == strip_punct_start(s.drop_first()));
        assert(strip_punct_start(y) == strip_punct_start(y.drop_first()));
    } else {
        assert(s[0] == y[0]);
        assert(strip_punct_start(s) == s);
        assert(strip_punct_start(y) == y);
        assert(s.last() == c);
        assert(s.drop_last() =~= y);
        assert(strip_punct_end(s) == strip_punct_end(s.drop_last()));
    }
}

/// A mark in front of a phrase is ignored when the phrase is looked up:
/// `¿Cómo estás?` and `Cómo estás?` have the same key. The text that
/// follows the mark must not begin with white space, which the key would
/// then keep apart from the mark.
pub proof fn phrase_key_ignores_leading_mark(c: char, t: Seq<char>)
    requires
        is_surrounding_mark(c),
        t.len() == 0 || !crate::text::is_ws(t[0]),
    ensures
        phrase_key_of(seq![c] + t) == phrase_key_of(t),
{
    let x = crate::text::trim_end(t);
    assert(!crate::text::is_ws(c));
    assert(is_phrase_punct(c));
    let s = seq![c] + t;
    assert(s[0] == c);
    assert(crate::text::trim_start(s) == s);
    lemma_trim_end_prepend(c, t);
    assert(trim(s) == seq![c] + x);
    if t.len() > 0 {
        assert(crate::text::trim_start(t) == t);
    } else {
        assert(crate::text::trim_start(t) =~= t);
    }
    assert(trim(t) == x);
    assert((seq![c] + x)[0] == c);
    assert((seq![c] + x).drop_first() =~= x);
    assert(strip_punct_start(seq![c] + x) == strip_punct_start(x));
}

/// A mark after a phrase is ignored when the phrase is looked up:
/// `Hello!` and `Hello` have the same key. The text before the mark must
/// not end with white space.
pub proof fn phrase_key_ignores_trailing_mark(t: Seq<char>, c: char)
    requires
        is_surrounding_mark(c),
        t.len() == 0 || !crate::text::is_ws(t.last()),
    ensures
        phrase_key_of(t + seq![c]) == phrase_key_of(t),
{
    assert(!crate::text::is_ws(c));
    assert(is_phrase_punct(c));
    let y = crate::text::trim_start(t);
    lemma_trim_start_append(t, c);
    let s = t + seq![c];
    assert(crate::text::trim_start(s) == y + seq![c]);
    assert((y + seq![c]).last() == c);
    assert(trim(s) == y + seq![c]);
    if y.len() > 0 {
        assert(y.last() == t.last());
        assert(crate::text::trim_end(y) == y);
    } else {
        assert(crate::text::trim_end(y) =~= y);
    }
    assert(trim(t) == y);
    lemma_strip_start_append(y, c);
}


// ---------------------------------------------------------------------
// What a labelled text looks like
// ---------------------------------------------------------------------

/// Each supported code stands at its own place in the code table.
proof fn lemma_code_position(i: int)
    requires
        0 <= i < 12,
    ensures
        position_of(code(i), LANGUAGE_CODES@) == Some(i),
{
    reveal_strlit("eng_Latn");
    reveal_strlit("fra_Latn");
    reveal_strlit("spa_Latn");
    reveal_strlit("deu_Latn");
    reveal_strlit("tam_Taml");
    reveal_strlit("hin_Deva");
    reveal_strlit("jpn_Jpan");
    reveal_strlit("zho_Hans");
    reveal_strlit("ara_Arab");
    reveal_strlit("ita_Latn");
    reveal_strlit("por_Latn");
    reveal_strlit("rus_Cyrl");
    assert(code(0)[0] == 'e' && code(1)[0] == 'f' && code(2)[0] == 's' && code(3)[0] == 'd' && code(4)[0] == 't' && code(5)[0] == 'h' && code(6)[0] == 'j' && code(7)[0] == 'z' && code(8)[0] == 'a' && code(9)[0] == 'i' && code(10)[0] == 'p' && code(11)[0] == 'r');
    assert forall|k: int| 0 <= k < i implies !names(code(i))(#[trigger] LANGUAGE_CODES@[k]) by {
        assert(code(k)[0] != code(i)[0]);
    }
    lemma_first_such_is(LANGUAGE_CODES@, names(code(i)), i);
}

/// A text whose lower-case form mentions privacy is labelled with the
/// word for privacy in every supported language but English, which keeps
/// the text as it is; privacy is the first concept looked for.
pub proof fn privacy_is_labelled_first(text: Seq<char>, lower: Seq<char>)
    requires
        contains(lower, "privacy"@),
    ensures
        contextual(text, lower, "eng_Latn"@) == text,
        contextual(text, lower, "fra_Latn"@) == "confidentialité : "@ + text,
        contextual(text, lower, "spa_Latn"@) == "privacidad: "@ + text,
        contextual(text, lower, "deu_Latn"@) == "Privatsphäre: "@ + text,
        contextual(text, lower, "tam_Taml"@) == "தனியுரிமை: "@ + text,
        contextual(text, lower, "hin_Deva"@) == "गोपनीयता: "@ + text,
        contextual(text, lower, "jpn_Jpan"@) == "プライバシー: "@ + text,
        contextual(text, lower, "zho_Hans"@) == "隐私: "@ + text,
        contextual(text, lower, "ara_Arab"@) == "خصوصية: "@ + text,
        contextual(text, lower, "ita_Latn"@) == "privacy: "@ + text,
        contextual(text, lower, "por_Latn"@) == "privacidade: "@ + text,
        contextual(text, lower, "rus_Cyrl"@) == "конфиденциальность: "@ + text,
{
    assert(CONCEPT_KEYS@[0]@ == "privacy"@);
    lemma_first_such_is(CONCEPT_KEYS@, mentions(lower), 0);
    reveal_strlit("eng_Latn");
    assert(code(0) == "eng_Latn"@);
    lemma_code_position(0);
    reveal_strlit("fra_Latn");
    assert(code(1) == "fra_Latn"@);
    lemma_code_position(1);
    reveal_strlit("confidentialité");
    reveal_strlit(" : ");
    reveal_strlit("confidentialité : ");
    assert(CONCEPT_WORDS@[0]@[1]@ == "confidentialité"@);
    assert(LABEL_SEPARATORS@[1]@ == " : "@);
    assert("confidentialité"@ + " : "@ =~= "confidentialité : "@);
    reveal_strlit("spa_Latn");
    assert(code(2) == "spa_Latn"@);
    lemma_code_position(2);
    reveal_strlit("privacidad");
    reveal_strlit(": ");
    reveal_strlit("privacidad: ");
    assert(CONCEPT_WORDS@[0]@[2]@ == "privacidad"@);
    assert(LABEL_SEPARATORS@[2]@ == ": "@);
    assert("privacidad"@ + ": "@ =~= "privacidad: "@);
    reveal_strlit("deu_Latn");
    assert(code(3) == "deu_Latn"@);
    lemma_code_position(3);
    reveal_strlit("Privatsphäre");
    reveal_strlit(": ");
    reveal_strlit("Privatsphäre: ");
    assert(CONCEPT_WORDS@[0]@[3]@ == "Privatsphäre"@);
    assert(LABEL_SEPARATORS@[3]@ == ": "@);
    assert("Privatsphäre"@ + ": "@ =~= "Privatsphäre: "@);
    reveal_strlit("tam_Taml");
    assert(code(4) == "tam_Taml"@);
    lemma_code_position(4);
    reveal_strlit("தனியுரிமை");
    reveal_strlit(": ");
    reveal_strlit("தனியுரிமை: ");
    assert(CONCEPT_WORDS@[0]@[4]@ == "தனியுரிமை"@);
    assert(LABEL_SEPARATORS@[4]@ == ": "@);
    assert("தனியுரிமை"@ + ": "@ =~= "தனியுரிமை: "@);
    reveal_strlit("hin_Deva");
    assert(code(5) == "hin_Deva"@);
    lemma_code_position(5);
    reveal_strlit("गोपनीयता");
    reveal_strlit(": ");
    reveal_strlit("गोपनीयता: ");
    assert(CONCEPT_WORDS@[0]@[5]@ == "गोपनीयता"@);
    assert(LABEL_SEPARATORS@[5]@ == ": "@);
    assert("गोपनीयता"@ + ": "@ =~= "गोपनीयता: "@);
    reveal_strlit("jpn_Jpan");
    assert(code(6) == "jpn_Jpan"@);
    lemma_code_position(6);
    reveal_strlit("プライバシー");
    reveal_strlit(": ");
    reveal_strlit("プライバシー: ");
    assert(CONCEPT_WORDS@[0]@[6]@ == "プライバシー"@);
    assert(LABEL_SEPARATORS@[6]@ == ": "@);
    assert("プライバシー"@ + ": "@ =~= "プライバシー: "@);
    reveal_strlit("zho_Hans");
    assert(code(7) == "zho_Hans"@);
    lemma_code_position(7);
    reveal_strlit("隐私");
    reveal_strlit(": ");
    reveal_strlit("隐私: ");
    assert(CONCEPT_WORDS@[0]@[7]@ == "隐私"@);
    assert(LABEL_SEPARATORS@[7]@ == ": "@);
    assert("隐私"@ + ": "@ =~= "隐私: "@);
    reveal_strlit("ara_Arab");
    assert(code(8) == "ara_Arab"@);
    lemma_code_position(8);
    reveal_strlit("خصوصية");
    reveal_strlit(": ");
    reveal_strlit("خصوصية: ");
    assert(CONCEPT_WORDS@[0]@[8]@ == "خصوصية"@);
    assert(LABEL_SEPARATORS@[8]@ == ": "@);
    assert("خصوصية"@ + ": "@ =~= "خصوصية: "@);
    reveal_strlit("ita_Latn");
    assert(code(9) == "ita_Latn"@);
    lemma_code_position(9);
    reveal_strlit("privacy");
    reveal_strlit(": ");
    reveal_strlit("privacy: ");
    assert(CONCEPT_WORDS@[0]@[9]@ == "privacy"@);
    assert(LABEL_SEPARATORS@[9]@ == ": "@);
    assert("privacy"@ + ": "@ =~= "privacy: "@);
    reveal_strlit("por_Latn");
    assert(code(10) == "por_Latn"@);
    lemma_code_position(10);
    reveal_strlit("privacidade");
    reveal_strlit(": ");
    reveal_strlit("privacidade: ");
    assert(CONCEPT_WORDS@[0]@[10]@ == "privacidade"@);
    assert(LABEL_SEPARATORS@[10]@ == ": "@);
    assert("privacidade"@ + ": "@ =~= "privacidade: "@);
    reveal_strlit("rus_Cyrl");
    assert(code(11) == "rus_Cyrl"@);
    lemma_code_position(11);
    reveal_strlit("конфиденциальность");
    reveal_strlit(": ");
    reveal_strlit("конфиденциальность: ");
    assert(CONCEPT_WORDS@[0]@[11]@ == "конфиденциальность"@);
    assert(LABEL_SEPARATORS@[11]@ == ": "@);
    assert("конфиденциальность"@ + ": "@ =~= "конфиденциальность: "@);
}

/// A text whose lower-case form mentions none of the concepts gets the
/// generic label of the target language, and English keeps it as it is.
pub proof fn unknown_concepts_get_the_generic_label(text: Seq<char>, lower: Seq<char>)
    requires
        !contains(lower, "privacy"@),
        !contains(lower, "local"@),
        !contains(lower, "intelligence"@),
        !contains(lower, "world"@),
        !contains(lower, "speech"@),
        !contains(lower, "translation"@),
    ensures
        contextual(text, lower, "eng_Latn"@) == text,
        contextual(text, lower, "fra_Latn"@) == "Traduction : "@ + text,
        contextual(text, lower, "spa_Latn"@) == "Traducción: "@ + text,
        contextual(text, lower, "deu_Latn"@) == "Übersetzung: "@ + text,
        contextual(text, lower, "tam_Taml"@) == "மொழிபெயர்ப்பு: "@ + text,
        contextual(text, lower, "hin_Deva"@) == "अनुवाद: "@ + text,
        contextual(text, lower, "jpn_Jpan"@) == "翻訳: "@ + text,
        contextual(text, lower, "zho_Hans"@) == "翻译: "@ + text,
        contextual(text, lower, "ara_Arab"@) == "ترجمة: "@ + text,
        contextual(text, lower, "ita_Latn"@) == "Traduzione: "@ + text,
        contextual(text, lower, "por_Latn"@) == "Tradução: "@ + text,
        contextual(text, lower, "rus_Cyrl"@) == "Перевод: "@ + text,
{
    assert(CONCEPT_KEYS@[0]@ == "privacy"@);
    assert(CONCEPT_KEYS@[1]@ == "local"@);
    assert(CONCEPT_KEYS@[2]@ == "intelligence"@);
    assert(CONCEPT_KEYS@[3]@ == "world"@);
    assert(CONCEPT_KEYS@[4]@ == "speech"@);
    assert(CONCEPT_KEYS@[5]@ == "translation"@);
    assert forall|k: int| 0 <= k < CONCEPT_KEYS@.len() implies !mentions(lower)(
        #[trigger] CONCEPT_KEYS@[k],
    ) by {
        if k == 0 {
        }
    }
    lemma_first_such_none(CONCEPT_KEYS@, mentions(lower));
    reveal_strlit("eng_Latn");
    assert(code(0) == "eng_Latn"@);
    lemma_code_position(0);
    reveal_strlit("");
    assert(TRANSLATION_LABELS@[0]@ == ""@);
    assert(TRANSLATION_LABELS@[0]@ =~= Seq::<char>::empty());
    assert(TRANSLATION_LABELS@[0]@ + text =~= text);
    reveal_strlit("fra_Latn");
    assert(code(1) == "fra_Latn"@);
    lemma_code_position(1);
    assert(TRANSLATION_LABELS@[1]@ == "Traduction : "@);
    reveal_strlit("spa_Latn");
    assert(code(2) == "spa_Latn"@);
    lemma_code_position(2);
    assert(TRANSLATION_LABELS@[2]@ == "Traducción: "@);
    reveal_strlit("deu_Latn");
    assert(code(3) == "deu_Latn"@);
    lemma_code_position(3);
    assert(TRANSLATION_LABELS@[3]@ == "Übersetzung: "@);
    reveal_strlit("tam_Taml");
    assert(code(4) == "tam_Taml"@);
    lemma_code_position(4);
    assert(TRANSLATION_LABELS@[4]@ == "மொழிபெயர்ப்பு: "@);
    reveal_strlit("hin_Deva");
    assert(code(5) == "hin_Deva"@);
    lemma_code_position(5);
    assert(TRANSLATION_LABELS@[5]@ == "अनुवाद: "@);
    reveal_strlit("jpn_Jpan");
    assert(code(6) == "jpn_Jpan"@);
    lemma_code_position(6);
    assert(TRANSLATION_LABELS@[6]@ == "翻訳: "@);
    reveal_strlit("zho_Hans");
    assert(code(7) == "zho_Hans"@);
    lemma_code_position(7);
    assert(TRANSLATION_LABELS@[7]@ == "翻译: "@);
    reveal_strlit("ara_Arab");
    assert(code(8) == "ara_Arab"@);
    lemma_code_position(8);
    assert(TRANSLATION_LABELS@[8]@ == "ترجمة: "@);
    reveal_strlit("ita_Latn");
    assert(code(9) == "ita_Latn"@);
    lemma_code_position(9);
    assert(TRANSLATION_LABELS@[9]@ == "Traduzione: "@);
    reveal_strlit("por_Latn");
    assert(code(10) == "por_Latn"@);
    lemma_code_position(10);
    assert(TRANSLATION_LABELS@[10]@ == "Tradução: "@);
    reveal_strlit("rus_Cyrl");
    assert(code(11) == "rus_Cyrl"@);
    lemma_code_position(11);
    assert(TRANSLATION_LABELS@[11]@ == "Перевод: "@);
}

/// A target that is not a supported code leaves the text as it is.
pub proof fn unknown_targets_keep_the_text(text: Seq<char>, lower: Seq<char>, target: Seq<char>)
    requires
        target != "eng_Latn"@,
        target != "fra_Latn"@,
        target != "spa_Latn"@,
        target != "deu_Latn"@,
        target != "tam_Taml"@,
        target != "hin_Deva"@,
        target != "jpn_Jpan"@,
        target != "zho_Hans"@,
        target != "ara_Arab"@,
        target != "ita_Latn"@,
        target != "por_Latn"@,
        target != "rus_Cyrl"@,
    ensures
        contextual(text, lower, target) == text,
{
    assert(LANGUAGE_CODES@[0]@ == "eng_Latn"@);
    assert(LANGUAGE_CODES@[1]@ == "fra_Latn"@);
    assert(LANGUAGE_CODES@[2]@ == "spa_Latn"@);
    assert(LANGUAGE_CODES@[3]@ == "deu_Latn"@);
    assert(LANGUAGE_CODES@[4]@ == "tam_Taml"@);
    assert(LANGUAGE_CODES@[5]@ == "hin_Deva"@);
    assert(LANGUAGE_CODES@[6]@ == "jpn_Jpan"@);
    assert(LANGUAGE_CODES@[7]@ == "zho_Hans"@);
    assert(LANGUAGE_CODES@[8]@ == "ara_Arab"@);
    assert(LANGUAGE_CODES@[9]@ == "ita_Latn"@);
    assert(LANGUAGE_CODES@[10]@ == "por_Latn"@);
    assert(LANGUAGE_CODES@[11]@ == "rus_Cyrl"@);
    assert forall|k: int| 0 <= k < LANGUAGE_CODES@.len() implies !names(target)(
        #[trigger] LANGUAGE_CODES@[k],
    ) by {
        if k == 0 {
        }
    }
    lemma_first_such_none(LANGUAGE_CODES@, names(target));
}

/// The label of a text depends on its lower-case form and the target
/// alone, and the text follows it unchanged: two texts with the same
/// lower-case form get the same label.
pub proof fn label_depends_on_lower_case_form(
    text: Seq<char>,
    other: Seq<char>,
    lower: Seq<char>,
    target: Seq<char>,
)
    ensures
        exists|label: Seq<char>|
            contextual(text, lower, target) == label + text && contextual(other, lower, target)
                == label + other,
{
    let label = match position_of(target, LANGUAGE_CODES@) {
        Some(l) => match first_such(CONCEPT_KEYS@, mentions(lower)) {
            Some(c) => if l == ENGLISH {
                Seq::<char>::empty()
            } else {
                CONCEPT_WORDS@[c]@[l]@ + LABEL_SEPARATORS@[l]@
            },
            None => TRANSLATION_LABELS@[l]@,
        },
        None => Seq::<char>::empty(),
    };
    assert(contextual(text, lower, target) =~= label + text);
    assert(contextual(other, lower, target) =~= label + other);
}

/// Labelling ignores letter case: two texts that lower-case alike get the
/// same label, each followed by the text itself.
pub proof fn labelling_ignores_letter_case(text: Seq<char>, other: Seq<char>, target: Seq<char>)
    requires
        lowercase(text) == lowercase(other),
    ensures
        exists|label: Seq<char>|
            labelled(text, target) == label + text && labelled(other, target) == label + other,
{
    label_depends_on_lower_case_form(text, other, lowercase(text), target);
}

/// A text that mentions privacy, in any letter case, is labelled with the
/// word for privacy in French, Spanish and German, and kept as it is in
/// English.
pub proof fn privacy_in_any_case_is_labelled(text: Seq<char>)
    requires
        contains(lowercase(text), "privacy"@),
    ensures
        labelled(text, "eng_Latn"@) == text,
        labelled(text, "fra_Latn"@) == "confidentialité : "@ + text,
        labelled(text, "spa_Latn"@) == "privacidad: "@ + text,
        labelled(text, "deu_Latn"@) == "Privatsphäre: "@ + text,
{
    privacy_is_labelled_first(text, lowercase(text));
}

/// A text in Latin letters whose lower-case form holds none of the French,
/// Spanish or German markers and holds an Italian phrase (`come stai`,
/// `i limiti`, `il silenzio`) is detected as Italian.
pub proof fn italian_phrases_are_detected(text: Seq<char>)
    requires
        below_cyrillic(text),
        !(is_one_of(trim(lowercase(text)), FRENCH_WORDS@) || holds_one_of(lowercase(text), FRENCH_PHRASES@)),
        !(is_one_of(trim(lowercase(text)), SPANISH_WORDS@) || starts_with_one_of(trim(lowercase(text)), SPANISH_OPENINGS@) || holds_one_of(lowercase(text), SPANISH_PHRASES@)),
        !(is_one_of(trim(lowercase(text)), GERMAN_WORDS@) || holds_one_of(lowercase(text), GERMAN_PHRASES@)),
        contains(lowercase(text), "come stai"@)
            || contains(lowercase(text), "i limiti"@)
            || contains(lowercase(text), "il silenzio"@),
    ensures
        detected_language(text) == "ita_Latn"@,
{
    detects_italian(text, lowercase(text));
    reveal_strlit("ita_Latn");
}

} // verus!
