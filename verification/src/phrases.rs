//! The word lists and phrase tables of the offline translator.
use vstd::prelude::*;

verus! {

/// The NLLB codes of the supported languages, in the order of every table here.
pub const LANGUAGE_CODES: [&'static str; 12] = [
    "eng_Latn",
    "fra_Latn",
    "spa_Latn",
    "deu_Latn",
    "tam_Taml",
    "hin_Deva",
    "jpn_Jpan",
    "zho_Hans",
    "ara_Arab",
    "ita_Latn",
    "por_Latn",
    "rus_Cyrl",
];

/// The lower-case names a language code may be given by.
pub const CODE_ALIASES: [&'static str; 37] = [
    "eng_latn",
    "en",
    "english",
    "spa_latn",
    "es",
    "spanish",
    "fra_latn",
    "fr",
    "french",
    "deu_latn",
    "de",
    "german",
    "tam_taml",
    "ta",
    "tamil",
    "hin_deva",
    "hi",
    "hindi",
    "jpn_jpan",
    "ja",
    "japanese",
    "zho_hans",
    "zh",
    "chinese (simplified)",
    "chinese",
    "ara_arab",
    "ar",
    "arabic",
    "ita_latn",
    "it",
    "italian",
    "por_latn",
    "pt",
    "portuguese",
    "rus_cyrl",
    "ru",
    "russian",
];

/// The language that each name of `CODE_ALIASES` stands for, as a position in
/// `LANGUAGE_CODES`.
pub const ALIAS_LANGUAGES: [usize; 37] = [0, 0, 0, 2, 2, 2, 1, 1, 1, 3, 3, 3, 4, 4, 4, 5, 5, 5, 6, 6, 6, 7, 7, 7, 7, 8, 8, 8, 9, 9, 9, 10, 10, 10, 11, 11, 11];

/// Whole texts that mark french.
pub const FRENCH_WORDS: [&'static str; 11] = [
    "bonjour",
    "bon jour",
    "salut",
    "merci",
    "merci beaucoup",
    "au revoir",
    "oui",
    "non",
    "s'il vous plaît",
    "silence",
    "luxe",
];

/// Fragments that mark french.
pub const FRENCH_PHRASES: [&'static str; 12] = [
    "bonjour",
    "bon jour",
    "merci",
    "comment allez",
    "c'est",
    "dans",
    "avec",
    "pour",
    "très",
    "le silence",
    "la vie",
    "est le plus",
];

/// Whole texts that mark spanish.
pub const SPANISH_WORDS: [&'static str; 12] = [
    "hola",
    "hola amigo",
    "gracias",
    "muchas gracias",
    "buenos días",
    "buenos dias",
    "buenas tardes",
    "buenas noches",
    "adiós",
    "adios",
    "amigo",
    "amiga",
];

/// Fragments that mark spanish.
pub const SPANISH_PHRASES: [&'static str; 6] = [
    "hola",
    "cómo estás",
    "por favor",
    "los límites",
    "mi mundo",
    "el silencio",
];

/// Whole texts that mark german.
pub const GERMAN_WORDS: [&'static str; 8] = [
    "hallo",
    "guten tag",
    "guten morgen",
    "gute nacht",
    "danke",
    "vielen dank",
    "bitte",
    "auf wiedersehen",
];

/// Fragments that mark german.
pub const GERMAN_PHRASES: [&'static str; 9] = [
    "die grenzen",
    "meiner sprache",
    "bedeuten",
    "stille ist",
    "wie geht",
    "nicht",
    "der ",
    "die ",
    "das ",
];

/// Whole texts that mark italian.
pub const ITALIAN_WORDS: [&'static str; 7] = [
    "ciao",
    "buongiorno",
    "buonasera",
    "grazie",
    "grazie mille",
    "per favore",
    "arrivederci",
];

/// Fragments that mark italian.
pub const ITALIAN_PHRASES: [&'static str; 3] = [
    "come stai",
    "i limiti",
    "il silenzio",
];

/// Whole texts that mark portuguese.
pub const PORTUGUESE_WORDS: [&'static str; 8] = [
    "olá",
    "ola",
    "bom dia",
    "boa tarde",
    "boa noite",
    "obrigado",
    "obrigada",
    "muito obrigado",
];

/// Fragments that mark portuguese.
pub const PORTUGUESE_PHRASES: [&'static str; 3] = [
    "tudo bem",
    "como vai",
    "o silêncio",
];

/// Whole texts that mark romanized tamil.
pub const ROMANIZED_TAMIL_WORDS: [&'static str; 2] = [
    "vanakkam",
    "nandri",
];

/// Fragments that mark romanized tamil.
pub const ROMANIZED_TAMIL_PHRASES: [&'static str; 2] = [
    "vanakkam",
    "nandri",
];

/// Whole texts that mark romanized hindi.
pub const ROMANIZED_HINDI_WORDS: [&'static str; 3] = [
    "namaste",
    "dhanyavaad",
    "shukriya",
];

/// Fragments that mark romanized hindi.
pub const ROMANIZED_HINDI_PHRASES: [&'static str; 1] = [
    "namaste",
];

/// Openings that mark spanish.
pub const SPANISH_OPENINGS: [&'static str; 2] = [
    "¿",
    "¡",
];

/// Phrases that stand for "hello".
pub const HELLO_WORDS: [&'static str; 23] = [
    "hello",
    "hi",
    "hey",
    "bonjour",
    "bon jour",
    "salut",
    "hola",
    "hallo",
    "ciao",
    "olá",
    "ola",
    "வணக்கம்",
    "vanakkam",
    "नमस्ते",
    "namaste",
    "こんにちは",
    "konnichiwa",
    "你好",
    "ni hao",
    "مرحبا",
    "marhaba",
    "привет",
    "здравствуйте",
];

/// "Hello" in each language, then for any other.
pub const HELLO_RENDERINGS: [&'static str; 13] = [
    "Hello",
    "Bonjour",
    "¡Hola!",
    "Hallo",
    "வணக்கம்",
    "नमस्ते",
    "こんにちは",
    "你好",
    "مرحبا",
    "Ciao",
    "Olá",
    "Здравствуйте",
    "Hello",
];

/// Phrases that stand for "hello, friend".
pub const HELLO_FRIEND_WORDS: [&'static str; 9] = [
    "hello friend",
    "hello my friend",
    "hola amigo",
    "bonjour mon ami",
    "hallo mein freund",
    "வணக்கம் நண்பரே",
    "வணக்கம் நண்பா",
    "नमस्ते मित्र",
    "こんにちは友達",
];

/// "Hello, friend" in each language, then for any other.
pub const HELLO_FRIEND_RENDERINGS: [&'static str; 13] = [
    "Hello friend",
    "Bonjour mon ami",
    "¡Hola amigo!",
    "Hallo mein Freund",
    "வணக்கம் நண்பரே!",
    "नमस्ते मित्र!",
    "こんにちは、友よ！",
    "你好朋友！",
    "مرحبا صديقي!",
    "Ciao amico!",
    "Olá amigo!",
    "Привет, друг!",
    "Hello friend",
];

/// Phrases that stand for "hello, world".
pub const HELLO_WORLD_WORDS: [&'static str; 8] = [
    "hello world",
    "bonjour le monde",
    "hola mundo",
    "hallo welt",
    "வணக்கம் உலகம்",
    "नमस्ते दुनिया",
    "こんにちは世界",
    "你好世界",
];

/// "Hello, world" in each language, then for any other.
pub const HELLO_WORLD_RENDERINGS: [&'static str; 13] = [
    "Hello, world!",
    "Bonjour le monde !",
    "¡Hola, mundo!",
    "Hallo Welt!",
    "வணக்கம் உலகம்!",
    "नमस्ते दुनिया!",
    "こんにちは世界！",
    "你好，世界！",
    "مرحبا بالعالم!",
    "Ciao mondo!",
    "Olá Mundo!",
    "Привет, мир!",
    "Hello, world!",
];

/// Phrases that stand for "hello, everyone".
pub const HELLO_EVERYONE_WORDS: [&'static str; 6] = [
    "hello everyone",
    "bonjour a tous",
    "bonjour à tous",
    "hola a todos",
    "hallo zusammen",
    "அனைவருக்கும் வணக்கம்",
];

/// "Hello, everyone" in each language, then for any other.
pub const HELLO_EVERYONE_RENDERINGS: [&'static str; 13] = [
    "Hello everyone!",
    "Bonjour à tous !",
    "¡Hola a todos!",
    "Hallo zusammen!",
    "அனைவருக்கும் வணக்கம்!",
    "आप सभी को नमस्ते!",
    "皆さん、こんにちは！",
    "大家好！",
    "مرحبا بالجميع!",
    "Ciao a tutti!",
    "Olá a todos!",
    "Всем привет!",
    "Hello everyone!",
];

/// Phrases that stand for "good morning".
pub const GOOD_MORNING_WORDS: [&'static str; 12] = [
    "good morning",
    "buenos dias",
    "buenos días",
    "guten morgen",
    "காலை வணக்கம்",
    "सुप्रभात",
    "おはようございます",
    "早上好",
    "صباح الخير",
    "buongiorno",
    "bom dia",
    "доброе утро",
];

/// "Good morning" in each language, then for any other.
pub const GOOD_MORNING_RENDERINGS: [&'static str; 13] = [
    "Good morning!",
    "Bonjour !",
    "¡Buenos días!",
    "Guten Morgen!",
    "காலை வணக்கம்!",
    "सुप्रभात!",
    "おはようございます！",
    "早上好！",
    "صباح الخير!",
    "Buongiorno!",
    "Bom dia!",
    "Доброе утро!",
    "Good morning!",
];

/// Phrases that stand for "good evening".
pub const GOOD_EVENING_WORDS: [&'static str; 6] = [
    "good evening",
    "bonsoir",
    "buenas noches",
    "guten abend",
    "மாலை வணக்கம்",
    "शुभ संध्या",
];

/// "Good evening" in each language, then for any other.
pub const GOOD_EVENING_RENDERINGS: [&'static str; 13] = [
    "Good evening!",
    "Bonsoir !",
    "¡Buenas noches!",
    "Guten Abend!",
    "மாலை வணக்கம்!",
    "शुभ संध्या!",
    "こんばんは！",
    "晚上好！",
    "مساء الخير!",
    "Buonasera!",
    "Boa noite!",
    "Добрый вечер!",
    "Good evening!",
];

/// Phrases that stand for "thank you".
pub const THANK_YOU_WORDS: [&'static str; 26] = [
    "thank you",
    "thanks",
    "thank you very much",
    "merci",
    "merci beaucoup",
    "gracias",
    "muchas gracias",
    "danke",
    "vielen dank",
    "நன்றி",
    "மிக்க நன்றி",
    "nandri",
    "धन्यवाद",
    "बहुत धन्यवाद",
    "ありがとう",
    "どうもありがとう",
    "谢谢",
    "非常感谢",
    "شكرا",
    "شكرا جزيلا",
    "grazie",
    "grazie mille",
    "obrigado",
    "muito obrigado",
    "спасибо",
    "большое спасибо",
];

/// "Thank you" in each language, then for any other.
pub const THANK_YOU_RENDERINGS: [&'static str; 13] = [
    "Thank you very much!",
    "Merci beaucoup !",
    "¡Muchas gracias!",
    "Vielen Dank!",
    "மிக்க நன்றி!",
    "बहुत-बहुत धन्यवाद!",
    "どうもありがとうございます！",
    "非常感谢！",
    "شكرا جزيلا!",
    "Grazie mille!",
    "Muito obrigado!",
    "Большое спасибо!",
    "Thank you!",
];

/// Phrases that stand for "how are you".
pub const HOW_ARE_YOU_WORDS: [&'static str; 14] = [
    "how are you",
    "how are you doing",
    "comment allez vous",
    "comment allez-vous",
    "comment vas tu",
    "como estas",
    "cómo estás",
    "wie geht es ihnen",
    "wie gehts",
    "நீங்கள் எப்படி இருக்கிறீர்கள்",
    "eppadi irukkeenga",
    "आप कैसे हैं",
    "お元気ですか",
    "你好吗",
];

/// "How are you" in each language, then for any other.
pub const HOW_ARE_YOU_RENDERINGS: [&'static str; 13] = [
    "How are you?",
    "Comment allez-vous ?",
    "¿Cómo estás?",
    "Wie geht es Ihnen?",
    "நீங்கள் எப்படி இருக்கிறீர்கள்?",
    "आप कैसे हैं?",
    "お元気ですか？",
    "你好吗？",
    "كيف حالك؟",
    "Come stai?",
    "Como você está?",
    "Как поживаете?",
    "How are you?",
];

/// Quotations that stand for "the limits of my language".
pub const LANGUAGE_LIMITS_PHRASES: [&'static str; 5] = [
    "die grenzen meiner sprache",
    "the limits of my language",
    "les limites de mon langage",
    "los límites de mi lenguaje",
    "என் மொழியின் எல்லைகள்",
];

/// "The limits of my language" in each language, then for any other.
pub const LANGUAGE_LIMITS_RENDERINGS: [&'static str; 13] = [
    "The limits of my language mean the limits of my world.",
    "Les limites de mon langage signifient les limites de mon monde.",
    "Los límites de mi lenguaje significan los límites de mi mundo.",
    "Die Grenzen meiner Sprache bedeuten die Grenzen meiner Welt.",
    "என் மொழியின் எல்லைகள் என் உலகின் எல்லைகளைக் குறிக்கின்றன.",
    "मेरी भाषा की सीमाएं मेरी दुनिया की सीमाओं का प्रतीक हैं।",
    "私の言語の限界は私の世界の限界を意味する。",
    "我的语言的边界意味着我的世界的边界。",
    "حدود لغتي تعني حدود عالمي.",
    "I limiti del mio linguaggio significano i limiti del mio mondo.",
    "Os limites da minha linguagem significam os limites do meu mundo.",
    "Границы моего языка определяют границы моего мира.",
    "The limits of my language mean the limits of my world.",
];

/// Quotations that stand for "silence is luxury".
pub const SILENCE_LUXURY_PHRASES: [&'static str; 4] = [
    "le silence est le plus grand luxe",
    "el silencio es el mayor lujo",
    "stille ist der größte luxus",
    "மிகப்பெரிய ஆடம்பரம் அமைதி",
];

/// "Silence is luxury" in each language, then for any other.
pub const SILENCE_LUXURY_RENDERINGS: [&'static str; 13] = [
    "Silence is the greatest luxury of modern life.",
    "Le silence est le plus grand luxe de la vie moderne.",
    "El silencio es el mayor lujo de la vida moderna.",
    "Stille ist der größte Luxus des modernen Lebens.",
    "நவீன வாழ்க்கையின் மிகப்பெரிய ஆடம்பரம் அமைதி ஆகும்.",
    "शांति आधुनिक जीवन का सबसे बड़ा विलास है।",
    "静寂は現代生活における最大の贅沢です。",
    "宁静是现代生活中最奢华的享受。",
    "الصمت هو أعظم ترف في الحياة الحديثة.",
    "Il silenzio è il più grande lusso della vita moderna.",
    "O silêncio é o maior luxo da vida moderna.",
    "Тишина — это величайшая роскошь современной жизни.",
    "Silence is the greatest luxury of modern life.",
];

/// Phrases that stand for "welcome".
pub const WELCOME_WORDS: [&'static str; 8] = [
    "welcome",
    "bienvenue",
    "bienvenido",
    "willkommen",
    "வரவேற்கிறோம்",
    "स्वागत है",
    "ようこそ",
    "欢迎",
];

/// "Welcome" in each language, then for any other.
pub const WELCOME_RENDERINGS: [&'static str; 13] = [
    "Welcome",
    "Bienvenue",
    "Bienvenido",
    "Willkommen",
    "வரவேற்கிறோம்",
    "स्वागत है",
    "ようこそ",
    "欢迎",
    "أهلا بك",
    "Benvenuto",
    "Bem-vindo",
    "Добро пожаловать",
    "Welcome",
];

/// Phrases that stand for "goodbye".
pub const GOODBYE_WORDS: [&'static str; 10] = [
    "goodbye",
    "bye",
    "au revoir",
    "adios",
    "adiós",
    "auf wiedersehen",
    "போய் வருகிறேன்",
    "अलविदा",
    "さようなら",
    "再见",
];

/// "Goodbye" in each language, then for any other.
pub const GOODBYE_RENDERINGS: [&'static str; 13] = [
    "Goodbye",
    "Au revoir",
    "Adiós",
    "Auf Wiedersehen",
    "போய் வருகிறேன்",
    "अलविदा",
    "さようなら",
    "再见",
    "مع السلامة",
    "Arrivederci",
    "Adeus",
    "До свидания",
    "Goodbye",
];

/// Phrases that stand for "yes".
pub const YES_WORDS: [&'static str; 9] = [
    "yes",
    "oui",
    "sí",
    "si",
    "ja",
    "ஆம்",
    "हाँ",
    "はい",
    "是",
];

/// "Yes" in each language, then for any other.
pub const YES_RENDERINGS: [&'static str; 13] = [
    "Yes",
    "Oui",
    "Sí",
    "Ja",
    "ஆம்",
    "हाँ",
    "はい",
    "是",
    "نعم",
    "Sì",
    "Sim",
    "Да",
    "Yes",
];

/// Phrases that stand for "no".
pub const NO_WORDS: [&'static str; 9] = [
    "no",
    "non",
    "nein",
    "இல்லை",
    "नहीं",
    "いいえ",
    "不",
    "لا",
    "нет",
];

/// "No" in each language, then for any other.
pub const NO_RENDERINGS: [&'static str; 13] = [
    "No",
    "Non",
    "No",
    "Nein",
    "இல்லை",
    "नहीं",
    "いいえ",
    "不",
    "لا",
    "No",
    "Não",
    "Нет",
    "No",
];

/// Concepts that a text is labelled with, in order of precedence.
pub const CONCEPT_KEYS: [&'static str; 6] = [
    "privacy",
    "local",
    "intelligence",
    "world",
    "speech",
    "translation",
];

/// Each concept in each language.
pub const CONCEPT_WORDS: [[&'static str; 12]; 6] = [
    ["privacy", "confidentialité", "privacidad", "Privatsphäre", "தனியுரிமை", "गोपनीयता", "プライバシー", "隐私", "خصوصية", "privacy", "privacidade", "конфиденциальность"],
    ["local", "local", "local", "lokal", "உள்ளூர்", "स्थानीय", "ローカル", "本地", "محلي", "locale", "local", "локальный"],
    ["intelligence", "intelligence", "inteligencia", "Intelligenz", "நுண்ணறிவு", "बुद्धिमत्ता", "知能", "智能", "ذكاء", "intelligenza", "inteligência", "интеллект"],
    ["world", "monde", "mundo", "Welt", "உலகம்", "दुनिया", "世界", "世界", "عالم", "mondo", "mundo", "мир"],
    ["speech", "parole", "habla", "Sprache", "பேச்சு", "वाणी", "音声", "语音", "كلام", "discorso", "fala", "речь"],
    ["translation", "traduction", "traducción", "Übersetzung", "மொழிபெயர்ப்பு", "अनुवाद", "翻訳", "翻译", "ترجمة", "traduzione", "tradução", "перевод"],
];

/// What precedes an untranslated text, in each language.
pub const TRANSLATION_LABELS: [&'static str; 12] = [
    "",
    "Traduction : ",
    "Traducción: ",
    "Übersetzung: ",
    "மொழிபெயர்ப்பு: ",
    "अनुवाद: ",
    "翻訳: ",
    "翻译: ",
    "ترجمة: ",
    "Traduzione: ",
    "Tradução: ",
    "Перевод: ",
];

/// What separates a concept from the text, in each language.
pub const LABEL_SEPARATORS: [&'static str; 12] = [
    "",
    " : ",
    ": ",
    ": ",
    ": ",
    ": ",
    ": ",
    ": ",
    ": ",
    ": ",
    ": ",
    ": ",
];

} // verus!
