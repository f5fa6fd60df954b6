//! The plain-text files that hold bookmarks and translations in Google
//! Drive, and the names and queries used to find them.
use vstd::prelude::*;
use crate::models::opt_view;
use crate::text::{
    byte_cut, byte_cut_in, utf8_len, strip_suffix, strip_suffix_in,
    all_ws, lemma_find_char_after, lemma_trim_around, lemma_trim_end_ws_suffix,
    lemma_trim_keeps_first, lemma_trimmed_ends, contains,
    lemma_lines_cons, lemma_lines_single, lemma_replace_absent, lemma_trim_idem, lemma_trim_shape,
    lemma_find_is, occurs_at, first_at,
    chars_of, find, find_in, lines, lines_in, starts_with, starts_with_in, nonblank, nonblank_in, opt_str_view, or_empty, push_slice, push_str,
    replace, replace_in, same_chars, split_once, split_once_in, string_of, strip_prefix,
    strip_prefix_in, trim, trim_in, views,
};

verus! {

/// The text of a bookmark file.
pub open spec fn bookmark_file_text(
    id: Seq<char>,
    title: Option<Seq<char>>,
    source: Option<Seq<char>>,
    content: Seq<char>,
) -> Seq<char> {
    "ID: "@ + id + "\nTitle: "@ + or_empty(title) + "\nSource: "@ + or_empty(source) + "\n\n"@
        + trim(content)
}

/// Writes a bookmark as the plain text stored in Drive: three header lines,
/// a blank line and the trimmed content.
pub fn format_bookmark_plain_text(
    id: &str,
    title: Option<&str>,
    source: Option<&str>,
    content: &str,
) -> (r: String)
    ensures
        r@ == bookmark_file_text(id@, opt_str_view(title), opt_str_view(source), content@),
{
    let mut out: Vec<char> = Vec::new();
    push_str(&mut out, "ID: ");
    push_str(&mut out, id);
    push_str(&mut out, "\nTitle: ");
    match title {
        Some(t) => push_str(&mut out, t),
        None => {},
    }
    push_str(&mut out, "\nSource: ");
    match source {
        Some(s) => push_str(&mut out, s),
        None => {},
    }
    push_str(&mut out, "\n\n");
    let c = chars_of(content);
    push_slice(&mut out, trim_in(c.as_slice()));
    proof {
        assert(out@ =~= bookmark_file_text(id@, opt_str_view(title), opt_str_view(source), content@));
    }
    string_of(out.as_slice())
}

/// The text of a translation file.
pub open spec fn translation_file_text(
    id: Seq<char>,
    source_text: Seq<char>,
    translated_text: Seq<char>,
) -> Seq<char> {
    "ID: "@ + id + "\nOriginal: "@ + trim(source_text) + "\n\nTranslated: "@ + trim(translated_text)
}

/// Writes a translation as the plain text stored in Drive.
pub fn format_translation_plain_text(id: &str, source_text: &str, translated_text: &str) -> (r:
    String)
    ensures
        r@ == translation_file_text(id@, source_text@, translated_text@),
{
    let mut out: Vec<char> = Vec::new();
    push_str(&mut out, "ID: ");
    push_str(&mut out, id);
    push_str(&mut out, "\nOriginal: ");
    let s = chars_of(source_text);
    push_slice(&mut out, trim_in(s.as_slice()));
    push_str(&mut out, "\n\nTranslated: ");
    let t = chars_of(translated_text);
    push_slice(&mut out, trim_in(t.as_slice()));
    proof {
        assert(out@ =~= translation_file_text(id@, source_text@, translated_text@));
    }
    string_of(out.as_slice())
}


/// The header values read so far: id, title and source.
pub type HeaderValues = (Option<Seq<char>>, Option<Seq<char>>, Option<Seq<char>>);

/// The effect of one header line of a bookmark file: a later non-blank
/// value replaces an earlier one, and a title of `Untitled` counts as none.
pub open spec fn apply_bookmark_header(acc: HeaderValues, line: Seq<char>) -> HeaderValues {
    match strip_prefix(line, "ID: "@) {
        Some(v) => (
            if nonblank(v) is Some {
                nonblank(v)
            } else {
                acc.0
            },
            acc.1,
            acc.2,
        ),
        None => match strip_prefix(line, "Title: "@) {
            Some(v) => (
                acc.0,
                if nonblank(v) is Some && trim(v) != "Untitled"@ {
                    nonblank(v)
                } else {
                    acc.1
                },
                acc.2,
            ),
            None => match strip_prefix(line, "Source: "@) {
                Some(v) => (
                    acc.0,
                    acc.1,
                    if nonblank(v) is Some {
                        nonblank(v)
                    } else {
                        acc.2
                    },
                ),
                None => acc,
            },
        },
    }
}

/// The header values of the given lines, read from first to last.
pub open spec fn scan_bookmark_headers(ls: Seq<Seq<char>>) -> HeaderValues
    decreases ls.len(),
{
    if ls.len() == 0 {
        (None, None, None)
    } else {
        apply_bookmark_header(scan_bookmark_headers(ls.drop_last()), ls.last())
    }
}

/// `raw` with every `\r\n` turned into `\n`.
pub open spec fn normalize_newlines(raw: Seq<char>) -> Seq<char> {
    replace(raw, "\r\n"@, "\n"@)
}

/// What a bookmark file reads as: the headers before the first blank line
/// and the trimmed body after it; without a blank line, the whole trimmed
/// text is the body.
pub open spec fn parsed_bookmark(raw: Seq<char>) -> (
    Option<Seq<char>>,
    Option<Seq<char>>,
    Option<Seq<char>>,
    Seq<char>,
) {
    let n = normalize_newlines(raw);
    match split_once(n, "\n\n"@) {
        Some((h, b)) => {
            let hs = scan_bookmark_headers(lines(h));
            (hs.0, hs.1, hs.2, trim(b))
        },
        None => (None, None, None, trim(n)),
    }
}

/// `raw` with every `\r\n` turned into `\n`.
pub fn normalize_newlines_in(raw: &str) -> (r: Vec<char>)
    ensures
        r@ == normalize_newlines(raw@),
{
    let chars = chars_of(raw);
    let crlf = chars_of("\r\n");
    let lf = chars_of("\n");
    proof {
        reveal_strlit("\r\n");
    }
    replace_in(chars.as_slice(), crlf.as_slice(), lf.as_slice())
}

/// Reads a bookmark file: id, title and source from the header lines, and
/// the trimmed content.
pub fn parse_bookmark_text(raw_text: &str) -> (r: (
    Option<String>,
    Option<String>,
    Option<String>,
    String,
))
    ensures
        (opt_view(r.0), opt_view(r.1), opt_view(r.2), r.3@) == parsed_bookmark(raw_text@),
{
    let normalized = normalize_newlines_in(raw_text);
    let sep = chars_of("\n\n");
    match split_once_in(normalized.as_slice(), sep.as_slice()) {
        Some((headers, body)) => {
            let ls = lines_in(headers);
            let id_tag = chars_of("ID: ");
            let title_tag = chars_of("Title: ");
            let source_tag = chars_of("Source: ");
            let untitled = chars_of("Untitled");
            let mut id: Option<String> = None;
            let mut title: Option<String> = None;
            let mut source: Option<String> = None;
            let mut i: usize = 0;
            assert(views(ls@).take(0) =~= Seq::<Seq<char>>::empty());
            while i < ls.len()
                invariant
                    i <= ls.len(),
                    id_tag@ == "ID: "@,
                    title_tag@ == "Title: "@,
                    source_tag@ == "Source: "@,
                    untitled@ == "Untitled"@,
                    (opt_view(id), opt_view(title), opt_view(source)) == scan_bookmark_headers(
                        views(ls@).take(i as int),
                    ),
                decreases ls.len() - i,
            {
                let line = ls[i].as_slice();
                assert(views(ls@).take(i + 1).drop_last() =~= views(ls@).take(i as int));
                assert(views(ls@).take(i + 1).last() == line@);
                match strip_prefix_in(line, id_tag.as_slice()) {
                    Some(v) => {
                        match nonblank_in(v) {
                            Some(t) => {
                                id = Some(t);
                            },
                            None => {},
                        }
                    },
                    None => match strip_prefix_in(line, title_tag.as_slice()) {
                        Some(v) => {
                            let t = trim_in(v);
                            if t.len() > 0 && !same_chars(t, untitled.as_slice()) {
                                title = Some(string_of(t));
                            }
                        },
                        None => match strip_prefix_in(line, source_tag.as_slice()) {
                            Some(v) => {
                                match nonblank_in(v) {
                                    Some(t) => {
                                        source = Some(t);
                                    },
                                    None => {},
                                }
                            },
                            None => {},
                        },
                    },
                }
                i += 1;
            }
            assert(views(ls@).take(ls.len() as int) =~= views(ls@));
            (id, title, source, string_of(trim_in(body)))
        },
        None => (None, None, None, string_of(trim_in(normalized.as_slice()))),
    }
}


/// A value that can stand on a header line: it holds no line break.
pub open spec fn is_header_field(s: Seq<char>) -> bool {
    !s.contains('\n') && !s.contains('\r')
}

/// The title that a bookmark file gives back for the title written.
pub open spec fn title_value(t: Seq<char>) -> Option<Seq<char>> {
    if nonblank(t) is Some && trim(t) != "Untitled"@ {
        nonblank(t)
    } else {
        None
    }
}

proof fn lemma_no_cr_in_trim(c: Seq<char>)
    requires
        !c.contains('\r'),
    ensures
        !trim(c).contains('\r'),
{
    lemma_trim_shape(c);
    let (i, j) = choose|i: int, j: int|
        0 <= i <= j <= c.len() && trim(c) == c.subrange(i, j) && (i < j ==> !crate::text::is_ws(c[i])
            && !crate::text::is_ws(c[j - 1]));
    if trim(c).contains('\r') {
        let k = choose|k: int| 0 <= k < trim(c).len() && trim(c)[k] == '\r';
        assert(c[i + k] == '\r');
    }
}

proof fn lemma_no_nl_prefixed(tag: Seq<char>, v: Seq<char>)
    requires
        !tag.contains('\n'),
        !tag.contains('\r'),
        is_header_field(v),
    ensures
        is_header_field(tag + v),
{
    let l = tag + v;
    if l.contains('\n') {
        let k = choose|k: int| 0 <= k < l.len() && l[k] == '\n';
        if k >= tag.len() {
            assert(v[k - tag.len()] == '\n');
        } else {
            assert(tag[k] == '\n');
        }
    }
    if l.contains('\r') {
        let k = choose|k: int| 0 <= k < l.len() && l[k] == '\r';
        if k >= tag.len() {
            assert(v[k - tag.len()] == '\r');
        } else {
            assert(tag[k] == '\r');
        }
    }
}

/// Three header lines, a blank line and a body without carriage returns
/// split at that blank line, with nothing to normalize.
proof fn lemma_split_at_blank_line(l1: Seq<char>, l2: Seq<char>, l3: Seq<char>, c: Seq<char>)
    requires
        is_header_field(l1),
        is_header_field(l2),
        is_header_field(l3),
        l2.len() > 0,
        l3.len() > 0,
        !c.contains('\r'),
    ensures
        ({
            let h = l1 + seq!['\n'] + l2 + seq!['\n'] + l3;
            let text = h + seq!['\n', '\n'] + c;
            &&& normalize_newlines(text) == text
            &&& split_once(text, seq!['\n', '\n']) == Some((h, c))
        }),
{
    reveal_strlit("\r\n");
    let h = l1 + seq!['\n'] + l2 + seq!['\n'] + l3;
    let text = h + seq!['\n', '\n'] + c;
    let a = l1.len();
    let b = l1.len() + 1 + l2.len();
    assert forall|k: int| 0 <= k < text.len() implies text[k] != '\r' by {
        if k < a {
            assert(l1[k] != '\r');
        } else if a < k < b {
            assert(l2[k - a - 1] != '\r');
        } else if b < k < h.len() {
            assert(l3[k - b - 1] != '\r');
        } else if k >= h.len() + 2 {
            assert(c[k - h.len() - 2] != '\r');
        }
    }
    lemma_replace_absent(text, "\r\n"@, "\n"@);
    let sep = seq!['\n', '\n'];
    assert(occurs_at(text, sep, h.len() as int)) by {
        assert(text.subrange(h.len() as int, h.len() + 2int) =~= sep);
    }
    assert forall|k: int| 0 <= k < h.len() implies !#[trigger] occurs_at(text, sep, k) by {
        if occurs_at(text, sep, k) {
            assert(text.subrange(k, k + 2)[0] == '\n');
            assert(text.subrange(k, k + 2)[1] == '\n');
            if k < a {
                assert(l1[k] == '\n');
            } else if k == a {
                assert(l2[0] == text[k + 1]);
            } else if k < b {
                assert(l2[k - a - 1] == '\n');
            } else if k == b {
                assert(l3[0] == text[k + 1]);
            } else {
                assert(l3[k - b - 1] == '\n');
            }
        }
    }
    lemma_find_is(text, sep, h.len() as int);
    assert(text.take(h.len() as int) =~= h);
    assert(text.skip(h.len() + 2int) =~= c);
}

/// A bookmark written to its Drive file reads back as written. The id
/// and source come back trimmed (none where blank), the title likewise
/// unless it is `Untitled`, and the content trimmed; this holds for header
/// values without line breaks and content without carriage returns.
pub proof fn bookmark_text_round_trip(
    id: Seq<char>,
    title: Option<Seq<char>>,
    source: Option<Seq<char>>,
    content: Seq<char>,
)
    requires
        is_header_field(id),
        is_header_field(or_empty(title)),
        is_header_field(or_empty(source)),
        !content.contains('\r'),
    ensures
        parsed_bookmark(bookmark_file_text(id, title, source, content)) == (
            nonblank(id),
            title_value(or_empty(title)),
            nonblank(or_empty(source)),
            trim(content),
        ),
{
    reveal_strlit("ID: ");
    reveal_strlit("\nTitle: ");
    reveal_strlit("\nSource: ");
    reveal_strlit("\n\n");
    reveal_strlit("Title: ");
    reveal_strlit("Source: ");
    let t = or_empty(title);
    let s = or_empty(source);
    let c = trim(content);
    lemma_no_cr_in_trim(content);
    let l1 = "ID: "@ + id;
    let l2 = "Title: "@ + t;
    let l3 = "Source: "@ + s;
    lemma_no_nl_prefixed("ID: "@, id);
    lemma_no_nl_prefixed("Title: "@, t);
    lemma_no_nl_prefixed("Source: "@, s);
    let h = l1 + seq!['\n'] + l2 + seq!['\n'] + l3;
    let text = bookmark_file_text(id, title, source, content);
    assert(text =~= h + seq!['\n', '\n'] + c);
    lemma_split_at_blank_line(l1, l2, l3, c);
    assert(!(l1.len() > 0 && l1.last() == '\r'));
    assert(!(l2.len() > 0 && l2.last() == '\r'));
    assert(h =~= l1 + seq!['\n'] + (l2 + seq!['\n'] + l3));
    lemma_lines_cons(l1, l2 + seq!['\n'] + l3);
    lemma_lines_cons(l2, l3);
    lemma_lines_single(l3);
    let ls = lines(h);
    assert(ls =~= seq![l1, l2, l3]);
    assert(l1.subrange(0, 4) =~= "ID: "@);
    assert(l1.skip(4) =~= id);
    assert(!occurs_at(l2, "ID: "@, 0)) by {
        if occurs_at(l2, "ID: "@, 0) {
            assert(l2.subrange(0, 4)[0] == 'I');
        }
    }
    assert(l2.subrange(0, 7) =~= "Title: "@);
    assert(l2.skip(7) =~= t);
    assert(!occurs_at(l3, "ID: "@, 0)) by {
        if occurs_at(l3, "ID: "@, 0) {
            assert(l3.subrange(0, 4)[0] == 'I');
        }
    }
    assert(!occurs_at(l3, "Title: "@, 0)) by {
        if occurs_at(l3, "Title: "@, 0) {
            assert(l3.subrange(0, 7)[0] == 'T');
        }
    }
    assert(l3.subrange(0, 8) =~= "Source: "@);
    assert(l3.skip(8) =~= s);
    assert(ls.drop_last() =~= seq![l1, l2]);
    assert(ls.drop_last().drop_last() =~= seq![l1]);
    assert(ls.drop_last().drop_last().drop_last() =~= Seq::<Seq<char>>::empty());
    lemma_trim_idem(content);
    assert("\n\n"@ =~= seq!['\n', '\n']);
    assert(normalize_newlines(text) == text);
    assert(split_once(text, "\n\n"@) == Some((h, c)));
    let acc1 = apply_bookmark_header((None, None, None), l1);
    assert(acc1 == (nonblank(id), None::<Seq<char>>, None::<Seq<char>>));
    let acc2 = apply_bookmark_header(acc1, l2);
    assert(acc2 == (nonblank(id), title_value(t), None::<Seq<char>>));
    let acc3 = apply_bookmark_header(acc2, l3);
    assert(acc3 == (nonblank(id), title_value(t), nonblank(s)));
    assert(scan_bookmark_headers(ls.drop_last().drop_last().drop_last()) == (
        None::<Seq<char>>,
        None::<Seq<char>>,
        None::<Seq<char>>,
    ));
    assert(scan_bookmark_headers(ls.drop_last().drop_last()) == acc1);
    assert(scan_bookmark_headers(ls.drop_last()) == acc2);
    assert(scan_bookmark_headers(ls) == acc3);
}


// ---------------------------------------------------------------------
// Translation files
// ---------------------------------------------------------------------

/// What serde_json reads a JSON document as, taken at one key: nothing
/// where the text is not JSON, and otherwise the string at that key, if the
/// document holds one there.
pub uninterp spec fn json_string_field(text: Seq<char>, key: Seq<char>) -> Option<
    Option<Seq<char>>,
>;

pub open spec fn opt_opt_view(r: Option<Option<String>>) -> Option<Option<Seq<char>>> {
    match r {
        Some(o) => Some(opt_view(o)),
        None => None,
    }
}

/// Parses `text` with `serde_json::from_str` into a `serde_json::Value`
/// and reads the string at `key` (`Value::index`, `Value::as_str`). The
/// contract names the result only: no clause says which texts parse.
#[verifier::external_body]
pub(crate) fn json_text_field(text: &str, key: &str) -> (r: Option<Option<String>>)
    ensures
        opt_opt_view(r) == json_string_field(text@, key@),
{
    match serde_json::from_str::<serde_json::Value>(text) {
        Ok(v) => Some(v[key].as_str().map(|s| s.to_string())),
        Err(_) => None,
    }
}

/// What serde_json reads a JSON document as, taken at one key as an
/// unsigned integer: nothing where the text is not JSON, and otherwise the
/// number at that key, if the document holds one there that fits in `u64`.
pub uninterp spec fn json_number_field(text: Seq<char>, key: Seq<char>) -> Option<Option<u64>>;

/// Parses `text` with `serde_json::from_str` into a `serde_json::Value`
/// and reads the unsigned integer at `key` (`Value::index`,
/// `Value::as_u64`). The contract names the result only.
#[verifier::external_body]
pub(crate) fn json_u64_field(text: &str, key: &str) -> (r: Option<Option<u64>>)
    ensures
        r == json_number_field(text@, key@),
{
    match serde_json::from_str::<serde_json::Value>(text) {
        Ok(v) => Some(v[key].as_u64()),
        Err(_) => None,
    }
}

/// A field of a parsed JSON document: nothing where the text did not parse
/// or holds no string there.
pub open spec fn json_field(text: Seq<char>, key: Seq<char>) -> Option<Seq<char>> {
    match json_string_field(text, key) {
        Some(o) => o,
        None => None,
    }
}

/// The first of two optional values that is present.
pub open spec fn either(a: Option<Seq<char>>, b: Option<Seq<char>>) -> Option<Seq<char>> {
    match a {
        Some(x) => Some(x),
        None => b,
    }
}

/// A translation read from the fields of a JSON file: the id as stored,
/// and the trimmed texts under their snake-case or camel-case keys.
pub open spec fn json_translation(
    id: Option<Seq<char>>,
    source_text: Option<Seq<char>>,
    source_text_camel: Option<Seq<char>>,
    translated_text: Option<Seq<char>>,
    translated_text_camel: Option<Seq<char>>,
) -> (Option<Seq<char>>, Seq<char>, Seq<char>) {
    (
        id,
        trim(or_empty(either(source_text, source_text_camel))),
        trim(or_empty(either(translated_text, translated_text_camel))),
    )
}

fn trimmed_or_empty(a: Option<String>, b: Option<String>) -> (r: String)
    ensures
        r@ == trim(or_empty(either(opt_view(a), opt_view(b)))),
{
    let chosen = match a {
        Some(x) => Some(x),
        None => b,
    };
    match chosen {
        Some(x) => {
            let c = chars_of(x.as_str());
            string_of(trim_in(c.as_slice()))
        },
        None => {
            let e: Vec<char> = Vec::new();
            assert(e@ =~= Seq::<char>::empty());
            proof { crate::text::lemma_trim_idem(Seq::<char>::empty()); }
            string_of(trim_in(e.as_slice()))
        },
    }
}

/// Builds the record of a JSON translation file out of its string fields.
pub fn translation_from_json(
    id: Option<String>,
    source_text: Option<String>,
    source_text_camel: Option<String>,
    translated_text: Option<String>,
    translated_text_camel: Option<String>,
) -> (r: (Option<String>, String, String))
    ensures
        (opt_view(r.0), r.1@, r.2@) == json_translation(
            opt_view(id),
            opt_view(source_text),
            opt_view(source_text_camel),
            opt_view(translated_text),
            opt_view(translated_text_camel),
        ),
{
    let src = trimmed_or_empty(source_text, source_text_camel);
    let trn = trimmed_or_empty(translated_text, translated_text_camel);
    (id, src, trn)
}

/// The id of the first line that begins with `ID: `, where it is not blank.
pub open spec fn first_id_line(ls: Seq<Seq<char>>) -> Option<Seq<char>>
    decreases ls.len(),
{
    if ls.len() == 0 {
        None
    } else {
        match strip_prefix(ls[0], "ID: "@) {
            Some(v) => nonblank(v),
            None => first_id_line(ls.drop_first()),
        }
    }
}

/// The text after the `ID: ` line, where the text begins with one.
pub open spec fn after_id_line(n: Seq<char>) -> Seq<char> {
    if starts_with(n, "ID: "@) {
        match find(n, "\n"@) {
            Some(p) => n.skip(p + 1),
            None => n,
        }
    } else {
        n
    }
}

/// The source text: trimmed, without an `Original:` label.
pub open spec fn original_part(b: Seq<char>) -> Seq<char> {
    match strip_prefix(trim(b), "Original:"@) {
        Some(r) => trim(r),
        None => trim(b),
    }
}

/// A translation read from a plain-text file whose line breaks are
/// normalized: the id line, the source text before `Translated:` (or before
/// the first blank line) and the translation after it.
pub open spec fn plain_translation(n: Seq<char>) -> (Option<Seq<char>>, Seq<char>, Seq<char>) {
    let id = first_id_line(lines(n));
    let w = after_id_line(n);
    match split_once(w, "Translated:"@) {
        Some((b, a)) => (id, original_part(b), trim(a)),
        None => match split_once(w, "\n\n"@) {
            Some((b, a)) => (id, original_part(b), trim(a)),
            None => (id, trim(w), Seq::empty()),
        },
    }
}

/// What a translation file reads as: a JSON document where the trimmed
/// text begins with `{` and parses, the plain-text layout otherwise.
pub open spec fn parsed_translation(raw: Seq<char>) -> (Option<Seq<char>>, Seq<char>, Seq<char>) {
    let n = normalize_newlines(raw);
    if starts_with(trim(n), "{"@) && json_string_field(n, "id"@) is Some {
        json_translation(
            json_field(n, "id"@),
            json_field(n, "source_text"@),
            json_field(n, "sourceText"@),
            json_field(n, "translated_text"@),
            json_field(n, "translatedText"@),
        )
    } else {
        plain_translation(n)
    }
}

fn flatten_field(r: Option<Option<String>>) -> (o: Option<String>)
    ensures
        opt_view(o) == match opt_opt_view(r) {
            Some(x) => x,
            None => None,
        },
{
    match r {
        Some(x) => x,
        None => None,
    }
}

fn original_part_in(b: &[char]) -> (r: String)
    ensures
        r@ == original_part(b@),
{
    let label = chars_of("Original:");
    let t = trim_in(b);
    match strip_prefix_in(t, label.as_slice()) {
        Some(rest) => string_of(trim_in(rest)),
        None => string_of(t),
    }
}

/// Reads the record held in the plain-text layout of a translation file
/// whose line breaks are normalized.
pub fn translation_from_plain_text(normalized: &[char]) -> (r: (Option<String>, String, String))
    ensures
        (opt_view(r.0), r.1@, r.2@) == plain_translation(normalized@),
{
    let ls = lines_in(normalized);
    let id_tag = chars_of("ID: ");
    let mut id: Option<String> = None;
    let mut i: usize = 0;
    assert(views(ls@).skip(0) =~= views(ls@));
    while i < ls.len()
        invariant_except_break
            id is None,
            first_id_line(views(ls@)) == first_id_line(views(ls@).skip(i as int)),
        invariant
            i <= ls.len(),
            id_tag@ == "ID: "@,
        ensures
            opt_view(id) == first_id_line(views(ls@)),
        decreases ls.len() - i,
    {
        assert(views(ls@).skip(i as int).drop_first() =~= views(ls@).skip(i + 1));
        assert(views(ls@).skip(i as int)[0] == ls@[i as int]@);
        match strip_prefix_in(ls[i].as_slice(), id_tag.as_slice()) {
            Some(v) => {
                id = nonblank_in(v);
                break;
            },
            None => {},
        }
        i += 1;
        proof {
            if i == ls.len() {
                assert(views(ls@).skip(i as int) =~= Seq::<Seq<char>>::empty());
            }
        }
    }
    assert(opt_view(id) == first_id_line(views(ls@)));
    let nl = chars_of("\n");
    proof {
        reveal_strlit("\n");
    }
    let w: &[char] = if starts_with_in(normalized, id_tag.as_slice()) {
        match find_in(normalized, nl.as_slice()) {
            Some(p) => {
                proof {
                    crate::text::lemma_find(normalized@, nl@);
                }
                assert(occurs_at(normalized@, nl@, p as int));
                assert(nl@.len() == 1);
                assert(p + 1 <= normalized.len());
                &normalized[p + 1..normalized.len()]
            },
            None => normalized,
        }
    } else {
        normalized
    };
    assert(w@ == after_id_line(normalized@));
    let translated_tag = chars_of("Translated:");
    match split_once_in(w, translated_tag.as_slice()) {
        Some((b, a)) => (id, original_part_in(b), string_of(trim_in(a))),
        None => {
            let blank = chars_of("\n\n");
            match split_once_in(w, blank.as_slice()) {
                Some((b, a)) => (id, original_part_in(b), string_of(trim_in(a))),
                None => {
                    let e: Vec<char> = Vec::new();
                    assert(e@ =~= Seq::<char>::empty());
                    (id, string_of(trim_in(w)), string_of(e.as_slice()))
                },
            }
        },
    }
}

/// Reads a translation file, JSON or plain text, into its id, source text
/// and translated text.
pub fn parse_translation_text(raw_text: &str) -> (r: (Option<String>, String, String))
    ensures
        (opt_view(r.0), r.1@, r.2@) == parsed_translation(raw_text@),
{
    let normalized = normalize_newlines_in(raw_text);
    let brace = chars_of("{");
    if starts_with_in(trim_in(normalized.as_slice()), brace.as_slice()) {
        let text = string_of(normalized.as_slice());
        let id = json_text_field(text.as_str(), "id");
        if id.is_some() {
            let st = json_text_field(text.as_str(), "source_text");
            let stc = json_text_field(text.as_str(), "sourceText");
            let tt = json_text_field(text.as_str(), "translated_text");
            let ttc = json_text_field(text.as_str(), "translatedText");
            return translation_from_json(
                flatten_field(id),
                flatten_field(st),
                flatten_field(stc),
                flatten_field(tt),
                flatten_field(ttc),
            );
        }
    }
    translation_from_plain_text(normalized.as_slice())
}


proof fn lemma_label_trim(l: Seq<char>, x: Seq<char>, post: Seq<char>)
    requires
        l.len() > 0,
        !crate::text::is_ws(l[0]),
        !crate::text::is_ws(l.last()),
        trim(x) == x,
        all_ws(post),
    ensures
        trim(l + seq![' '] + x + post) == if x.len() > 0 {
            l + seq![' '] + x
        } else {
            l
        },
{
    let whole = l + seq![' '] + x + post;
    lemma_trim_end_ws_suffix(l + seq![' '] + x, post);
    assert(whole[0] == l[0]);
    assert(crate::text::trim_start(whole) == whole);
    if x.len() > 0 {
        lemma_trimmed_ends(x);
        assert((l + seq![' '] + x).last() == x.last());
        assert(crate::text::trim_end(l + seq![' '] + x) == l + seq![' '] + x);
    } else {
        assert(l + seq![' '] + x =~= l + seq![' ']);
        assert((l + seq![' ']).drop_last() =~= l);
        assert(crate::text::trim_end(l) == l);
    }
}

proof fn lemma_translation_header(l1: Seq<char>, w: Seq<char>, id: Seq<char>)
    requires
        l1 == "ID: "@ + id,
        is_header_field(l1),
    ensures
        first_id_line(lines(l1 + seq!['\n'] + w)) == nonblank(id),
        after_id_line(l1 + seq!['\n'] + w) == w,
{
    reveal_strlit("ID: ");
    reveal_strlit("\n");
    let text = l1 + seq!['\n'] + w;
    assert(!(l1.len() > 0 && l1.last() == '\r'));
    lemma_lines_cons(l1, w);
    assert(l1.subrange(0, 4) =~= "ID: "@);
    assert(l1.skip(4) =~= id);
    assert(strip_prefix(l1, "ID: "@) == Some(id));
    assert(lines(text)[0] == l1);
    assert(first_id_line(lines(text)) == nonblank(id));
    assert(text.subrange(0, 4) =~= "ID: "@);
    assert(starts_with(text, "ID: "@));
    lemma_find_char_after(l1, '\n', w);
    assert("\n"@ =~= seq!['\n']);
    assert(text.skip(l1.len() + 1int) =~= w);
}

proof fn lemma_translated_split(
    orig: Seq<char>,
    i_: Seq<char>,
    tr: Seq<char>,
    t_: Seq<char>,
)
    requires
        orig == seq!['O', 'r', 'i', 'g', 'i', 'n', 'a', 'l', ':'],
        tr == "Translated:"@,
        !contains(i_, tr),
    ensures
        split_once(orig + seq![' '] + i_ + seq!['\n', '\n'] + tr + seq![' '] + t_, tr) == Some(
            (orig + seq![' '] + i_ + seq!['\n', '\n'], seq![' '] + t_),
        ),
{
    reveal_strlit("Translated:");
    let w = orig + seq![' '] + i_ + seq!['\n', '\n'] + tr + seq![' '] + t_;
    let at: int = orig.len() + 1int + i_.len() + 2int;
    assert(occurs_at(w, tr, at)) by {
        assert(w.subrange(at, at + tr.len()) =~= tr);
    }
    assert forall|k: int| 0 <= k < at implies !#[trigger] occurs_at(w, tr, k) by {
        if occurs_at(w, tr, k) {
            assert(w.subrange(k, k + tr.len())[0] == 'T');
            assert(w[k] == 'T');
            if k < orig.len() + 1 {
                assert(w[k] != 'T');
            } else if k + tr.len() <= orig.len() + 1 + i_.len() {
                assert(occurs_at(i_, tr, k - orig.len() - 1)) by {
                    assert(i_.subrange(k - orig.len() - 1, k - orig.len() - 1 + tr.len())
                        =~= w.subrange(k, k + tr.len()));
                }
            } else if k < orig.len() + 1 + i_.len() {
                let j = orig.len() + 1 + i_.len() - k;
                assert(w[k + j] == '\n');
                assert(w.subrange(k, k + tr.len())[j] == tr[j]);
            } else {
                assert(w[k] == '\n');
            }
        }
    }
    lemma_find_is(w, tr, at);
    assert(w.take(at) =~= orig + seq![' '] + i_ + seq!['\n', '\n']);
    assert(w.skip(at + tr.len()) =~= seq![' '] + t_);
}

proof fn lemma_original_of(orig: Seq<char>, i_: Seq<char>)
    requires
        orig == seq!['O', 'r', 'i', 'g', 'i', 'n', 'a', 'l', ':'],
        trim(i_) == i_,
    ensures
        original_part(orig + seq![' '] + i_ + seq!['\n', '\n']) == i_,
{
    reveal_strlit("Original:");
    assert(all_ws(seq!['\n', '\n'])) by {
        assert(crate::text::is_ws('\n'));
    }
    assert(all_ws(seq![' '])) by {
        assert(crate::text::is_ws(' '));
    }
    assert(all_ws(Seq::<char>::empty()));
    lemma_label_trim(orig, i_, seq!['\n', '\n']);
    assert(orig =~= "Original:"@);
    if i_.len() > 0 {
        assert((orig + seq![' '] + i_).subrange(0, 9) =~= orig);
        assert((orig + seq![' '] + i_).skip(9) =~= seq![' '] + i_);
        lemma_trim_around(seq![' '], i_, Seq::<char>::empty());
        assert(seq![' '] + i_ + Seq::<char>::empty() =~= seq![' '] + i_);
    } else {
        assert(orig.subrange(0, 9) =~= orig);
        assert(orig.skip(9) =~= Seq::<char>::empty());
        assert(trim(Seq::<char>::empty()) =~= Seq::<char>::empty());
    }
}

proof fn lemma_translation_plain(text: Seq<char>)
    requires
        !text.contains('\r'),
        text.len() > 0,
        text[0] == 'I',
    ensures
        parsed_translation(text) == plain_translation(text),
{
    reveal_strlit("{");
    reveal_strlit("\r\n");
    lemma_replace_absent(text, "\r\n"@, "\n"@);
    assert(!crate::text::is_ws('I'));
    lemma_trim_keeps_first(text);
    assert(!starts_with(trim(text), "{"@)) by {
        if starts_with(trim(text), "{"@) {
            assert(trim(text).subrange(0, 1)[0] == '{');
        }
    }
}

/// A translation written to its Drive file reads back as written: the
/// id trimmed (none where blank) and both texts trimmed. This holds for an
/// id without line breaks, texts without carriage returns, and a source text
/// that does not itself hold `Translated:`.
pub proof fn translation_text_round_trip(
    id: Seq<char>,
    source_text: Seq<char>,
    translated_text: Seq<char>,
)
    requires
        is_header_field(id),
        !source_text.contains('\r'),
        !translated_text.contains('\r'),
        !contains(trim(source_text), "Translated:"@),
    ensures
        parsed_translation(translation_file_text(id, source_text, translated_text)) == (
            nonblank(id),
            trim(source_text),
            trim(translated_text),
        ),
{
    reveal_strlit("ID: ");
    reveal_strlit("\nOriginal: ");
    reveal_strlit("\n\nTranslated: ");
    reveal_strlit("Translated:");
    let i_ = trim(source_text);
    let t_ = trim(translated_text);
    lemma_no_cr_in_trim(source_text);
    lemma_no_cr_in_trim(translated_text);
    crate::text::lemma_trim_idem(source_text);
    crate::text::lemma_trim_idem(translated_text);
    let l1 = "ID: "@ + id;
    lemma_no_nl_prefixed("ID: "@, id);
    let orig = seq!['O', 'r', 'i', 'g', 'i', 'n', 'a', 'l', ':'];
    let tr = "Translated:"@;
    let w = orig + seq![' '] + i_ + seq!['\n', '\n'] + tr + seq![' '] + t_;
    let text = translation_file_text(id, source_text, translated_text);
    assert(text =~= l1 + seq!['\n'] + w);
    assert forall|k: int| 0 <= k < text.len() implies text[k] != '\r' by {
        if k < l1.len() {
            assert(l1[k] != '\r');
        } else if k > l1.len() + 10 && k < l1.len() + 11 + i_.len() {
            assert(i_[k - l1.len() - 11] != '\r');
        } else if k >= l1.len() + 11 + i_.len() + 14 {
            assert(t_[k - (l1.len() + 11 + i_.len() + 14)] != '\r');
        }
    }
    lemma_translation_plain(text);
    lemma_translation_header(l1, w, id);
    lemma_translated_split(orig, i_, tr, t_);
    lemma_original_of(orig, i_);
    assert(all_ws(seq![' '])) by {
        assert(crate::text::is_ws(' '));
    }
    assert(all_ws(Seq::<char>::empty()));
    lemma_trim_around(seq![' '], t_, Seq::<char>::empty());
    assert(seq![' '] + t_ + Seq::<char>::empty() =~= seq![' '] + t_);
}


// ---------------------------------------------------------------------
// Timestamps in file names
// ---------------------------------------------------------------------

/// A decimal digit.
pub open spec fn is_digit(c: char) -> bool {
    '0' <= c && c <= '9'
}

/// Two decimal digits at `i`, as chrono writes a zero-padded field.
pub open spec fn two_digits_at(t: Seq<char>, i: int) -> bool {
    is_digit(t[i]) && is_digit(t[i + 1])
}

/// A year as chrono writes `%Y`: at least four digits, or, outside the
/// years 0 to 9999, a sign and at least four digits.
pub open spec fn is_year_text(y: Seq<char>) -> bool {
    ||| y.len() >= 4 && forall|i: int| 0 <= i < y.len() ==> is_digit(#[trigger] y[i])
    ||| y.len() >= 5 && (y[0] == '+' || y[0] == '-') && forall|i: int|
        1 <= i < y.len() ==> is_digit(#[trigger] y[i])
}

/// A local time written as chrono writes `%Y-%m-%d`, `date_time`,
/// `%H`, `time`, `%M`, `time`, `%S`, and then `suffix`: the year, then the
/// month, day, hour, minute and second in two digits each.
pub open spec fn is_local_time_text(
    t: Seq<char>,
    date_time: char,
    time: char,
    suffix: Seq<char>,
) -> bool {
    let n = t.len() - suffix.len();
    let b = n - 15;
    &&& t.len() >= 19 + suffix.len()
    &&& is_year_text(t.take(b))
    &&& t[b] == '-'
    &&& two_digits_at(t, b + 1)
    &&& t[b + 3] == '-'
    &&& two_digits_at(t, b + 4)
    &&& t[b + 6] == date_time
    &&& two_digits_at(t, b + 7)
    &&& t[b + 9] == time
    &&& two_digits_at(t, b + 10)
    &&& t[b + 12] == time
    &&& two_digits_at(t, b + 13)
    &&& t.skip(n) == suffix
}

/// Writes a moment, given in seconds since the Unix epoch, as a local
/// time with a `chrono` strftime pattern (`DateTime::from_timestamp`,
/// `DateTime::with_timezone` to `Local`, `DateTime::format`); nothing where
/// chrono cannot represent the moment. The offset of the local time zone is
/// the machine's, so the contract states the layout that chrono's
/// documentation gives the two patterns used here (`%Y` zero-padded to four
/// digits, with a sign outside the years 0 to 9999; `%m`, `%d`, `%H`, `%M`,
/// `%S` zero-padded to two digits) and not the time itself.
#[verifier::external_body]
fn local_time_text(unix_secs: i64, pattern: &str) -> (r: Option<String>)
    requires
        pattern@ == "%Y-%m-%d_%H-%M-%S.txt"@ || pattern@ == "%Y-%m-%d %H:%M:%S"@,
    ensures
        pattern@ == "%Y-%m-%d_%H-%M-%S.txt"@ ==> (r matches Some(t) ==> is_local_time_text(
            t@,
            '_',
            '-',
            ".txt"@,
        )),
        pattern@ == "%Y-%m-%d %H:%M:%S"@ ==> (r matches Some(t) ==> is_local_time_text(
            t@,
            ' ',
            ':',
            Seq::empty(),
        )),
{
    match chrono::DateTime::from_timestamp(unix_secs, 0) {
        Some(d) => Some(d.with_timezone(&chrono::Local).format(pattern).to_string()),
        None => None,
    }
}

/// The current local time with one of the two patterns; nothing where the
/// clock is set before the Unix epoch.
fn local_time_now(pattern: &str) -> (r: Option<String>)
    requires
        pattern@ == "%Y-%m-%d_%H-%M-%S.txt"@ || pattern@ == "%Y-%m-%d %H:%M:%S"@,
    ensures
        pattern@ == "%Y-%m-%d_%H-%M-%S.txt"@ ==> (r matches Some(t) ==> is_local_time_text(
            t@,
            '_',
            '-',
            ".txt"@,
        )),
        pattern@ == "%Y-%m-%d %H:%M:%S"@ ==> (r matches Some(t) ==> is_local_time_text(
            t@,
            ' ',
            ':',
            Seq::empty(),
        )),
{
    match crate::clock::seconds_since_epoch() {
        Some(s) => {
            if s <= 0x7fff_ffff_ffff_ffffu64 {
                local_time_text(s as i64, pattern)
            } else {
                None
            }
        },
        None => None,
    }
}

/// The local time as records are stamped with it, `%Y-%m-%d %H:%M:%S`;
/// nothing where the clock is set before the Unix epoch.
pub fn current_local_timestamp() -> (r: Option<String>)
    ensures
        r matches Some(t) ==> is_local_time_text(t@, ' ', ':', Seq::empty()),
{
    local_time_now("%Y-%m-%d %H:%M:%S")
}

/// A file name for a new upload: the local time, `.txt`; nothing where
/// the clock is set before the Unix epoch.
pub fn generate_timestamp_filename() -> (r: Option<String>)
    ensures
        r matches Some(t) ==> is_local_time_text(t@, '_', '-', ".txt"@),
{
    local_time_now("%Y-%m-%d_%H-%M-%S.txt")
}

/// A file name without its `.txt` or `.json` extension.
pub open spec fn without_extension(f: Seq<char>) -> Option<Seq<char>> {
    either(strip_suffix(f, ".txt"@), strip_suffix(f, ".json"@))
}

/// A name without its `bookmark_` or `translation_` prefix.
pub open spec fn without_kind_prefix(s: Seq<char>) -> Seq<char> {
    match strip_prefix(s, "bookmark_"@) {
        Some(r) => r,
        None => match strip_prefix(s, "translation_"@) {
            Some(r) => r,
            None => s,
        },
    }
}

/// A stem shaped like `YYYY-MM-DD_HH-MM-SS`: at least 19 bytes, with `-`,
/// `-` and `_` as its fifth, eighth and eleventh characters.
pub open spec fn stamp_shape(c: Seq<char>) -> bool {
    &&& utf8_len(c) >= 19
    &&& c.len() > 10
    &&& c[4] == '-'
    &&& c[7] == '-'
    &&& c[10] == '_'
}

/// The stem can be cut at bytes 10, 11 and 19, as the timestamp is read.
pub open spec fn stamp_cut_ok(c: Seq<char>) -> bool {
    stamp_shape(c) ==> byte_cut(c, 10) is Some && byte_cut(c, 11) is Some && byte_cut(c, 19) is Some
}

/// The file name can be read for a timestamp without cutting a character.
pub open spec fn filename_cut_ok(f: Seq<char>) -> bool {
    match without_extension(f) {
        Some(s) => stamp_cut_ok(without_kind_prefix(s)),
        None => true,
    }
}

/// The timestamp that a file name carries: `YYYY-MM-DD HH:MM:SS` from a
/// stem `YYYY-MM-DD_HH-MM-SS`.
pub open spec fn name_stamp(f: Seq<char>) -> Option<Seq<char>> {
    match without_extension(f) {
        Some(s) => {
            let c = without_kind_prefix(s);
            if stamp_shape(c) {
                Some(
                    c.take(byte_cut(c, 10)->0) + seq![' '] + replace(
                        c.subrange(byte_cut(c, 11)->0, byte_cut(c, 19)->0),
                        "-"@,
                        ":"@,
                    ),
                )
            } else {
                None
            }
        },
        None => None,
    }
}

/// A Drive `createdTime` such as `2024-01-02T03:04:05.000Z` as
/// `2024-01-02 03:04:05`: `T` becomes a space and the text from the first
/// `.` on is dropped.
pub open spec fn created_time_stamp(t: Seq<char>) -> Seq<char> {
    let r = replace(t, "T"@, " "@);
    match find(r, "."@) {
        Some(i) => r.take(i),
        None => r,
    }
}

/// The timestamp of a Drive file from its name, else from its creation
/// time; nothing where neither gives one.
pub open spec fn stamp_from_names(f: Seq<char>, created: Seq<char>) -> Option<Seq<char>> {
    match name_stamp(f) {
        Some(x) => Some(x),
        None => if created.len() > 0 {
            Some(created_time_stamp(created))
        } else {
            None
        },
    }
}

fn stem_of(filename: &str) -> (r: Option<Vec<char>>)
    ensures
        match r {
            Some(c) => without_extension(filename@) matches Some(s) && c@ == without_kind_prefix(s),
            None => without_extension(filename@) is None,
        },
{
    let f = chars_of(filename);
    let txt = chars_of(".txt");
    let json = chars_of(".json");
    let stripped = match strip_suffix_in(f.as_slice(), txt.as_slice()) {
        Some(x) => Some(x),
        None => strip_suffix_in(f.as_slice(), json.as_slice()),
    };
    match stripped {
        Some(s) => {
            let bm = chars_of("bookmark_");
            let tr = chars_of("translation_");
            let c = match strip_prefix_in(s, bm.as_slice()) {
                Some(r) => r,
                None => match strip_prefix_in(s, tr.as_slice()) {
                    Some(r) => r,
                    None => s,
                },
            };
            Some(vstd::slice::slice_to_vec(c))
        },
        None => None,
    }
}

fn stamp_shape_in(c: &[char]) -> (r: bool)
    ensures
        r == stamp_shape(c@),
{
    if c.len() <= 10 || c[4] != '-' || c[7] != '-' || c[10] != '_' {
        return false;
    }
    // a character takes at most four bytes
    match byte_cut_in(c, 19) {
        Some(j) => {
            proof {
                assert(c@ =~= c@.take(j as int) + c@.skip(j as int));
                crate::text::lemma_utf8_len_concat(c@.take(j as int), c@.skip(j as int));
            }
            true
        },
        None => {
            // count the bytes, without overflowing
            let mut i: usize = 0;
            let mut n: usize = 0;
            assert(c@.take(0) =~= Seq::<char>::empty());
            while i < c.len() && n < 19
                invariant
                    i <= c.len(),
                    n == utf8_len(c@.take(i as int)),
                    n < 19 + 4,
                decreases c.len() - i,
            {
                proof {
                    assert(c@.take(i + 1) =~= c@.take(i as int) + seq![c@[i as int]]);
                    crate::text::lemma_utf8_len_concat(c@.take(i as int), seq![c@[i as int]]);
                    assert(seq![c@[i as int]].drop_first() =~= Seq::<char>::empty());
                    assert(utf8_len(Seq::<char>::empty()) == 0);
                    assert(seq![c@[i as int]][0] == c@[i as int]);
                }
                n = n + crate::text::char_utf8_width(c[i]);
                i += 1;
            }
            proof {
                assert(c@ =~= c@.take(i as int) + c@.skip(i as int));
                crate::text::lemma_utf8_len_concat(c@.take(i as int), c@.skip(i as int));
                if i == c.len() {
                    assert(c@.skip(i as int) =~= Seq::<char>::empty());
                }
            }
            n >= 19
        },
    }
}

/// Whether the file name can be read for a timestamp without cutting a
/// character in two.
pub fn timestamp_cut_is_safe(filename: &str) -> (r: bool)
    ensures
        r == filename_cut_ok(filename@),
{
    match stem_of(filename) {
        Some(c) => {
            if !stamp_shape_in(c.as_slice()) {
                return true;
            }
            byte_cut_in(c.as_slice(), 10).is_some() && byte_cut_in(c.as_slice(), 11).is_some()
                && byte_cut_in(c.as_slice(), 19).is_some()
        },
        None => true,
    }
}

/// The timestamp of a Drive file, from its name or else its creation time.
pub fn stamp_from_file(filename: &str, fallback_created_time: &str) -> (r: Option<String>)
    requires
        filename_cut_ok(filename@),
    ensures
        opt_view(r) == stamp_from_names(filename@, fallback_created_time@),
{
    match stem_of(filename) {
        Some(c) => {
            if stamp_shape_in(c.as_slice()) {
                let a = byte_cut_in(c.as_slice(), 10);
                let b = byte_cut_in(c.as_slice(), 11);
                let e = byte_cut_in(c.as_slice(), 19);
                match (a, b, e) {
                    (Some(a), Some(b), Some(e)) => {
                        if b <= e {
                            let mut out = vstd::slice::slice_to_vec(&c.as_slice()[0..a]);
                            out.push(' ');
                            let dash = chars_of("-");
                            let colon = chars_of(":");
                            proof {
                                reveal_strlit("-");
                            }
                            let time = replace_in(&c.as_slice()[b..e], dash.as_slice(), colon.as_slice());
                            push_slice(&mut out, time.as_slice());
                            return Some(string_of(out.as_slice()));
                        } else {
                            proof {
                                crate::text::lemma_utf8_len_prefix(c@, e as int, b as int);
                            }
                            return None;
                        }
                    },
                    _ => {
                        return None;
                    },
                }
            }
        },
        None => {},
    }
    let t = chars_of(fallback_created_time);
    if t.len() == 0 {
        return None;
    }
    let tee = chars_of("T");
    let space = chars_of(" ");
    let dot = chars_of(".");
    proof {
        reveal_strlit("T");
    }
    let r = replace_in(t.as_slice(), tee.as_slice(), space.as_slice());
    match find_in(r.as_slice(), dot.as_slice()) {
        Some(i) => {
            proof {
                crate::text::lemma_find(r@, dot@);
            }
            assert(occurs_at(r@, dot@, i as int));
            Some(string_of(&r.as_slice()[0..i]))
        },
        None => Some(string_of(r.as_slice())),
    }
}

/// The timestamp shown for a Drive file: from a name such as
/// `bookmark_2024-01-02_03-04-05.txt`, else from the Drive creation time,
/// else the local time now (nothing where the clock is set before the Unix
/// epoch).
pub fn parse_timestamp_from_filename(filename: &str, fallback_created_time: &str) -> (r: Option<
    String,
>)
    requires
        filename_cut_ok(filename@),
    ensures
        match stamp_from_names(filename@, fallback_created_time@) {
            Some(x) => r matches Some(t) && t@ == x,
            None => r matches Some(t) ==> is_local_time_text(t@, ' ', ':', Seq::empty()),
        },
{
    match stamp_from_file(filename, fallback_created_time) {
        Some(s) => Some(s),
        None => current_local_timestamp(),
    }
}


// ---------------------------------------------------------------------
// Query strings
// ---------------------------------------------------------------------

/// The bytes that stand for themselves in a URL: letters, digits, `-`,
/// `_`, `.` and `~`.
pub open spec fn is_unreserved(b: u8) -> bool {
    ||| 0x61 <= b <= 0x7A
    ||| 0x41 <= b <= 0x5A
    ||| 0x30 <= b <= 0x39
    ||| b == 0x2D
    ||| b == 0x5F
    ||| b == 0x2E
    ||| b == 0x7E
}

/// An upper-case hexadecimal digit.
pub open spec fn hex_digit(n: u8) -> char {
    if n < 10 {
        ((0x30 + n) as u8) as char
    } else {
        ((0x41 + n - 10) as u8) as char
    }
}

/// How `url_encode` writes one byte: unreserved bytes as themselves, every
/// other byte as `%` and two upper-case hexadecimal digits (a space as
/// `%20`).
pub open spec fn encode_byte(b: u8) -> Seq<char> {
    if is_unreserved(b) {
        seq![b as char]
    } else {
        seq!['%', hex_digit(b / 16), hex_digit(b % 16)]
    }
}

/// The percent-encoding of a byte string.
pub open spec fn url_encoded(bytes: Seq<u8>) -> Seq<char>
    decreases bytes.len(),
{
    if bytes.len() == 0 {
        Seq::empty()
    } else {
        encode_byte(bytes[0]) + url_encoded(bytes.drop_first())
    }
}

pub proof fn lemma_url_encoded_concat(a: Seq<u8>, b: Seq<u8>)
    ensures
        url_encoded(a + b) == url_encoded(a) + url_encoded(b),
    decreases a.len(),
{
    if a.len() > 0 {
        assert((a + b).drop_first() =~= a.drop_first() + b);
        lemma_url_encoded_concat(a.drop_first(), b);
        assert(url_encoded(a + b) =~= url_encoded(a) + url_encoded(b));
    } else {
        assert(a + b =~= b);
        assert(url_encoded(a) + url_encoded(b) =~= url_encoded(b));
    }
}

fn hex_digit_char(n: u8) -> (c: char)
    requires
        n < 16,
    ensures
        c == hex_digit(n),
{
    if n < 10 {
        (0x30u8 + n) as char
    } else {
        (0x41u8 + n - 10) as char
    }
}

/// Percent-encodes the UTF-8 bytes of `input` for a Drive query string.
pub fn url_encode(input: &str) -> (r: String)
    ensures
        r@ == url_encoded(vstd::utf8::encode_utf8(input@)),
{
    let bytes = input.as_bytes();
    let mut out: Vec<char> = Vec::new();
    let mut i: usize = 0;
    assert(bytes@.take(0) =~= Seq::<u8>::empty());
    while i < bytes.len()
        invariant
            i <= bytes.len(),
            out@ == url_encoded(bytes@.take(i as int)),
        decreases bytes.len() - i,
    {
        let b = bytes[i];
        if (0x61 <= b && b <= 0x7A) || (0x41 <= b && b <= 0x5A) || (0x30 <= b && b <= 0x39) || b
            == 0x2D || b == 0x5F || b == 0x2E || b == 0x7E {
            out.push(b as char);
        } else if b == 0x20 {
            out.push('%');
            out.push('2');
            out.push('0');
        } else {
            out.push('%');
            out.push(hex_digit_char(b / 16));
            out.push(hex_digit_char(b % 16));
        }
        proof {
            assert(bytes@.take(i + 1) =~= bytes@.take(i as int) + seq![b]);
            lemma_url_encoded_concat(bytes@.take(i as int), seq![b]);
            assert(seq![b].drop_first() =~= Seq::<u8>::empty());
            assert(url_encoded(Seq::<u8>::empty()) =~= Seq::<char>::empty());
            assert(seq![b][0] == b);
            assert(url_encoded(seq![b]) =~= encode_byte(b));
        }
        i += 1;
    }
    assert(bytes@.take(bytes.len() as int) =~= bytes@);
    string_of(out.as_slice())
}

/// The value of a hexadecimal digit, either case.
pub open spec fn hex_value(c: char) -> Option<u8> {
    let u = c as u32;
    if 0x30 <= u <= 0x39 {
        Some((u - 0x30) as u8)
    } else if 0x41 <= u <= 0x46 {
        Some((u - 0x41 + 10) as u8)
    } else if 0x61 <= u <= 0x66 {
        Some((u - 0x61 + 10) as u8)
    } else {
        None
    }
}

/// Percent-decoding: `%` and two hexadecimal digits give a byte, an ASCII
/// character gives itself; anything else is malformed.
pub open spec fn percent_decoded(s: Seq<char>) -> Option<Seq<u8>>
    decreases s.len(),
{
    if s.len() == 0 {
        Some(Seq::empty())
    } else if s[0] == '%' {
        if s.len() >= 3 && hex_value(s[1]) is Some && hex_value(s[2]) is Some {
            match percent_decoded(s.skip(3)) {
                Some(r) => Some(
                    seq![(hex_value(s[1])->0 * 16 + hex_value(s[2])->0) as u8] + r,
                ),
                None => None,
            }
        } else {
            None
        }
    } else if (s[0] as u32) < 0x80 {
        match percent_decoded(s.drop_first()) {
            Some(r) => Some(seq![s[0] as u8] + r),
            None => None,
        }
    } else {
        None
    }
}

proof fn lemma_hex_digit_value(n: u8)
    requires
        n < 16,
    ensures
        hex_value(hex_digit(n)) == Some(n),
{
}

/// Percent-encoding loses nothing. Decoding what `url_encode` gives
/// returns exactly the bytes that went in.
pub proof fn url_encode_round_trip(bytes: Seq<u8>)
    ensures
        percent_decoded(url_encoded(bytes)) == Some(bytes),
    decreases bytes.len(),
{
    if bytes.len() > 0 {
        let b = bytes[0];
        let rest = bytes.drop_first();
        url_encode_round_trip(rest);
        let e = url_encoded(bytes);
        assert(e == encode_byte(b) + url_encoded(rest));
        if is_unreserved(b) {
            assert(e[0] == b as char);
            assert(e.drop_first() =~= url_encoded(rest));
            assert((b as char) as u32 == b as u32);
            assert(((b as char) as u8) == b);
        } else {
            lemma_hex_digit_value(b / 16);
            lemma_hex_digit_value(b % 16);
            assert(e.skip(3) =~= url_encoded(rest));
            assert(e[1] == hex_digit(b / 16));
            assert(e[2] == hex_digit(b % 16));
            assert(((b / 16) * 16 + b % 16) as u8 == b);
        }
        assert(seq![b] + rest =~= bytes);
    }
}


/// A character of a percent-encoded text: an unreserved ASCII character
/// or `%`.
pub open spec fn is_url_char(c: char) -> bool {
    c == '%' || ((c as u32) < 0x80 && is_unreserved(c as u8))
}

/// An upper-case hexadecimal digit.
pub open spec fn is_upper_hex(c: char) -> bool {
    ('0' <= c && c <= '9') || ('A' <= c && c <= 'F')
}

/// A percent-encoded text of the right shape: only unreserved characters
/// and `%`, each `%` followed by two upper-case hexadecimal digits.
pub open spec fn is_url_encoded_text(e: Seq<char>) -> bool {
    &&& forall|k: int| 0 <= k < e.len() ==> is_url_char(#[trigger] e[k])
    &&& forall|k: int|
        0 <= k < e.len() && #[trigger] e[k] == '%' ==> k + 2 < e.len() && is_upper_hex(e[k + 1])
            && is_upper_hex(e[k + 2])
}

/// What `url_encode` gives holds only unreserved characters and `%`, and
/// each `%` is followed by two upper-case hexadecimal digits.
pub proof fn url_encode_alphabet(bytes: Seq<u8>)
    ensures
        is_url_encoded_text(url_encoded(bytes)),
    decreases bytes.len(),
{
    if bytes.len() > 0 {
        let b = bytes[0];
        let rest = bytes.drop_first();
        url_encode_alphabet(rest);
        let h = encode_byte(b);
        let t = url_encoded(rest);
        let e = url_encoded(bytes);
        assert(e == h + t);
        assert(is_url_encoded_text(h)) by {
            if is_unreserved(b) {
                assert((b as char) as u32 == b as u32);
                assert(((b as char) as u8) == b);
            } else {
                assert(h[1] == hex_digit(b / 16));
                assert(h[2] == hex_digit(b % 16));
                assert(h[1] != '%' && h[2] != '%');
            }
        }
        assert forall|k: int| 0 <= k < e.len() implies is_url_char(#[trigger] e[k]) by {
            if k < h.len() {
                assert(e[k] == h[k]);
            } else {
                assert(e[k] == t[k - h.len()]);
            }
        }
        assert forall|k: int| 0 <= k < e.len() && #[trigger] e[k] == '%' implies k + 2 < e.len()
            && is_upper_hex(e[k + 1]) && is_upper_hex(e[k + 2]) by {
            if k < h.len() {
                assert(e[k] == h[k]);
                assert(h[k] == '%');
                assert(e[k + 1] == h[k + 1] && e[k + 2] == h[k + 2]);
            } else {
                assert(e[k] == t[k - h.len()]);
                assert(e[k + 1] == t[k + 1 - h.len()] && e[k + 2] == t[k + 2 - h.len()]);
            }
        }
    }
}


proof fn lemma_ascii_utf8_len(s: Seq<char>)
    requires
        forall|k: int| 0 <= k < s.len() ==> (#[trigger] s[k] as u32) < 0x80,
    ensures
        utf8_len(s) == s.len(),
    decreases s.len(),
{
    if s.len() > 0 {
        assert forall|k: int| 0 <= k < s.drop_first().len() implies (
        #[trigger] s.drop_first()[k] as u32) < 0x80 by {
            assert(s.drop_first()[k] == s[k + 1]);
        }
        lemma_ascii_utf8_len(s.drop_first());
    }
}

/// In ASCII text, byte `n` is character `n`.
proof fn lemma_ascii_byte_cut(s: Seq<char>, n: int)
    requires
        forall|k: int| 0 <= k < s.len() ==> (#[trigger] s[k] as u32) < 0x80,
        0 <= n <= s.len(),
    ensures
        byte_cut(s, n) == Some(n),
{
    assert forall|j: int| 0 <= j <= s.len() implies utf8_len(#[trigger] s.take(j)) == j by {
        assert forall|k: int| 0 <= k < s.take(j).len() implies (#[trigger] s.take(j)[k] as u32)
            < 0x80 by {
            assert(s.take(j)[k] == s[k]);
        }
        lemma_ascii_utf8_len(s.take(j));
    }
    assert(utf8_len(s.take(n)) == n);
}

/// Replacing a character: the part before its first occurrence, the
/// replacement, then the rest replaced.
proof fn lemma_replace_first_char(a: Seq<char>, c: char, b: Seq<char>, to: Seq<char>)
    requires
        !a.contains(c),
    ensures
        replace(a + seq![c] + b, seq![c], to) == a + to + replace(b, seq![c], to),
{
    let s = a + seq![c] + b;
    crate::text::lemma_find_char_after(a, c, b);
    assert(s.take(a.len() as int) =~= a);
    assert(s.skip(a.len() + 1int) =~= b);
}

/// `HH-MM-SS` with `-` made `:`.
proof fn lemma_time_colons(t: Seq<char>)
    requires
        t.len() == 8,
        t[2] == '-',
        t[5] == '-',
        two_digits_at(t, 0),
        two_digits_at(t, 3),
        two_digits_at(t, 6),
    ensures
        replace(t, "-"@, ":"@) == t.take(2) + seq![':'] + t.subrange(3, 5) + seq![':'] + t.subrange(
            6,
            8,
        ),
{
    reveal_strlit("-");
    reveal_strlit(":");
    assert("-"@ =~= seq!['-']);
    assert(":"@ =~= seq![':']);
    let hh = t.take(2);
    let mm = t.subrange(3, 5);
    let ss = t.subrange(6, 8);
    let rest = mm + seq!['-'] + ss;
    assert(t =~= hh + seq!['-'] + rest);
    assert(!hh.contains('-')) by {
        if hh.contains('-') {
            let k = choose|k: int| 0 <= k < hh.len() && hh[k] == '-';
            assert(hh[k] == t[k]);
        }
    }
    assert(!mm.contains('-')) by {
        if mm.contains('-') {
            let k = choose|k: int| 0 <= k < mm.len() && mm[k] == '-';
            assert(mm[k] == t[k + 3]);
        }
    }
    assert(!ss.contains('-')) by {
        if ss.contains('-') {
            let k = choose|k: int| 0 <= k < ss.len() && ss[k] == '-';
            assert(ss[k] == t[k + 6]);
        }
    }
    lemma_replace_first_char(hh, '-', rest, seq![':']);
    lemma_replace_first_char(mm, '-', ss, seq![':']);
    crate::text::lemma_replace_absent(ss, seq!['-'], seq![':']);
    assert(replace(t, "-"@, ":"@) =~= hh + seq![':'] + mm + seq![':'] + ss);
}

/// The record stamp that a generated file name gives: its date, a space,
/// and its time with `:` between the fields.
pub open spec fn stamp_of_generated_name(name: Seq<char>) -> Seq<char> {
    name.take(10) + seq![' '] + name.subrange(11, 13) + seq![':'] + name.subrange(14, 16) + seq![
        ':',
    ] + name.subrange(17, 19)
}

/// A file name that `generate_timestamp_filename` gives, for a year of
/// four digits, is read back by `parse_timestamp_from_filename` as its
/// date and time in the layout of record stamps, whatever the creation
/// time; reading it cuts no character in two.
pub proof fn generated_name_parses_back(name: Seq<char>, created: Seq<char>)
    requires
        is_local_time_text(name, '_', '-', ".txt"@),
        name.len() == 23,
    ensures
        filename_cut_ok(name),
        stamp_from_names(name, created) == Some(stamp_of_generated_name(name)),
        is_local_time_text(stamp_of_generated_name(name), ' ', ':', Seq::empty()),
{
    reveal_strlit(".txt");
    reveal_strlit(".json");
    reveal_strlit("bookmark_");
    reveal_strlit("translation_");
    let c = name.take(19);
    assert(name.skip(19) == ".txt"@);
    assert(strip_suffix(name, ".txt"@) == Some(c));
    assert(without_extension(name) == Some(c));
    assert(is_year_text(name.take(4)));
    assert(forall|i: int| 0 <= i < 4 ==> is_digit(#[trigger] name.take(4)[i])) by {
        if !(forall|i: int| 0 <= i < 4 ==> is_digit(#[trigger] name.take(4)[i])) {
            assert(name.take(4)[0] == '+' || name.take(4)[0] == '-');
            assert(name.take(4).len() >= 5);
        }
    }
    assert forall|k: int| 0 <= k < c.len() implies (#[trigger] c[k] as u32) < 0x80 by {
        assert(c[k] == name[k]);
        if k < 4 {
            assert(name.take(4)[k] == name[k]);
        }
    }
    assert(!starts_with(c, "bookmark_"@)) by {
        if starts_with(c, "bookmark_"@) {
            assert(c.subrange(0, 9)[0] == 'b');
            assert(name.take(4)[0] == c[0]);
        }
    }
    assert(!starts_with(c, "translation_"@)) by {
        if starts_with(c, "translation_"@) {
            assert(c.subrange(0, 12)[0] == 't');
            assert(name.take(4)[0] == c[0]);
        }
    }
    assert(without_kind_prefix(c) == c);
    lemma_ascii_utf8_len(c);
    lemma_ascii_byte_cut(c, 10);
    lemma_ascii_byte_cut(c, 11);
    lemma_ascii_byte_cut(c, 19);
    assert(stamp_shape(c));
    let t = c.subrange(11, 19);
    assert(t[2] == name[13] && t[5] == name[16]);
    assert(two_digits_at(t, 0) && two_digits_at(t, 3) && two_digits_at(t, 6)) by {
        assert(t[0] == name[11] && t[1] == name[12]);
        assert(t[3] == name[14] && t[4] == name[15]);
        assert(t[6] == name[17] && t[7] == name[18]);
    }
    lemma_time_colons(t);
    assert(c.take(19) =~= c);
    assert(name_stamp(name) == Some(c.take(10) + seq![' '] + replace(t, "-"@, ":"@)));
    assert(c.take(10) + seq![' '] + replace(t, "-"@, ":"@) =~= stamp_of_generated_name(name));
    let st = stamp_of_generated_name(name);
    assert(st.len() == 19);
    assert(st.take(4) =~= name.take(4));
    assert(st.skip(19) =~= Seq::<char>::empty());
}

/// A JSON translation file gives its id as stored, and each text from its
/// snake-case key, or, where that key holds no string, from its camel-case
/// key (`sourceText`, `translatedText`), trimmed; a text under neither key
/// reads as empty.
pub proof fn json_translation_reads_either_key(raw: Seq<char>)
    requires
        starts_with(trim(normalize_newlines(raw)), "{"@),
        json_string_field(normalize_newlines(raw), "id"@) is Some,
    ensures
        parsed_translation(raw).0 == json_field(normalize_newlines(raw), "id"@),
        json_field(normalize_newlines(raw), "source_text"@) matches Some(v) ==> parsed_translation(
            raw,
        ).1 == trim(v),
        json_field(normalize_newlines(raw), "source_text"@) is None ==> match json_field(
            normalize_newlines(raw),
            "sourceText"@,
        ) {
            Some(v) => parsed_translation(raw).1 == trim(v),
            None => parsed_translation(raw).1 == Seq::<char>::empty(),
        },
        json_field(normalize_newlines(raw), "translated_text"@) matches Some(v)
            ==> parsed_translation(raw).2 == trim(v),
        json_field(normalize_newlines(raw), "translated_text"@) is None ==> match json_field(
            normalize_newlines(raw),
            "translatedText"@,
        ) {
            Some(v) => parsed_translation(raw).2 == trim(v),
            None => parsed_translation(raw).2 == Seq::<char>::empty(),
        },
{
    assert(trim(Seq::<char>::empty()) =~= Seq::<char>::empty());
}

} // verus!
