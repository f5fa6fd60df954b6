//! Reading bookmarks and translations back from Drive files, and the
//! deduplicating merge of cloud and local records.
use vstd::prelude::*;
use crate::models::{opt_view, BookmarkItem, TranslationRecordPayload};
use crate::sync::{
    json_field, json_string_field, json_text_field, opt_opt_view, parse_bookmark_text,
    parse_translation_text, parsed_bookmark, parsed_translation,
};
use crate::text::{
    chars_of, ends_with, ends_with_in, or_empty, push_str, same_chars, starts_with,
    starts_with_in, string_of, strip_prefix, strip_prefix_in, strip_suffix, strip_suffix_in, trim,
    trim_in,
};

verus! {

/// The field of a parsed JSON document, or `fallback` where it has none.
pub open spec fn or_else(o: Option<Seq<char>>, fallback: Seq<char>) -> Seq<char> {
    match o {
        Some(x) => x,
        None => fallback,
    }
}

/// The first of two optional values that is present.
fn first_present(a: Option<Option<String>>) -> (r: Option<String>)
    ensures
        opt_view(r) == match opt_opt_view(a) {
            Some(x) => x,
            None => None,
        },
{
    match a {
        Some(x) => x,
        None => None,
    }
}

/// The text of an optional string, or the fallback.
fn text_or(o: Option<String>, fallback: &str) -> (r: String)
    ensures
        r@ == or_else(opt_view(o), fallback@),
{
    match o {
        Some(x) => x,
        None => {
            let c = chars_of(fallback);
            string_of(c.as_slice())
        },
    }
}

/// A string holding the trimmed text.
fn trimmed(s: &str) -> (r: String)
    ensures
        r@ == trim(s@),
{
    let c = chars_of(s);
    string_of(trim_in(c.as_slice()))
}

/// The fields of a bookmark read from the string fields of a JSON file
/// during a sync: the id (the file's id where the document has none),
/// title, source and trimmed content.
pub open spec fn json_bookmark_fields(
    id: Option<Seq<char>>,
    title: Option<Seq<char>>,
    content: Option<Seq<char>>,
    source: Option<Seq<char>>,
    file_id: Seq<char>,
) -> (Option<Seq<char>>, Option<Seq<char>>, Option<Seq<char>>, Seq<char>) {
    (Some(or_else(id, file_id)), title, source, trim(or_empty(content)))
}

/// Reads the fields of a bookmark from the string fields of a JSON file.
pub fn bookmark_from_json_fields(
    id: Option<String>,
    title: Option<String>,
    content: Option<String>,
    source: Option<String>,
    file_id: &str,
) -> (r: (Option<String>, Option<String>, Option<String>, String))
    ensures
        (opt_view(r.0), opt_view(r.1), opt_view(r.2), r.3@) == json_bookmark_fields(
            opt_view(id),
            opt_view(title),
            opt_view(content),
            opt_view(source),
            file_id@,
        ),
{
    let id = text_or(id, file_id);
    let content = match content {
        Some(c) => trimmed(c.as_str()),
        None => {
            proof {
                crate::text::lemma_trim_idem(Seq::<char>::empty());
            }
            trimmed("")
        },
    };
    proof {
        reveal_strlit("");
    }
    (Some(id), title, source, content)
}

/// The fields a sync reads from a bookmark file: JSON where the trimmed
/// text begins with `{` (nothing where it does not parse), the plain-text
/// layout otherwise.
pub open spec fn synced_bookmark_fields(text: Seq<char>, file_id: Seq<char>) -> (
    Option<Seq<char>>,
    Option<Seq<char>>,
    Option<Seq<char>>,
    Seq<char>,
) {
    if starts_with(trim(text), "{"@) {
        if json_string_field(text, "id"@) is Some {
            json_bookmark_fields(
                json_field(text, "id"@),
                json_field(text, "title"@),
                json_field(text, "content"@),
                json_field(text, "source"@),
                file_id,
            )
        } else {
            (None, None, None, Seq::empty())
        }
    } else {
        parsed_bookmark(text)
    }
}

/// Reads a bookmark file of the cloud folder during a sync.
pub fn read_synced_bookmark(text: &str, file_id: &str) -> (r: (
    Option<String>,
    Option<String>,
    Option<String>,
    String,
))
    ensures
        (opt_view(r.0), opt_view(r.1), opt_view(r.2), r.3@) == synced_bookmark_fields(
            text@,
            file_id@,
        ),
{
    let t = chars_of(text);
    let brace = chars_of("{");
    if starts_with_in(trim_in(t.as_slice()), brace.as_slice()) {
        let id = json_text_field(text, "id");
        if id.is_some() {
            let title = json_text_field(text, "title");
            let content = json_text_field(text, "content");
            let source = json_text_field(text, "source");
            bookmark_from_json_fields(
                first_present(id),
                first_present(title),
                first_present(content),
                first_present(source),
                file_id,
            )
        } else {
            let e: Vec<char> = Vec::new();
            assert(e@ =~= Seq::<char>::empty());
            (None, None, None, string_of(e.as_slice()))
        }
    } else {
        parse_bookmark_text(text)
    }
}

/// An id made of a prefix and a Drive file id.
fn prefixed_id(prefix: &str, file_id: &str) -> (r: String)
    ensures
        r@ == prefix@ + file_id@,
{
    let mut out: Vec<char> = Vec::new();
    push_str(&mut out, prefix);
    push_str(&mut out, file_id);
    string_of(out.as_slice())
}

/// The bookmark a sync keeps from a Drive file, given the fields read from
/// it: none where the content is blank; otherwise the id read (or
/// `bm_` and the file id), the trimmed content, the timestamp and the file.
pub open spec fn is_cloud_bookmark(
    b: BookmarkItem,
    fields: (Option<Seq<char>>, Option<Seq<char>>, Option<Seq<char>>, Seq<char>),
    file_id: Seq<char>,
    timestamp: Seq<char>,
) -> bool {
    &&& b.id@ == or_else(fields.0, "bm_"@ + file_id)
    &&& opt_view(b.title) == fields.1
    &&& opt_view(b.source) == fields.2
    &&& b.content@ == trim(fields.3)
    &&& b.created_at@ == timestamp
    &&& opt_view(b.drive_file_id) == Some(file_id)
}

/// The bookmark a sync keeps from the fields of a Drive file.
pub fn cloud_bookmark_from_fields(
    fields: (Option<String>, Option<String>, Option<String>, String),
    file_id: &str,
    timestamp: &str,
) -> (r: Option<BookmarkItem>)
    ensures
        match r {
            Some(b) => trim(fields.3@).len() > 0 && is_cloud_bookmark(
                b,
                (opt_view(fields.0), opt_view(fields.1), opt_view(fields.2), fields.3@),
                file_id@,
                timestamp@,
            ),
            None => trim(fields.3@).len() == 0,
        },
{
    let (id, title, source, content) = fields;
    let content = trimmed(content.as_str());
    if content.as_str().is_empty() {
        return None;
    }
    let id = match id {
        Some(x) => x,
        None => prefixed_id("bm_", file_id),
    };
    let c = chars_of(timestamp);
    let f = chars_of(file_id);
    Some(
        BookmarkItem {
            id,
            title,
            content,
            source,
            created_at: string_of(c.as_slice()),
            drive_file_id: Some(string_of(f.as_slice())),
        },
    )
}


/// The translation a sync keeps from a Drive file, given what was read
/// from it: none where either text is blank; otherwise the id read (or
/// `trn_` and the file id), both texts trimmed, the byte length of the
/// source text as its character count, and the file.
pub open spec fn is_cloud_translation(
    t: TranslationRecordPayload,
    fields: (Option<Seq<char>>, Seq<char>, Seq<char>),
    file_id: Seq<char>,
    timestamp: Seq<char>,
) -> bool {
    &&& t.id@ == or_else(fields.0, "trn_"@ + file_id)
    &&& t.timestamp@ == timestamp
    &&& t.source_text@ == trim(fields.1)
    &&& t.source_lang@ == "Auto-detected"@
    &&& t.translated_text@ == trim(fields.2)
    &&& t.target_lang@ == "English"@
    &&& t.char_count == vstd::utf8::encode_utf8(trim(fields.1)).len() as usize
    &&& opt_view(t.drive_file_id) == Some(file_id)
}

/// The translation a sync keeps from what was read from a Drive file.
pub fn cloud_translation_from_fields(
    fields: (Option<String>, String, String),
    file_id: &str,
    timestamp: &str,
) -> (r: Option<TranslationRecordPayload>)
    ensures
        match r {
            Some(t) => trim(fields.1@).len() > 0 && trim(fields.2@).len() > 0
                && is_cloud_translation(
                t,
                (opt_view(fields.0), fields.1@, fields.2@),
                file_id@,
                timestamp@,
            ),
            None => trim(fields.1@).len() == 0 || trim(fields.2@).len() == 0,
        },
{
    let (id, source_text, translated_text) = fields;
    let src = trimmed(source_text.as_str());
    let trn = trimmed(translated_text.as_str());
    if src.as_str().is_empty() || trn.as_str().is_empty() {
        return None;
    }
    let id = match id {
        Some(x) => x,
        None => prefixed_id("trn_", file_id),
    };
    let char_count = src.as_str().len();
    let ts = chars_of(timestamp);
    let f = chars_of(file_id);
    let auto = chars_of("Auto-detected");
    let english = chars_of("English");
    Some(
        TranslationRecordPayload {
            id,
            timestamp: string_of(ts.as_slice()),
            source_text: src,
            source_lang: string_of(auto.as_slice()),
            translated_text: trn,
            target_lang: string_of(english.as_slice()),
            char_count,
            drive_file_id: Some(string_of(f.as_slice())),
        },
    )
}

/// The translation a sync keeps from a Drive file, read from its text.
pub fn cloud_translation_from_file(text: &str, file_id: &str, timestamp: &str) -> (r: Option<
    TranslationRecordPayload,
>)
    ensures
        match r {
            Some(t) => is_cloud_translation(t, parsed_translation(text@), file_id@, timestamp@),
            None => trim(parsed_translation(text@).1).len() == 0 || trim(
                parsed_translation(text@).2,
            ).len() == 0,
        },
{
    cloud_translation_from_fields(parse_translation_text(text), file_id, timestamp)
}

/// The bookmark a sync keeps from a Drive file, read from its text.
pub fn cloud_bookmark_from_file(text: &str, file_id: &str, timestamp: &str) -> (r: Option<
    BookmarkItem,
>)
    ensures
        match r {
            Some(b) => is_cloud_bookmark(
                b,
                synced_bookmark_fields(text@, file_id@),
                file_id@,
                timestamp@,
            ),
            None => trim(synced_bookmark_fields(text@, file_id@).3).len() == 0,
        },
{
    cloud_bookmark_from_fields(read_synced_bookmark(text, file_id), file_id, timestamp)
}

// ---------------------------------------------------------------------
// Deduplication of what the cloud holds
// ---------------------------------------------------------------------

/// Whether two optional strings are equal.
pub fn same_opt(a: &Option<String>, b: &Option<String>) -> (r: bool)
    ensures
        r == (opt_view(*a) == opt_view(*b)),
{
    match a {
        Some(x) => match b {
            Some(y) => x.eq(y),
            None => false,
        },
        None => b.is_none(),
    }
}

/// Whether the trimmed texts are equal.
fn same_trimmed(a: &String, b: &String) -> (r: bool)
    ensures
        r == (trim(a@) == trim(b@)),
{
    let x = chars_of(a.as_str());
    let y = chars_of(b.as_str());
    same_chars(trim_in(x.as_slice()), trim_in(y.as_slice()))
}

/// A cloud bookmark already kept makes `b` a duplicate: same id, or same
/// trimmed content.
pub open spec fn duplicates_bookmark(existing: BookmarkItem, b: BookmarkItem) -> bool {
    existing.id@ == b.id@ || trim(existing.content@) == trim(b.content@)
}

/// No two bookmarks of the list duplicate each other.
pub open spec fn distinct_bookmarks(s: Seq<BookmarkItem>) -> bool {
    forall|i: int, j: int|
        0 <= i < j < s.len() ==> !duplicates_bookmark(#[trigger] s[i], #[trigger] s[j])
}

/// Offers a bookmark read from the cloud folder. It is kept unless one
/// already kept duplicates it; a duplicate is for the caller to delete from
/// Drive. Kept bookmarks never duplicate each other.
pub fn admit_cloud_bookmark(kept: &mut Vec<BookmarkItem>, candidate: BookmarkItem) -> (r: bool)
    ensures
        r == !(exists|i: int|
            0 <= i < old(kept)@.len() && duplicates_bookmark(#[trigger] old(kept)@[i], candidate)),
        final(kept)@ == if r {
            old(kept)@.push(candidate)
        } else {
            old(kept)@
        },
        distinct_bookmarks(old(kept)@) ==> distinct_bookmarks(final(kept)@),
{
    let mut i: usize = 0;
    while i < kept.len()
        invariant
            i <= kept.len(),
            forall|k: int| 0 <= k < i ==> !duplicates_bookmark(#[trigger] kept@[k], candidate),
        decreases kept.len() - i,
    {
        if kept[i].id == candidate.id || same_trimmed(&kept[i].content, &candidate.content) {
            return false;
        }
        i += 1;
    }
    let ghost before = kept@;
    kept.push(candidate);
    proof {
        assert forall|a: int, b: int|
            0 <= a < b < kept@.len() && distinct_bookmarks(before) implies !duplicates_bookmark(
            #[trigger] kept@[a],
            #[trigger] kept@[b],
        ) by {
            if b == before.len() {
                assert(kept@[a] == before[a]);
            } else {
                assert(kept@[a] == before[a] && kept@[b] == before[b]);
            }
        }
    }
    true
}

/// A cloud translation already kept makes `t` a duplicate: same id, or the
/// same trimmed source text and translation.
pub open spec fn duplicates_translation(
    existing: TranslationRecordPayload,
    t: TranslationRecordPayload,
) -> bool {
    existing.id@ == t.id@ || (trim(existing.source_text@) == trim(t.source_text@) && trim(
        existing.translated_text@,
    ) == trim(t.translated_text@))
}

/// No two translations of the list duplicate each other.
pub open spec fn distinct_translations(s: Seq<TranslationRecordPayload>) -> bool {
    forall|i: int, j: int|
        0 <= i < j < s.len() ==> !duplicates_translation(#[trigger] s[i], #[trigger] s[j])
}

/// Offers a translation read from the cloud folder. It is kept unless one
/// already kept duplicates it; a duplicate is for the caller to delete.
pub fn admit_cloud_translation(
    kept: &mut Vec<TranslationRecordPayload>,
    candidate: TranslationRecordPayload,
) -> (r: bool)
    ensures
        r == !(exists|i: int|
            0 <= i < old(kept)@.len() && duplicates_translation(
                #[trigger] old(kept)@[i],
                candidate,
            )),
        final(kept)@ == if r {
            old(kept)@.push(candidate)
        } else {
            old(kept)@
        },
        distinct_translations(old(kept)@) ==> distinct_translations(final(kept)@),
{
    let mut i: usize = 0;
    while i < kept.len()
        invariant
            i <= kept.len(),
            forall|k: int| 0 <= k < i ==> !duplicates_translation(#[trigger] kept@[k], candidate),
        decreases kept.len() - i,
    {
        if kept[i].id == candidate.id || (same_trimmed(&kept[i].source_text, &candidate.source_text)
            && same_trimmed(&kept[i].translated_text, &candidate.translated_text)) {
            return false;
        }
        i += 1;
    }
    let ghost before = kept@;
    kept.push(candidate);
    proof {
        assert forall|a: int, b: int|
            0 <= a < b < kept@.len() && distinct_translations(before) implies !duplicates_translation(
            #[trigger] kept@[a],
            #[trigger] kept@[b],
        ) by {
            if b == before.len() {
                assert(kept@[a] == before[a]);
            } else {
                assert(kept@[a] == before[a] && kept@[b] == before[b]);
            }
        }
    }
    true
}


// ---------------------------------------------------------------------
// Merging local records into what the cloud holds
// ---------------------------------------------------------------------

/// `i` is the first position of `s` whose element satisfies `p`.
pub open spec fn is_first_such<A>(s: Seq<A>, p: spec_fn(A) -> bool, i: int) -> bool {
    &&& 0 <= i < s.len()
    &&& p(s[i])
    &&& forall|k: int| 0 <= k < i ==> !p(#[trigger] s[k])
}

/// The first position of `s` whose element satisfies `p`.
pub open spec fn first_such<A>(s: Seq<A>, p: spec_fn(A) -> bool) -> Option<int> {
    if exists|i: int| is_first_such(s, p, i) {
        Some(choose|i: int| is_first_such(s, p, i))
    } else {
        None
    }
}

pub proof fn lemma_first_such_is<A>(s: Seq<A>, p: spec_fn(A) -> bool, i: int)
    requires
        is_first_such(s, p, i),
    ensures
        first_such(s, p) == Some(i),
{
    let j = choose|j: int| is_first_such(s, p, j);
    if j < i {
        assert(p(s[j]));
    } else if i < j {
        assert(p(s[i]));
    }
}

pub proof fn lemma_first_such_none<A>(s: Seq<A>, p: spec_fn(A) -> bool)
    requires
        forall|k: int| 0 <= k < s.len() ==> !p(#[trigger] s[k]),
    ensures
        first_such(s, p) is None,
{
}

/// A cloud bookmark stands for a local one: same id, same Drive file, or
/// the same trimmed content.
pub open spec fn matches_local_bookmark(cb: BookmarkItem, loc: BookmarkItem) -> bool {
    ||| cb.id@ == loc.id@
    ||| (loc.drive_file_id is Some && opt_view(cb.drive_file_id) == opt_view(loc.drive_file_id))
    ||| trim(cb.content@) == trim(loc.content@)
}

pub open spec fn bookmark_match_of(loc: BookmarkItem) -> spec_fn(BookmarkItem) -> bool {
    |cb: BookmarkItem| matches_local_bookmark(cb, loc)
}

/// A merged bookmark in the slot of cloud bookmark `m`: same id or same
/// Drive file.
pub open spec fn bookmark_slot_of(m: BookmarkItem) -> spec_fn(BookmarkItem) -> bool {
    |b: BookmarkItem| b.id@ == m.id@ || opt_view(b.drive_file_id) == opt_view(m.drive_file_id)
}

/// `b` with the title `title`.
pub open spec fn with_title(b: BookmarkItem, title: Option<String>) -> BookmarkItem {
    BookmarkItem {
        id: b.id,
        title,
        content: b.content,
        source: b.source,
        created_at: b.created_at,
        drive_file_id: b.drive_file_id,
    }
}

/// `b` with the Drive file it was uploaded to, if the upload succeeded.
pub open spec fn with_upload(b: BookmarkItem, upload: Option<String>) -> BookmarkItem {
    match upload {
        Some(f) => BookmarkItem {
            id: b.id,
            title: b.title,
            content: b.content,
            source: b.source,
            created_at: b.created_at,
            drive_file_id: Some(f),
        },
        None => b,
    }
}

/// A record of the merged list already duplicates `b`.
pub open spec fn has_duplicate_bookmark(merged: Seq<BookmarkItem>, b: BookmarkItem) -> bool {
    exists|i: int| 0 <= i < merged.len() && duplicates_bookmark(#[trigger] merged[i], b)
}

/// A local bookmark with content that no cloud bookmark stands for and
/// that no record merged so far duplicates: it is uploaded.
pub open spec fn bookmark_needs_upload_spec(
    cloud: Seq<BookmarkItem>,
    merged: Seq<BookmarkItem>,
    loc: BookmarkItem,
) -> bool {
    &&& trim(loc.content@).len() > 0
    &&& first_such(cloud, bookmark_match_of(loc)) is None
    &&& !has_duplicate_bookmark(merged, loc)
}

/// One local bookmark merged in: blank ones are dropped; one that the
/// cloud already has lends its title to the cloud copy that has none; one
/// that a record merged so far duplicates (same id or trimmed content) is
/// dropped; any other is appended, with the Drive file of its upload if
/// that succeeded.
pub open spec fn merge_local_bookmark(
    cloud: Seq<BookmarkItem>,
    merged: Seq<BookmarkItem>,
    loc: BookmarkItem,
    upload: Option<String>,
) -> Seq<BookmarkItem> {
    if trim(loc.content@).len() == 0 {
        merged
    } else {
        match first_such(cloud, bookmark_match_of(loc)) {
            Some(m) => match first_such(merged, bookmark_slot_of(cloud[m])) {
                Some(p) => if merged[p].title is None && loc.title is Some {
                    merged.update(p, with_title(merged[p], loc.title))
                } else {
                    merged
                },
                None => merged,
            },
            None => if has_duplicate_bookmark(merged, loc) {
                merged
            } else {
                merged.push(with_upload(loc, upload))
            },
        }
    }
}

/// The cloud bookmarks with the local ones merged in, in order.
pub open spec fn merged_bookmarks(
    cloud: Seq<BookmarkItem>,
    locals: Seq<BookmarkItem>,
    uploads: Seq<Option<String>>,
) -> Seq<BookmarkItem>
    decreases locals.len(),
{
    if locals.len() == 0 {
        cloud
    } else {
        merge_local_bookmark(
            cloud,
            merged_bookmarks(cloud, locals.drop_last(), uploads.drop_last()),
            locals.last(),
            uploads.last(),
        )
    }
}

fn find_bookmark_match(cloud: &Vec<BookmarkItem>, loc: &BookmarkItem) -> (r: Option<usize>)
    ensures
        crate::text::opt_int(r) == first_such(cloud@, bookmark_match_of(*loc)),
{
    let mut i: usize = 0;
    while i < cloud.len()
        invariant
            i <= cloud.len(),
            forall|k: int| 0 <= k < i ==> !bookmark_match_of(*loc)(#[trigger] cloud@[k]),
        decreases cloud.len() - i,
    {
        let cb = &cloud[i];
        if cb.id == loc.id || (loc.drive_file_id.is_some() && same_opt(
            &cb.drive_file_id,
            &loc.drive_file_id,
        )) || same_trimmed(&cb.content, &loc.content) {
            proof {
                lemma_first_such_is(cloud@, bookmark_match_of(*loc), i as int);
            }
            return Some(i);
        }
        i += 1;
    }
    proof {
        lemma_first_such_none(cloud@, bookmark_match_of(*loc));
    }
    None
}

fn find_bookmark_slot(merged: &Vec<BookmarkItem>, m: &BookmarkItem) -> (r: Option<usize>)
    ensures
        crate::text::opt_int(r) == first_such(merged@, bookmark_slot_of(*m)),
{
    let mut i: usize = 0;
    while i < merged.len()
        invariant
            i <= merged.len(),
            forall|k: int| 0 <= k < i ==> !bookmark_slot_of(*m)(#[trigger] merged@[k]),
        decreases merged.len() - i,
    {
        let b = &merged[i];
        if b.id == m.id || same_opt(&b.drive_file_id, &m.drive_file_id) {
            proof {
                lemma_first_such_is(merged@, bookmark_slot_of(*m), i as int);
            }
            return Some(i);
        }
        i += 1;
    }
    proof {
        lemma_first_such_none(merged@, bookmark_slot_of(*m));
    }
    None
}

fn find_duplicate_bookmark(merged: &Vec<BookmarkItem>, b: &BookmarkItem) -> (r: bool)
    ensures
        r == has_duplicate_bookmark(merged@, *b),
{
    let mut i: usize = 0;
    while i < merged.len()
        invariant
            i <= merged.len(),
            forall|k: int| 0 <= k < i ==> !duplicates_bookmark(#[trigger] merged@[k], *b),
        decreases merged.len() - i,
    {
        if merged[i].id == b.id || same_trimmed(&merged[i].content, &b.content) {
            return true;
        }
        i += 1;
    }
    false
}

/// Whether a local bookmark is to be uploaded during a sync: it has
/// content, no cloud bookmark has its id, its Drive file or its content,
/// and no record merged so far has its id or its content.
pub fn bookmark_needs_upload(
    cloud: &Vec<BookmarkItem>,
    merged: &Vec<BookmarkItem>,
    loc: &BookmarkItem,
) -> (r: bool)
    ensures
        r == bookmark_needs_upload_spec(cloud@, merged@, *loc),
{
    let c = chars_of(loc.content.as_str());
    trim_in(c.as_slice()).len() > 0 && find_bookmark_match(cloud, loc).is_none()
        && !find_duplicate_bookmark(merged, loc)
}

/// Merging one local bookmark keeps the merged list free of duplicates.
proof fn lemma_merge_step_distinct(
    cloud: Seq<BookmarkItem>,
    merged: Seq<BookmarkItem>,
    loc: BookmarkItem,
    upload: Option<String>,
)
    requires
        distinct_bookmarks(merged),
    ensures
        distinct_bookmarks(merge_local_bookmark(cloud, merged, loc, upload)),
{
    let r = merge_local_bookmark(cloud, merged, loc, upload);
    if r.len() > merged.len() {
        assert(r == merged.push(with_upload(loc, upload)));
        assert forall|i: int, j: int| 0 <= i < j < r.len() implies !duplicates_bookmark(
            #[trigger] r[i],
            #[trigger] r[j],
        ) by {
            if j == merged.len() {
                assert(!duplicates_bookmark(merged[i], loc));
            } else {
                assert(r[i] == merged[i] && r[j] == merged[j]);
            }
        }
    } else {
        assert forall|i: int, j: int| 0 <= i < j < r.len() implies !duplicates_bookmark(
            #[trigger] r[i],
            #[trigger] r[j],
        ) by {
            assert(r[i].id == merged[i].id && r[i].content == merged[i].content);
            assert(r[j].id == merged[j].id && r[j].content == merged[j].content);
            assert(!duplicates_bookmark(merged[i], merged[j]));
        }
    }
}

/// Merges one local bookmark into the records merged so far. `upload` is
/// the Drive file it was uploaded to, where it was uploaded and the upload
/// succeeded. A list without duplicates stays so.
pub fn merge_local_bookmark_into(
    cloud: &Vec<BookmarkItem>,
    merged: &mut Vec<BookmarkItem>,
    loc: BookmarkItem,
    upload: Option<String>,
)
    ensures
        final(merged)@ == merge_local_bookmark(cloud@, old(merged)@, loc, upload),
        distinct_bookmarks(old(merged)@) ==> distinct_bookmarks(final(merged)@),
{
    proof {
        if distinct_bookmarks(merged@) {
            lemma_merge_step_distinct(cloud@, merged@, loc, upload);
        }
    }
    let c = chars_of(loc.content.as_str());
    if trim_in(c.as_slice()).len() > 0 {
        match find_bookmark_match(cloud, &loc) {
            Some(m) => {
                match find_bookmark_slot(merged, &cloud[m]) {
                    Some(p) => {
                        if merged[p].title.is_none() && loc.title.is_some() {
                            let mut b = merged[p].duplicate();
                            b.title = loc.title;
                            merged.set(p, b);
                        }
                    },
                    None => {},
                }
            },
            None => {
                if !find_duplicate_bookmark(merged, &loc) {
                    let mut b = loc;
                    match upload {
                        Some(f) => {
                            b.drive_file_id = Some(f);
                        },
                        None => {},
                    }
                    merged.push(b);
                }
            },
        }
    }
}

/// Merges the local bookmarks into the deduplicated cloud ones. `uploads`
/// holds, for each local bookmark, the Drive file it was uploaded to, where
/// it was uploaded and the upload succeeded. Where the cloud bookmarks do
/// not duplicate each other, neither do the merged ones.
pub fn merge_synced_bookmarks(
    cloud: &Vec<BookmarkItem>,
    locals: Vec<BookmarkItem>,
    uploads: Vec<Option<String>>,
) -> (r: Vec<BookmarkItem>)
    requires
        locals.len() == uploads.len(),
    ensures
        r@ == merged_bookmarks(cloud@, locals@, uploads@),
        distinct_bookmarks(cloud@) ==> distinct_bookmarks(r@),
{
    let mut merged: Vec<BookmarkItem> = Vec::new();
    let mut i: usize = 0;
    while i < cloud.len()
        invariant
            i <= cloud.len(),
            merged@ == cloud@.take(i as int),
        decreases cloud.len() - i,
    {
        merged.push(cloud[i].duplicate());
        assert(cloud@.take(i + 1) =~= cloud@.take(i as int).push(cloud@[i as int]));
        i += 1;
    }
    assert(cloud@.take(cloud.len() as int) =~= cloud@);
    let mut j: usize = 0;
    assert(locals@.take(0) =~= Seq::<BookmarkItem>::empty());
    assert(uploads@.take(0) =~= Seq::<Option<String>>::empty());
    while j < locals.len()
        invariant
            j <= locals.len(),
            locals.len() == uploads.len(),
            merged@ == merged_bookmarks(
                cloud@,
                locals@.take(j as int),
                uploads@.take(j as int),
            ),
            distinct_bookmarks(cloud@) ==> distinct_bookmarks(merged@),
        decreases locals.len() - j,
    {
        assert(locals@.take(j + 1).drop_last() =~= locals@.take(j as int));
        assert(uploads@.take(j + 1).drop_last() =~= uploads@.take(j as int));
        assert(locals@.take(j + 1).last() == locals@[j as int]);
        assert(uploads@.take(j + 1).last() == uploads@[j as int]);
        merge_local_bookmark_into(
            cloud,
            &mut merged,
            locals[j].duplicate(),
            crate::models::clone_opt(&uploads[j]),
        );
        j += 1;
    }
    assert(locals@.take(locals.len() as int) =~= locals@);
    assert(uploads@.take(uploads.len() as int) =~= uploads@);
    merged
}

/// A cloud translation stands for a local one: same id, same Drive file,
/// or the same trimmed source text and translation.
pub open spec fn matches_local_translation(
    ct: TranslationRecordPayload,
    loc: TranslationRecordPayload,
) -> bool {
    ||| ct.id@ == loc.id@
    ||| (loc.drive_file_id is Some && opt_view(ct.drive_file_id) == opt_view(loc.drive_file_id))
    ||| (trim(ct.source_text@) == trim(loc.source_text@) && trim(ct.translated_text@) == trim(
        loc.translated_text@,
    ))
}

/// A record of the merged list already duplicates `t`.
pub open spec fn has_duplicate_translation(
    merged: Seq<TranslationRecordPayload>,
    t: TranslationRecordPayload,
) -> bool {
    exists|i: int| 0 <= i < merged.len() && duplicates_translation(#[trigger] merged[i], t)
}

/// A local translation with both texts that no cloud translation stands
/// for and that no record merged so far duplicates: it is uploaded.
pub open spec fn translation_needs_upload_spec(
    cloud: Seq<TranslationRecordPayload>,
    merged: Seq<TranslationRecordPayload>,
    loc: TranslationRecordPayload,
) -> bool {
    &&& trim(loc.source_text@).len() > 0
    &&& trim(loc.translated_text@).len() > 0
    &&& !exists|i: int| 0 <= i < cloud.len() && matches_local_translation(#[trigger] cloud[i], loc)
    &&& !has_duplicate_translation(merged, loc)
}

/// `t` with the Drive file it was uploaded to, if the upload succeeded.
pub open spec fn with_translation_upload(
    t: TranslationRecordPayload,
    upload: Option<String>,
) -> TranslationRecordPayload {
    match upload {
        Some(f) => TranslationRecordPayload {
            id: t.id,
            timestamp: t.timestamp,
            source_text: t.source_text,
            source_lang: t.source_lang,
            translated_text: t.translated_text,
            target_lang: t.target_lang,
            char_count: t.char_count,
            drive_file_id: Some(f),
        },
        None => t,
    }
}

/// One local translation merged in: appended, with the Drive file of its
/// upload if that succeeded, where it is to be uploaded; dropped otherwise
/// (blank, standing for a cloud translation, or duplicating a record
/// merged so far).
pub open spec fn merge_local_translation(
    cloud: Seq<TranslationRecordPayload>,
    merged: Seq<TranslationRecordPayload>,
    loc: TranslationRecordPayload,
    upload: Option<String>,
) -> Seq<TranslationRecordPayload> {
    if translation_needs_upload_spec(cloud, merged, loc) {
        merged.push(with_translation_upload(loc, upload))
    } else {
        merged
    }
}

/// The cloud translations with the local ones merged in, in order.
pub open spec fn merged_translations(
    cloud: Seq<TranslationRecordPayload>,
    locals: Seq<TranslationRecordPayload>,
    uploads: Seq<Option<String>>,
) -> Seq<TranslationRecordPayload>
    decreases locals.len(),
{
    if locals.len() == 0 {
        cloud
    } else {
        merge_local_translation(
            cloud,
            merged_translations(cloud, locals.drop_last(), uploads.drop_last()),
            locals.last(),
            uploads.last(),
        )
    }
}

fn find_duplicate_translation(
    merged: &Vec<TranslationRecordPayload>,
    t: &TranslationRecordPayload,
) -> (r: bool)
    ensures
        r == has_duplicate_translation(merged@, *t),
{
    let mut i: usize = 0;
    while i < merged.len()
        invariant
            i <= merged.len(),
            forall|k: int| 0 <= k < i ==> !duplicates_translation(#[trigger] merged@[k], *t),
        decreases merged.len() - i,
    {
        if merged[i].id == t.id || (same_trimmed(&merged[i].source_text, &t.source_text)
            && same_trimmed(&merged[i].translated_text, &t.translated_text)) {
            return true;
        }
        i += 1;
    }
    false
}

/// Whether a local translation is to be uploaded during a sync: it has
/// both texts, no cloud translation stands for it, and no record merged so
/// far has its id or its two texts.
pub fn translation_needs_upload(
    cloud: &Vec<TranslationRecordPayload>,
    merged: &Vec<TranslationRecordPayload>,
    loc: &TranslationRecordPayload,
) -> (r: bool)
    ensures
        r == translation_needs_upload_spec(cloud@, merged@, *loc),
{
    let s = chars_of(loc.source_text.as_str());
    let t = chars_of(loc.translated_text.as_str());
    if trim_in(s.as_slice()).len() == 0 || trim_in(t.as_slice()).len() == 0 {
        return false;
    }
    let mut i: usize = 0;
    while i < cloud.len()
        invariant
            i <= cloud.len(),
            forall|k: int| 0 <= k < i ==> !matches_local_translation(#[trigger] cloud@[k], *loc),
        decreases cloud.len() - i,
    {
        let ct = &cloud[i];
        if ct.id == loc.id || (loc.drive_file_id.is_some() && same_opt(
            &ct.drive_file_id,
            &loc.drive_file_id,
        )) || (same_trimmed(&ct.source_text, &loc.source_text) && same_trimmed(
            &ct.translated_text,
            &loc.translated_text,
        )) {
            return false;
        }
        i += 1;
    }
    !find_duplicate_translation(merged, loc)
}

/// Merging one local translation keeps the merged list free of
/// duplicates.
proof fn lemma_merge_translation_step_distinct(
    cloud: Seq<TranslationRecordPayload>,
    merged: Seq<TranslationRecordPayload>,
    loc: TranslationRecordPayload,
    upload: Option<String>,
)
    requires
        distinct_translations(merged),
    ensures
        distinct_translations(merge_local_translation(cloud, merged, loc, upload)),
{
    let r = merge_local_translation(cloud, merged, loc, upload);
    if translation_needs_upload_spec(cloud, merged, loc) {
        assert forall|i: int, j: int| 0 <= i < j < r.len() implies !duplicates_translation(
            #[trigger] r[i],
            #[trigger] r[j],
        ) by {
            if j == merged.len() {
                assert(!duplicates_translation(merged[i], loc));
            } else {
                assert(r[i] == merged[i] && r[j] == merged[j]);
            }
        }
    }
}

/// Merges one local translation into the records merged so far. `upload`
/// is the Drive file it was uploaded to, where it was uploaded and the
/// upload succeeded. A list without duplicates stays so.
pub fn merge_local_translation_into(
    cloud: &Vec<TranslationRecordPayload>,
    merged: &mut Vec<TranslationRecordPayload>,
    loc: TranslationRecordPayload,
    upload: Option<String>,
)
    ensures
        final(merged)@ == merge_local_translation(cloud@, old(merged)@, loc, upload),
        distinct_translations(old(merged)@) ==> distinct_translations(final(merged)@),
{
    proof {
        if distinct_translations(merged@) {
            lemma_merge_translation_step_distinct(cloud@, merged@, loc, upload);
        }
    }
    if translation_needs_upload(cloud, merged, &loc) {
        let mut t = loc;
        match upload {
            Some(f) => {
                t.drive_file_id = Some(f);
            },
            None => {},
        }
        merged.push(t);
    }
}

/// Merges the local translations into the deduplicated cloud ones.
/// `uploads` holds, for each local translation, the Drive file it was
/// uploaded to, where it was uploaded and the upload succeeded. Where the
/// cloud translations do not duplicate each other, neither do the merged
/// ones.
pub fn merge_synced_translations(
    cloud: &Vec<TranslationRecordPayload>,
    locals: Vec<TranslationRecordPayload>,
    uploads: Vec<Option<String>>,
) -> (r: Vec<TranslationRecordPayload>)
    requires
        locals.len() == uploads.len(),
    ensures
        r@ == merged_translations(cloud@, locals@, uploads@),
        distinct_translations(cloud@) ==> distinct_translations(r@),
{
    let mut merged: Vec<TranslationRecordPayload> = Vec::new();
    let mut i: usize = 0;
    while i < cloud.len()
        invariant
            i <= cloud.len(),
            merged@ == cloud@.take(i as int),
        decreases cloud.len() - i,
    {
        merged.push(cloud[i].duplicate());
        assert(cloud@.take(i + 1) =~= cloud@.take(i as int).push(cloud@[i as int]));
        i += 1;
    }
    assert(cloud@.take(cloud.len() as int) =~= cloud@);
    let mut j: usize = 0;
    assert(locals@.take(0) =~= Seq::<TranslationRecordPayload>::empty());
    assert(uploads@.take(0) =~= Seq::<Option<String>>::empty());
    while j < locals.len()
        invariant
            j <= locals.len(),
            locals.len() == uploads.len(),
            merged@ == merged_translations(
                cloud@,
                locals@.take(j as int),
                uploads@.take(j as int),
            ),
            distinct_translations(cloud@) ==> distinct_translations(merged@),
        decreases locals.len() - j,
    {
        assert(locals@.take(j + 1).drop_last() =~= locals@.take(j as int));
        assert(uploads@.take(j + 1).drop_last() =~= uploads@.take(j as int));
        assert(locals@.take(j + 1).last() == locals@[j as int]);
        assert(uploads@.take(j + 1).last() == uploads@[j as int]);
        merge_local_translation_into(
            cloud,
            &mut merged,
            locals[j].duplicate(),
            crate::models::clone_opt(&uploads[j]),
        );
        j += 1;
    }
    assert(locals@.take(locals.len() as int) =~= locals@);
    assert(uploads@.take(uploads.len() as int) =~= uploads@);
    merged
}

// ---------------------------------------------------------------------
// What the merge keeps
// ---------------------------------------------------------------------

/// Two bookmarks agree on all but the title.
pub open spec fn same_but_title(a: BookmarkItem, b: BookmarkItem) -> bool {
    &&& a.id == b.id
    &&& a.content == b.content
    &&& a.source == b.source
    &&& a.created_at == b.created_at
    &&& a.drive_file_id == b.drive_file_id
}

proof fn lemma_merge_step_keeps(
    cloud: Seq<BookmarkItem>,
    merged: Seq<BookmarkItem>,
    loc: BookmarkItem,
    upload: Option<String>,
)
    ensures
        ({
            let r = merge_local_bookmark(cloud, merged, loc, upload);
            &&& r.len() >= merged.len()
            &&& forall|i: int| 0 <= i < merged.len() ==> same_but_title(#[trigger] r[i], merged[i])
            &&& forall|i: int|
                0 <= i < merged.len() && merged[i].title is Some ==> #[trigger] r[i].title
                    == merged[i].title
        }),
{
}

/// A sync keeps every bookmark that the cloud holds, in its place
/// and unchanged but for a title that a local copy may fill in where the
/// cloud copy has none.
pub proof fn merge_keeps_cloud_bookmarks(
    cloud: Seq<BookmarkItem>,
    locals: Seq<BookmarkItem>,
    uploads: Seq<Option<String>>,
)
    requires
        locals.len() == uploads.len(),
    ensures
        ({
            let r = merged_bookmarks(cloud, locals, uploads);
            &&& r.len() >= cloud.len()
            &&& forall|i: int| 0 <= i < cloud.len() ==> same_but_title(#[trigger] r[i], cloud[i])
            &&& forall|i: int|
                0 <= i < cloud.len() && cloud[i].title is Some ==> #[trigger] r[i].title
                    == cloud[i].title
        }),
    decreases locals.len(),
{
    if locals.len() > 0 {
        merge_keeps_cloud_bookmarks(cloud, locals.drop_last(), uploads.drop_last());
        let prev = merged_bookmarks(cloud, locals.drop_last(), uploads.drop_last());
        lemma_merge_step_keeps(cloud, prev, locals.last(), uploads.last());
        let r = merged_bookmarks(cloud, locals, uploads);
        assert forall|i: int| 0 <= i < cloud.len() implies same_but_title(#[trigger] r[i], cloud[i]) by {
            assert(same_but_title(r[i], prev[i]));
            assert(same_but_title(prev[i], cloud[i]));
        }
        assert forall|i: int|
            0 <= i < cloud.len() && cloud[i].title is Some implies #[trigger] r[i].title
                == cloud[i].title by {
            assert(prev[i].title == cloud[i].title);
        }
    }
}

/// A sync loses no local bookmark with content. Each one either has a
/// cloud bookmark that stands for it (same id, Drive file or trimmed
/// content), or the merged list holds a record with its id or its trimmed
/// content: itself, or the one that made it a duplicate.
pub proof fn merge_keeps_local_bookmarks(
    cloud: Seq<BookmarkItem>,
    locals: Seq<BookmarkItem>,
    uploads: Seq<Option<String>>,
)
    requires
        locals.len() == uploads.len(),
    ensures
        forall|j: int|
            0 <= j < locals.len() && trim(locals[j].content@).len() > 0 ==> (exists|i: int|
                0 <= i < cloud.len() && matches_local_bookmark(cloud[i], #[trigger] locals[j]))
                || has_duplicate_bookmark(merged_bookmarks(cloud, locals, uploads), locals[j]),
    decreases locals.len(),
{
    if locals.len() > 0 {
        let n = locals.len() - 1;
        merge_keeps_local_bookmarks(cloud, locals.drop_last(), uploads.drop_last());
        let prev = merged_bookmarks(cloud, locals.drop_last(), uploads.drop_last());
        let r = merged_bookmarks(cloud, locals, uploads);
        lemma_merge_step_keeps(cloud, prev, locals.last(), uploads.last());
        assert forall|j: int|
            0 <= j < locals.len() && trim(locals[j].content@).len() > 0 implies (exists|i: int|
                0 <= i < cloud.len() && matches_local_bookmark(cloud[i], #[trigger] locals[j]))
                || has_duplicate_bookmark(r, locals[j]) by {
            if j < n {
                assert(locals.drop_last()[j] == locals[j]);
                if !(exists|i: int|
                    0 <= i < cloud.len() && matches_local_bookmark(cloud[i], locals[j])) {
                    let k = choose|k: int|
                        0 <= k < prev.len() && duplicates_bookmark(prev[k], locals[j]);
                    assert(same_but_title(r[k], prev[k]));
                    assert(duplicates_bookmark(r[k], locals[j]));
                }
            } else {
                let loc = locals.last();
                assert(locals[j] == loc);
                match first_such(cloud, bookmark_match_of(loc)) {
                    Some(m) => {
                        let m = choose|m: int| is_first_such(cloud, bookmark_match_of(loc), m);
                        assert(bookmark_match_of(loc)(cloud[m]));
                        assert(matches_local_bookmark(cloud[m], locals[j]));
                    },
                    None => {
                        if !has_duplicate_bookmark(prev, loc) {
                            assert(r[prev.len() as int] == with_upload(loc, uploads.last()));
                            assert(duplicates_bookmark(r[prev.len() as int], loc));
                        }
                    },
                }
            }
        }
    }
}

/// A sync never leaves two bookmarks with the same id or the same trimmed
/// content, where the cloud bookmarks it starts from have none.
pub proof fn merged_bookmarks_distinct(
    cloud: Seq<BookmarkItem>,
    locals: Seq<BookmarkItem>,
    uploads: Seq<Option<String>>,
)
    requires
        distinct_bookmarks(cloud),
    ensures
        distinct_bookmarks(merged_bookmarks(cloud, locals, uploads)),
    decreases locals.len(),
{
    if locals.len() > 0 {
        merged_bookmarks_distinct(cloud, locals.drop_last(), uploads.drop_last());
        lemma_merge_step_distinct(
            cloud,
            merged_bookmarks(cloud, locals.drop_last(), uploads.drop_last()),
            locals.last(),
            uploads.last(),
        );
    }
}

/// A sync loses no local translation with both texts. Each one either
/// has a cloud translation that stands for it, or the merged list holds a
/// record with its id or its two trimmed texts; and every cloud
/// translation stays in its place.
pub proof fn merge_keeps_translations(
    cloud: Seq<TranslationRecordPayload>,
    locals: Seq<TranslationRecordPayload>,
    uploads: Seq<Option<String>>,
)
    requires
        locals.len() == uploads.len(),
    ensures
        merged_translations(cloud, locals, uploads).len() >= cloud.len(),
        forall|i: int|
            0 <= i < cloud.len() ==> #[trigger] merged_translations(cloud, locals, uploads)[i]
                == cloud[i],
        forall|j: int|
            0 <= j < locals.len() && trim(locals[j].source_text@).len() > 0 && trim(
                locals[j].translated_text@,
            ).len() > 0 ==> (exists|i: int|
                0 <= i < cloud.len() && matches_local_translation(cloud[i], #[trigger] locals[j]))
                || has_duplicate_translation(merged_translations(cloud, locals, uploads), locals[j]),
    decreases locals.len(),
{
    if locals.len() > 0 {
        let n = locals.len() - 1;
        merge_keeps_translations(cloud, locals.drop_last(), uploads.drop_last());
        let prev = merged_translations(cloud, locals.drop_last(), uploads.drop_last());
        let r = merged_translations(cloud, locals, uploads);
        assert(forall|i: int| 0 <= i < prev.len() ==> r[i] == prev[i]);
        assert forall|j: int|
            0 <= j < locals.len() && trim(locals[j].source_text@).len() > 0 && trim(
                locals[j].translated_text@,
            ).len() > 0 implies (exists|i: int|
                0 <= i < cloud.len() && matches_local_translation(cloud[i], #[trigger] locals[j]))
                || has_duplicate_translation(r, locals[j]) by {
            if j < n {
                assert(locals.drop_last()[j] == locals[j]);
                if !(exists|i: int|
                    0 <= i < cloud.len() && matches_local_translation(cloud[i], locals[j])) {
                    let k = choose|k: int|
                        0 <= k < prev.len() && duplicates_translation(prev[k], locals[j]);
                    assert(r[k] == prev[k]);
                }
            } else {
                assert(locals[j] == locals.last());
                if translation_needs_upload_spec(cloud, prev, locals.last()) {
                    assert(r[prev.len() as int] == with_translation_upload(
                        locals.last(),
                        uploads.last(),
                    ));
                    assert(duplicates_translation(r[prev.len() as int], locals.last()));
                }
            }
        }
    }
}

/// A sync never leaves two translations with the same id or the same
/// pair of trimmed texts, where the cloud translations it starts from have
/// none.
pub proof fn merged_translations_distinct(
    cloud: Seq<TranslationRecordPayload>,
    locals: Seq<TranslationRecordPayload>,
    uploads: Seq<Option<String>>,
)
    requires
        distinct_translations(cloud),
    ensures
        distinct_translations(merged_translations(cloud, locals, uploads)),
    decreases locals.len(),
{
    if locals.len() > 0 {
        merged_translations_distinct(cloud, locals.drop_last(), uploads.drop_last());
        lemma_merge_translation_step_distinct(
            cloud,
            merged_translations(cloud, locals.drop_last(), uploads.drop_last()),
            locals.last(),
            uploads.last(),
        );
    }
}


// ---------------------------------------------------------------------
// Newest first
// ---------------------------------------------------------------------

/// `a` comes before `b` in the order of `String` comparison (code point by
/// code point, a prefix first).
pub open spec fn lex_lt(a: Seq<char>, b: Seq<char>) -> bool
    decreases a.len(),
{
    if a.len() == 0 {
        b.len() > 0
    } else if b.len() == 0 {
        false
    } else if a[0] != b[0] {
        (a[0] as u32) < (b[0] as u32)
    } else {
        lex_lt(a.drop_first(), b.drop_first())
    }
}

pub proof fn lemma_lex_irreflexive(a: Seq<char>)
    ensures
        !lex_lt(a, a),
    decreases a.len(),
{
    if a.len() > 0 {
        lemma_lex_irreflexive(a.drop_first());
    }
}

pub proof fn lemma_lex_trans(a: Seq<char>, b: Seq<char>, c: Seq<char>)
    requires
        lex_lt(a, b),
        lex_lt(b, c),
    ensures
        lex_lt(a, c),
    decreases a.len(),
{
    if a.len() > 0 && b.len() > 0 && c.len() > 0 && a[0] == b[0] && b[0] == c[0] {
        lemma_lex_trans(a.drop_first(), b.drop_first(), c.drop_first());
    }
}

pub proof fn lemma_lex_total(a: Seq<char>, b: Seq<char>)
    ensures
        a == b || lex_lt(a, b) || lex_lt(b, a),
    decreases a.len(),
{
    if a.len() > 0 && b.len() > 0 && a[0] == b[0] {
        lemma_lex_total(a.drop_first(), b.drop_first());
        if a.drop_first() == b.drop_first() {
            assert(a =~= seq![a[0]] + a.drop_first());
            assert(b =~= seq![b[0]] + b.drop_first());
        }
    } else if a.len() > 0 && b.len() > 0 {
        vstd::utf8::char_u32_cast(a[0], a[0] as u32);
        vstd::utf8::char_u32_cast(b[0], b[0] as u32);
        assert((a[0] as u32) != (b[0] as u32));
    } else if a.len() == 0 && b.len() == 0 {
        assert(a =~= b);
    }
}

/// Whether `a` comes before `b` in the order of `String` comparison.
pub fn lex_less(a: &[char], b: &[char]) -> (r: bool)
    ensures
        r == lex_lt(a@, b@),
{
    let mut i: usize = 0;
    assert(a@.skip(0) =~= a@);
    assert(b@.skip(0) =~= b@);
    while i < a.len() && i < b.len() && a[i] == b[i]
        invariant
            i <= a.len(),
            i <= b.len(),
            lex_lt(a@, b@) == lex_lt(a@.skip(i as int), b@.skip(i as int)),
        decreases a.len() - i,
    {
        assert(a@.skip(i as int).drop_first() =~= a@.skip(i + 1));
        assert(b@.skip(i as int).drop_first() =~= b@.skip(i + 1));
        i += 1;
    }
    if i == a.len() {
        i < b.len()
    } else if i == b.len() {
        false
    } else {
        assert(a@.skip(i as int)[0] == a@[i as int]);
        assert(b@.skip(i as int)[0] == b@[i as int]);
        (a[i] as u32) < (b[i] as u32)
    }
}

/// A record with the date text it is ordered by.
pub trait Dated: Sized {
    spec fn date_key(&self) -> Seq<char>;

    fn date_text(&self) -> (r: &str)
        ensures
            r@ == self.date_key(),
    ;
}

impl Dated for BookmarkItem {
    open spec fn date_key(&self) -> Seq<char> {
        self.created_at@
    }

    fn date_text(&self) -> (r: &str) {
        self.created_at.as_str()
    }
}

impl Dated for TranslationRecordPayload {
    open spec fn date_key(&self) -> Seq<char> {
        self.timestamp@
    }

    fn date_text(&self) -> (r: &str) {
        self.timestamp.as_str()
    }
}

/// The records dated before `x`.
pub open spec fn older_than<T: Dated>(x: T) -> spec_fn(T) -> bool {
    |y: T| lex_lt(y.date_key(), x.date_key())
}

/// `x` placed into a newest-first list after every record of its date or
/// newer.
pub open spec fn insert_by_date<T: Dated>(sorted: Seq<T>, x: T) -> Seq<T> {
    match first_such(sorted, older_than(x)) {
        Some(p) => sorted.insert(p, x),
        None => sorted.push(x),
    }
}

/// The records newest first, records of one date in their given order:
/// the stable sort by date, descending.
pub open spec fn by_date_newest_first<T: Dated>(s: Seq<T>) -> Seq<T>
    decreases s.len(),
{
    if s.len() == 0 {
        Seq::empty()
    } else {
        insert_by_date(by_date_newest_first(s.drop_last()), s.last())
    }
}

/// Sorts records newest first by their date text, keeping the order of
/// records of the same date.
pub fn sort_newest_first<T: Dated>(items: Vec<T>) -> (r: Vec<T>)
    ensures
        r@ == by_date_newest_first(items@),
{
    let ghost all = items@;
    let total = items.len();
    assert(all.len() == total);
    let mut rest = items;
    let mut rev: Vec<T> = Vec::new();
    while rest.len() > 0
        invariant
            all == rest@ + rev@.reverse(),
        decreases rest.len(),
    {
        let ghost before_rest = rest@;
        let ghost before_rev = rev@;
        let x = rest.pop().unwrap();
        rev.push(x);
        assert(rev@.reverse() =~= seq![x] + before_rev.reverse());
        assert(before_rest =~= rest@.push(x));
        assert(all =~= rest@ + rev@.reverse());
    }
    assert(rev@.reverse() =~= all);
    let mut out: Vec<T> = Vec::new();
    let mut k: usize = 0;
    assert(all.take(0) =~= Seq::<T>::empty());
    assert(all.skip(0) =~= all);
    while rev.len() > 0
        invariant
            k <= all.len(),
            all.len() == total,
            rev@.reverse() == all.skip(k as int),
            out@ == by_date_newest_first(all.take(k as int)),
        decreases rev.len(),
    {
        let ghost before_rev = rev@;
        let x = rev.pop().unwrap();
        proof {
            assert(before_rev.reverse().len() == before_rev.len());
            assert(all.skip(k as int).len() > 0);
            assert(before_rev.reverse()[0] == x);
            assert(all.skip(k as int)[0] == all[k as int]);
            assert(rev@.reverse() =~= before_rev.reverse().drop_first());
            assert(all.skip(k as int).drop_first() =~= all.skip(k + 1));
            assert(all.take(k + 1).drop_last() =~= all.take(k as int));
            assert(all.take(k + 1).last() == x);
        }
        let key = chars_of(x.date_text());
        let mut p: usize = 0;
        while p < out.len()
            invariant
                p <= out.len(),
                key@ == x.date_key(),
                forall|j: int| 0 <= j < p ==> !older_than(x)(#[trigger] out@[j]),
            ensures
                p <= out.len(),
                forall|j: int| 0 <= j < p ==> !older_than(x)(#[trigger] out@[j]),
                p < out.len() ==> lex_lt(out@[p as int].date_key(), x.date_key()),
            decreases out.len() - p,
        {
            let other = chars_of(out[p].date_text());
            if lex_less(other.as_slice(), key.as_slice()) {
                break;
            }
            p += 1;
        }
        if p < out.len() {
            proof {
                lemma_first_such_is(out@, older_than(x), p as int);
            }
            out.insert(p, x);
        } else {
            proof {
                lemma_first_such_none(out@, older_than(x));
            }
            out.push(x);
        }
        k = k + 1;
    }
    assert(all.skip(k as int).len() == 0);
    assert(all.take(k as int) =~= all);
    out
}


/// No record comes after a newer one.
pub open spec fn newest_first<T: Dated>(s: Seq<T>) -> bool {
    forall|i: int, j: int|
        0 <= i < j < s.len() ==> !lex_lt(#[trigger] s[i].date_key(), #[trigger] s[j].date_key())
}

proof fn lemma_insert_by_date<T: Dated>(sorted: Seq<T>, x: T)
    requires
        newest_first(sorted),
    ensures
        newest_first(insert_by_date(sorted, x)),
        insert_by_date(sorted, x).to_multiset() == sorted.to_multiset().insert(x),
{
    broadcast use vstd::seq_lib::to_multiset_insert, vstd::seq_lib::to_multiset_build;

    let r = insert_by_date(sorted, x);
    match first_such(sorted, older_than(x)) {
        Some(p) => {
            let p = choose|p: int| is_first_such(sorted, older_than(x), p);
            assert(r =~= sorted.insert(p, x));
            assert(older_than(x)(sorted[p]));
            let kx = x.date_key();
            assert forall|i: int, j: int| 0 <= i < j < r.len() implies !lex_lt(
                #[trigger] r[i].date_key(),
                #[trigger] r[j].date_key(),
            ) by {
                if i < p && j < p {
                    assert(r[i] == sorted[i] && r[j] == sorted[j]);
                } else if i < p && j == p {
                    assert(!older_than(x)(sorted[i]));
                } else if i < p {
                    assert(r[i] == sorted[i] && r[j] == sorted[j - 1]);
                } else if i == p {
                    let kj = sorted[j - 1].date_key();
                    let kp = sorted[p].date_key();
                    assert(r[j] == sorted[j - 1]);
                    if j - 1 > p {
                        assert(!lex_lt(kp, kj));
                    }
                    lemma_lex_total(kj, kp);
                    if lex_lt(kj, kp) {
                        lemma_lex_trans(kj, kp, kx);
                    }
                    if lex_lt(kx, kj) {
                        lemma_lex_trans(kx, kj, kx);
                        lemma_lex_irreflexive(kx);
                    }
                } else {
                    assert(r[i] == sorted[i - 1] && r[j] == sorted[j - 1]);
                }
            }
        },
        None => {
            assert(r =~= sorted.push(x));
            assert forall|i: int| 0 <= i < sorted.len() implies !older_than(x)(
                #[trigger] sorted[i],
            ) by {
                if older_than(x)(sorted[i]) {
                    if exists|k: int| 0 <= k < i && older_than(x)(sorted[k]) {
                        let k = choose|k: int| 0 <= k < i && older_than(x)(sorted[k]);
                        lemma_first_older_exists(sorted, x, k);
                    } else {
                        assert(is_first_such(sorted, older_than(x), i));
                    }
                }
            }
            assert forall|i: int, j: int| 0 <= i < j < r.len() implies !lex_lt(
                #[trigger] r[i].date_key(),
                #[trigger] r[j].date_key(),
            ) by {
                if j < sorted.len() {
                    assert(r[i] == sorted[i] && r[j] == sorted[j]);
                } else {
                    assert(r[i] == sorted[i]);
                    assert(!older_than(x)(sorted[i]));
                }
            }
        },
    }
}

proof fn lemma_first_older_exists<T: Dated>(s: Seq<T>, x: T, i: int)
    requires
        0 <= i < s.len(),
        older_than(x)(s[i]),
    ensures
        exists|j: int| is_first_such(s, older_than(x), j),
    decreases i,
{
    if exists|k: int| 0 <= k < i && older_than(x)(s[k]) {
        let k = choose|k: int| 0 <= k < i && older_than(x)(s[k]);
        lemma_first_older_exists(s, x, k);
    } else {
        assert(is_first_such(s, older_than(x), i));
    }
}

/// Sorting by date gives the same records, newest first.
pub proof fn sort_gives_newest_first<T: Dated>(s: Seq<T>)
    ensures
        newest_first(by_date_newest_first(s)),
        by_date_newest_first(s).to_multiset() == s.to_multiset(),
    decreases s.len(),
{
    broadcast use vstd::seq_lib::to_multiset_build;

    if s.len() > 0 {
        sort_gives_newest_first(s.drop_last());
        lemma_insert_by_date(by_date_newest_first(s.drop_last()), s.last());
        assert(s.drop_last().push(s.last()) =~= s);
    } else {
        assert(by_date_newest_first(s) =~= s);
    }
}


// ---------------------------------------------------------------------
// Listing a bookmark folder
// ---------------------------------------------------------------------

/// Drive files that hold a record: names ending in `.txt` or `.json`.
pub open spec fn is_record_file_name(name: Seq<char>) -> bool {
    ends_with(name, ".txt"@) || ends_with(name, ".json"@)
}

/// Whether a Drive file name is that of a record file.
pub fn is_synced_file_name(name: &str) -> (r: bool)
    ensures
        r == is_record_file_name(name@),
{
    let n = chars_of(name);
    let txt = chars_of(".txt");
    let json = chars_of(".json");
    ends_with_in(n.as_slice(), txt.as_slice()) || ends_with_in(n.as_slice(), json.as_slice())
}

/// The id a file name gives a bookmark: what stands between `bookmark_`
/// and the extension, else the Drive file id.
pub open spec fn bookmark_name_id(name: Seq<char>, file_id: Seq<char>) -> Seq<char> {
    match strip_prefix(name, "bookmark_"@) {
        Some(st) => match strip_suffix(st, ".txt"@) {
            Some(pure) => pure,
            None => match strip_suffix(st, ".json"@) {
                Some(pure) => pure,
                None => file_id,
            },
        },
        None => file_id,
    }
}

fn bookmark_name_id_in(name: &str, file_id: &str) -> (r: String)
    ensures
        r@ == bookmark_name_id(name@, file_id@),
{
    let n = chars_of(name);
    let bm = chars_of("bookmark_");
    let txt = chars_of(".txt");
    let json = chars_of(".json");
    match strip_prefix_in(n.as_slice(), bm.as_slice()) {
        Some(st) => match strip_suffix_in(st, txt.as_slice()) {
            Some(pure) => string_of(pure),
            None => match strip_suffix_in(st, json.as_slice()) {
                Some(pure) => string_of(pure),
                None => string_of(chars_of(file_id).as_slice()),
            },
        },
        None => string_of(chars_of(file_id).as_slice()),
    }
}

/// A listed bookmark built from the string fields of a JSON file: the id
/// (else `fallback_id`), title, content as stored (empty where absent),
/// source, the stored creation time (else `timestamp`) and the file.
pub open spec fn is_json_listed_bookmark(
    b: BookmarkItem,
    id: Option<Seq<char>>,
    title: Option<Seq<char>>,
    content: Option<Seq<char>>,
    source: Option<Seq<char>>,
    created_at: Option<Seq<char>>,
    fallback_id: Seq<char>,
    timestamp: Seq<char>,
    file_id: Seq<char>,
) -> bool {
    &&& b.id@ == or_else(id, fallback_id)
    &&& opt_view(b.title) == title
    &&& b.content@ == or_empty(content)
    &&& opt_view(b.source) == source
    &&& b.created_at@ == or_else(created_at, timestamp)
    &&& opt_view(b.drive_file_id) == Some(file_id)
}

/// The bookmark listed for a JSON file, from its string fields.
pub fn bookmark_from_json_listing(
    id: Option<String>,
    title: Option<String>,
    content: Option<String>,
    source: Option<String>,
    created_at: Option<String>,
    fallback_id: &str,
    timestamp: &str,
    file_id: &str,
) -> (r: BookmarkItem)
    ensures
        is_json_listed_bookmark(
            r,
            opt_view(id),
            opt_view(title),
            opt_view(content),
            opt_view(source),
            opt_view(created_at),
            fallback_id@,
            timestamp@,
            file_id@,
        ),
{
    proof {
        reveal_strlit("");
        assert(""@ =~= Seq::<char>::empty());
    }
    BookmarkItem {
        id: text_or(id, fallback_id),
        title,
        content: text_or(content, ""),
        source,
        created_at: text_or(created_at, timestamp),
        drive_file_id: Some(string_of(chars_of(file_id).as_slice())),
    }
}

/// The bookmark listed for a record file of the bookmarks folder: from
/// JSON where the trimmed text begins with `{` (nothing where it does not
/// parse), from the plain-text layout otherwise.
pub open spec fn is_listed_bookmark(
    r: Option<BookmarkItem>,
    name: Seq<char>,
    text: Seq<char>,
    file_id: Seq<char>,
    timestamp: Seq<char>,
) -> bool {
    if starts_with(trim(text), "{"@) {
        if json_string_field(text, "id"@) is Some {
            r matches Some(b) && is_json_listed_bookmark(
                b,
                json_field(text, "id"@),
                json_field(text, "title"@),
                json_field(text, "content"@),
                json_field(text, "source"@),
                json_field(text, "created_at"@),
                bookmark_name_id(name, file_id),
                timestamp,
                file_id,
            )
        } else {
            r is None
        }
    } else {
        let p = parsed_bookmark(text);
        r matches Some(b) && {
            &&& b.id@ == or_else(p.0, "bm_"@ + file_id)
            &&& opt_view(b.title) == p.1
            &&& opt_view(b.source) == p.2
            &&& b.content@ == p.3
            &&& b.created_at@ == timestamp
            &&& opt_view(b.drive_file_id) == Some(file_id)
        }
    }
}

/// Reads the bookmark that a record file of the bookmarks folder holds.
pub fn fetched_bookmark(name: &str, text: &str, file_id: &str, timestamp: &str) -> (r: Option<
    BookmarkItem,
>)
    ensures
        is_listed_bookmark(r, name@, text@, file_id@, timestamp@),
{
    let t = chars_of(text);
    let brace = chars_of("{");
    if starts_with_in(trim_in(t.as_slice()), brace.as_slice()) {
        let id = json_text_field(text, "id");
        if id.is_some() {
            let title = json_text_field(text, "title");
            let content = json_text_field(text, "content");
            let source = json_text_field(text, "source");
            let created_at = json_text_field(text, "created_at");
            let fallback = bookmark_name_id_in(name, file_id);
            Some(
                bookmark_from_json_listing(
                    first_present(id),
                    first_present(title),
                    first_present(content),
                    first_present(source),
                    first_present(created_at),
                    fallback.as_str(),
                    timestamp,
                    file_id,
                ),
            )
        } else {
            None
        }
    } else {
        let (pid, title, source, content) = parse_bookmark_text(text);
        let id = match pid {
            Some(x) => x,
            None => prefixed_id("bm_", file_id),
        };
        Some(
            BookmarkItem {
                id,
                title,
                content,
                source,
                created_at: string_of(chars_of(timestamp).as_slice()),
                drive_file_id: Some(string_of(chars_of(file_id).as_slice())),
            },
        )
    }
}

/// Whether a translation file is the one to delete: its id is the id
/// sought, or its trimmed source text is the trimmed text sought.
pub open spec fn translation_file_is_target(
    text: Seq<char>,
    id: Option<Seq<char>>,
    source_text: Option<Seq<char>>,
) -> bool {
    let p = parsed_translation(text);
    ||| (id matches Some(i) && p.0 == Some(i))
    ||| (source_text matches Some(s) && trim(p.1) == trim(s))
}

/// Whether the translation file with this text is the one to delete.
pub fn translation_file_matches(
    text: &str,
    id: &Option<String>,
    source_text: &Option<String>,
) -> (r: bool)
    ensures
        r == translation_file_is_target(text@, opt_view(*id), opt_view(*source_text)),
{
    let (pid, src, _) = parse_translation_text(text);
    let by_id = match id {
        Some(i) => match &pid {
            Some(p) => p.eq(i),
            None => false,
        },
        None => false,
    };
    let by_src = match source_text {
        Some(s) => same_trimmed(&src, s),
        None => false,
    };
    by_id || by_src
}

// ---------------------------------------------------------------------
// What an upload gives back
// ---------------------------------------------------------------------

proof fn lemma_not_json(text: Seq<char>)
    requires
        text.len() > 0,
        text[0] == 'I',
    ensures
        !starts_with(trim(text), "{"@),
{
    reveal_strlit("{");
    crate::text::lemma_trim_keeps_first(text);
    if starts_with(trim(text), "{"@) {
        assert(trim(text).subrange(0, 1)[0] == '{');
    }
}

/// A bookmark uploaded as a plain-text file is listed back from Drive with
/// what was written: the id (or `bm_` and the file id, where the id was
/// blank), title, source and content as reading the file gives them, and
/// the file.
pub proof fn uploaded_bookmark_lists_back(
    id: Seq<char>,
    title: Option<Seq<char>>,
    source: Option<Seq<char>>,
    content: Seq<char>,
    name: Seq<char>,
    file_id: Seq<char>,
    timestamp: Seq<char>,
    listed: Option<BookmarkItem>,
)
    requires
        crate::sync::is_header_field(id),
        crate::sync::is_header_field(or_empty(title)),
        crate::sync::is_header_field(or_empty(source)),
        !content.contains('\r'),
        is_listed_bookmark(
            listed,
            name,
            crate::sync::bookmark_file_text(id, title, source, content),
            file_id,
            timestamp,
        ),
    ensures
        listed matches Some(b) && {
            &&& b.id@ == or_else(crate::text::nonblank(id), "bm_"@ + file_id)
            &&& opt_view(b.title) == crate::sync::title_value(or_empty(title))
            &&& opt_view(b.source) == crate::text::nonblank(or_empty(source))
            &&& b.content@ == trim(content)
            &&& b.created_at@ == timestamp
            &&& opt_view(b.drive_file_id) == Some(file_id)
        },
{
    reveal_strlit("ID: ");
    let text = crate::sync::bookmark_file_text(id, title, source, content);
    assert(text[0] == 'I');
    lemma_not_json(text);
    crate::sync::bookmark_text_round_trip(id, title, source, content);
}

/// A translation uploaded as a plain-text file comes back from Drive in a
/// sync with what was written, where both texts have content: the id (or
/// `trn_` and the file id, where the id was blank), the trimmed texts and
/// the file.
pub proof fn uploaded_translation_syncs_back(
    id: Seq<char>,
    source_text: Seq<char>,
    translated_text: Seq<char>,
    file_id: Seq<char>,
    timestamp: Seq<char>,
    synced: TranslationRecordPayload,
)
    requires
        crate::sync::is_header_field(id),
        !source_text.contains('\r'),
        !translated_text.contains('\r'),
        !crate::text::contains(trim(source_text), "Translated:"@),
        is_cloud_translation(
            synced,
            parsed_translation(
                crate::sync::translation_file_text(id, source_text, translated_text),
            ),
            file_id,
            timestamp,
        ),
    ensures
        synced.id@ == or_else(crate::text::nonblank(id), "trn_"@ + file_id),
        synced.source_text@ == trim(source_text),
        synced.translated_text@ == trim(translated_text),
        opt_view(synced.drive_file_id) == Some(file_id),
{
    crate::sync::translation_text_round_trip(id, source_text, translated_text);
    crate::text::lemma_trim_idem(source_text);
    crate::text::lemma_trim_idem(translated_text);
}

} // verus!
