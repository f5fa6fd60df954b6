//! Character-level text primitives shared by the parsers and formatters.
use vstd::prelude::*;

verus! {

/// Unicode `White_Space`, the property that `char::is_whitespace` and
/// `str::trim` go by.
pub open spec fn is_ws(c: char) -> bool {
    let u = c as u32;
    ||| 0x09 <= u <= 0x0D
    ||| u == 0x20
    ||| u == 0x85
    ||| u == 0xA0
    ||| u == 0x1680
    ||| 0x2000 <= u <= 0x200A
    ||| u == 0x2028
    ||| u == 0x2029
    ||| u == 0x202F
    ||| u == 0x205F
    ||| u == 0x3000
}

/// `s` without its leading white space.
pub open spec fn trim_start(s: Seq<char>) -> Seq<char>
    decreases s.len(),
{
    if s.len() > 0 && is_ws(s[0]) {
        trim_start(s.drop_first())
    } else {
        s
    }
}

/// `s` without its trailing white space.
pub open spec fn trim_end(s: Seq<char>) -> Seq<char>
    decreases s.len(),
{
    if s.len() > 0 && is_ws(s.last()) {
        trim_end(s.drop_last())
    } else {
        s
    }
}

/// `s` without leading and trailing white space, as `str::trim` gives it.
pub open spec fn trim(s: Seq<char>) -> Seq<char> {
    trim_end(trim_start(s))
}

pub fn char_is_ws(c: char) -> (r: bool)
    ensures
        r == is_ws(c),
{
    let u = c as u32;
    (0x09 <= u && u <= 0x0D) || u == 0x20 || u == 0x85 || u == 0xA0 || u == 0x1680 || (0x2000
        <= u && u <= 0x200A) || u == 0x2028 || u == 0x2029 || u == 0x202F || u == 0x205F || u
        == 0x3000
}

/// Appends one character to a `String` (`String::push`).
#[verifier::external_body]
fn push_char(s: &mut String, c: char)
    ensures
        final(s)@ == old(s)@.push(c),
{
    s.push(c);
}

/// The characters of `s`, in order.
pub fn chars_of(s: &str) -> (v: Vec<char>)
    ensures
        v@ == s@,
{
    let mut v: Vec<char> = Vec::new();
    for c in it: s.chars()
        invariant
            v@ == it.seq().take(it.index() as int),
    {
        v.push(c);
    }
    v
}

/// A `String` holding the characters of `v`.
pub fn string_of(v: &[char]) -> (s: String)
    ensures
        s@ == v@,
{
    let mut s = String::new();
    let mut i: usize = 0;
    while i < v.len()
        invariant
            i <= v.len(),
            s@ == v@.take(i as int),
        decreases v.len() - i,
    {
        push_char(&mut s, v[i]);
        assert(v@.take(i as int).push(v@[i as int]) =~= v@.take(i + 1));
        i += 1;
    }
    assert(v@.take(v.len() as int) =~= v@);
    s
}


// ---------------------------------------------------------------------
// Searching
// ---------------------------------------------------------------------

/// `p` stands in `s` at position `i`.
pub open spec fn occurs_at(s: Seq<char>, p: Seq<char>, i: int) -> bool {
    0 <= i && i + p.len() <= s.len() && s.subrange(i, i + p.len()) == p
}

/// `s` contains `p` somewhere.
pub open spec fn contains(s: Seq<char>, p: Seq<char>) -> bool {
    exists|i: int| occurs_at(s, p, i)
}

/// `i` is the first position of `p` in `s`.
pub open spec fn first_at(s: Seq<char>, p: Seq<char>, i: int) -> bool {
    &&& occurs_at(s, p, i)
    &&& forall|k: int| 0 <= k < i ==> !#[trigger] occurs_at(s, p, k)
}

/// The first position of `p` in `s`, as `str::find` gives it.
pub open spec fn find(s: Seq<char>, p: Seq<char>) -> Option<int> {
    if contains(s, p) {
        Some(choose|i: int| first_at(s, p, i))
    } else {
        None
    }
}

pub open spec fn starts_with(s: Seq<char>, p: Seq<char>) -> bool {
    occurs_at(s, p, 0)
}

pub open spec fn ends_with(s: Seq<char>, p: Seq<char>) -> bool {
    p.len() <= s.len() && s.skip(s.len() - p.len()) == p
}

/// `str::strip_prefix`.
pub open spec fn strip_prefix(s: Seq<char>, p: Seq<char>) -> Option<Seq<char>> {
    if starts_with(s, p) {
        Some(s.skip(p.len() as int))
    } else {
        None
    }
}

/// `str::strip_suffix`.
pub open spec fn strip_suffix(s: Seq<char>, p: Seq<char>) -> Option<Seq<char>> {
    if ends_with(s, p) {
        Some(s.take(s.len() - p.len()))
    } else {
        None
    }
}

/// `str::split_once`: the text before and after the first `p`.
pub open spec fn split_once(s: Seq<char>, p: Seq<char>) -> Option<(Seq<char>, Seq<char>)> {
    match find(s, p) {
        Some(i) => Some((s.take(i), s.skip(i + p.len()))),
        None => None,
    }
}

pub proof fn lemma_first_exists(s: Seq<char>, p: Seq<char>, i: int)
    requires
        occurs_at(s, p, i),
    ensures
        exists|j: int| first_at(s, p, j),
    decreases i,
{
    if exists|k: int| 0 <= k < i && occurs_at(s, p, k) {
        let k = choose|k: int| 0 <= k < i && occurs_at(s, p, k);
        lemma_first_exists(s, p, k);
    } else {
        assert(first_at(s, p, i));
    }
}

/// What `find` gives is the first position of `p`.
pub proof fn lemma_find(s: Seq<char>, p: Seq<char>)
    ensures
        find(s, p) matches Some(i) ==> first_at(s, p, i),
        find(s, p) is None <==> !contains(s, p),
{
    if contains(s, p) {
        let i = choose|i: int| occurs_at(s, p, i);
        lemma_first_exists(s, p, i);
    }
}

/// The first position of `p` is what `find` gives.
pub proof fn lemma_find_is(s: Seq<char>, p: Seq<char>, i: int)
    requires
        first_at(s, p, i),
    ensures
        find(s, p) == Some(i),
{
    lemma_find(s, p);
    let j = find(s, p)->0;
    if j < i {
        assert(occurs_at(s, p, j));
    } else if i < j {
        assert(occurs_at(s, p, i));
    }
}

pub open spec fn opt_int(r: Option<usize>) -> Option<int> {
    match r {
        Some(i) => Some(i as int),
        None => None,
    }
}

/// Whether `p` stands in `s` at position `i`.
pub fn matches_at(s: &[char], p: &[char], i: usize) -> (r: bool)
    ensures
        r == occurs_at(s@, p@, i as int),
{
    if i > s.len() || p.len() > s.len() - i {
        return false;
    }
    let mut k: usize = 0;
    while k < p.len()
        invariant
            k <= p.len(),
            i + p.len() <= s.len(),
            forall|j: int| 0 <= j < k ==> s@[i + j] == p@[j],
        decreases p.len() - k,
    {
        if s[i + k] != p[k] {
            assert(s@.subrange(i as int, i + p.len())[k as int] != p@[k as int]);
            return false;
        }
        k += 1;
    }
    assert(s@.subrange(i as int, i + p.len()) =~= p@);
    true
}

/// The first position of `p` in `s` (`str::find`).
pub fn find_in(s: &[char], p: &[char]) -> (r: Option<usize>)
    ensures
        opt_int(r) == find(s@, p@),
{
    if p.len() > s.len() {
        assert(!contains(s@, p@));
        proof { lemma_find(s@, p@); }
        return None;
    }
    let last = s.len() - p.len();
    let mut i: usize = 0;
    loop
        invariant
            last == s.len() - p.len(),
            i <= last,
            forall|k: int| 0 <= k < i ==> !#[trigger] occurs_at(s@, p@, k),
        ensures
            forall|k: int| 0 <= k <= last ==> !#[trigger] occurs_at(s@, p@, k),
        decreases last - i,
    {
        if matches_at(s, p, i) {
            proof { lemma_find_is(s@, p@, i as int); }
            return Some(i);
        }
        if i == last {
            break;
        }
        i += 1;
    }
    assert(!contains(s@, p@));
    proof { lemma_find(s@, p@); }
    None
}

/// Whether `s` contains `p` (`str::contains`).
pub fn contains_in(s: &[char], p: &[char]) -> (r: bool)
    ensures
        r == contains(s@, p@),
{
    proof { lemma_find(s@, p@); }
    find_in(s, p).is_some()
}

/// Whether `s` begins with `p` (`str::starts_with`).
pub fn starts_with_in(s: &[char], p: &[char]) -> (r: bool)
    ensures
        r == starts_with(s@, p@),
{
    matches_at(s, p, 0)
}

/// Whether `s` ends with `p` (`str::ends_with`).
pub fn ends_with_in(s: &[char], p: &[char]) -> (r: bool)
    ensures
        r == ends_with(s@, p@),
{
    if p.len() > s.len() {
        return false;
    }
    let r = matches_at(s, p, s.len() - p.len());
    assert(s@.subrange(s.len() - p.len(), s.len() as int) =~= s@.skip(s.len() - p.len()));
    r
}

/// `str::strip_prefix`.
pub fn strip_prefix_in<'a>(s: &'a [char], p: &[char]) -> (r: Option<&'a [char]>)
    ensures
        match r {
            Some(t) => strip_prefix(s@, p@) == Some(t@),
            None => strip_prefix(s@, p@) is None,
        },
{
    if starts_with_in(s, p) {
        Some(&s[p.len()..s.len()])
    } else {
        None
    }
}

/// `str::strip_suffix`.
pub fn strip_suffix_in<'a>(s: &'a [char], p: &[char]) -> (r: Option<&'a [char]>)
    ensures
        match r {
            Some(t) => strip_suffix(s@, p@) == Some(t@),
            None => strip_suffix(s@, p@) is None,
        },
{
    if ends_with_in(s, p) {
        Some(&s[0..s.len() - p.len()])
    } else {
        None
    }
}

/// `str::split_once`.
pub fn split_once_in<'a>(s: &'a [char], p: &[char]) -> (r: Option<(&'a [char], &'a [char])>)
    ensures
        match r {
            Some((a, b)) => split_once(s@, p@) == Some((a@, b@)),
            None => split_once(s@, p@) is None,
        },
{
    match find_in(s, p) {
        Some(i) => {
            proof { lemma_find(s@, p@); }
            assert(occurs_at(s@, p@, i as int));
            assert(i + p.len() <= s.len());
            Some((&s[0..i], &s[i + p.len()..s.len()]))
        },
        None => None,
    }
}

// ---------------------------------------------------------------------
// Trimming
// ---------------------------------------------------------------------

pub proof fn lemma_trim_end_idem(s: Seq<char>)
    ensures
        trim_end(trim_end(s)) == trim_end(s),
        trim_start(trim_start(s)) == trim_start(s),
    decreases s.len(),
{
    if s.len() > 0 && is_ws(s.last()) {
        lemma_trim_end_idem(s.drop_last());
    }
    if s.len() > 0 && is_ws(s[0]) {
        lemma_trim_end_idem(s.drop_first());
    }
}

/// `str::trim`.
pub fn trim_in(s: &[char]) -> (r: &[char])
    ensures
        r@ == trim(s@),
{
    let mut i: usize = 0;
    assert(s@.skip(0) =~= s@);
    while i < s.len() && char_is_ws(s[i])
        invariant
            i <= s.len(),
            trim_start(s@) == trim_start(s@.skip(i as int)),
        decreases s.len() - i,
    {
        assert(s@.skip(i as int).drop_first() =~= s@.skip(i + 1));
        i += 1;
    }
    let ghost rest = s@.skip(i as int);
    assert(trim_start(rest) == rest);
    let mut j: usize = s.len();
    while j > i && char_is_ws(s[j - 1])
        invariant
            i <= j <= s.len(),
            rest == s@.skip(i as int),
            trim_end(rest) == trim_end(s@.subrange(i as int, j as int)),
        decreases j,
    {
        assert(s@.subrange(i as int, j as int).drop_last() =~= s@.subrange(i as int, j - 1));
        j -= 1;
    }
    assert(rest =~= s@.subrange(i as int, s.len() as int));
    &s[i..j]
}

// ---------------------------------------------------------------------
// Replacing and splitting into lines
// ---------------------------------------------------------------------

/// `str::replace`: every occurrence of `from`, left to right and without
/// overlap, replaced by `to`.
pub open spec fn replace(s: Seq<char>, from: Seq<char>, to: Seq<char>) -> Seq<char>
    decreases s.len(),
{
    if from.len() == 0 {
        s
    } else {
        match find(s, from) {
            Some(i) => {
                proof { lemma_find(s, from); }
                s.take(i) + to + replace(s.skip(i + from.len()), from, to)
            },
            None => s,
        }
    }
}

/// A line as `str::lines` gives it: the `\r` of a `\r\n` ending is dropped.
pub open spec fn strip_cr(l: Seq<char>) -> Seq<char> {
    if l.len() > 0 && l.last() == '\r' {
        l.drop_last()
    } else {
        l
    }
}

/// `str::lines`.
pub open spec fn lines(s: Seq<char>) -> Seq<Seq<char>>
    decreases s.len(),
{
    if s.len() == 0 {
        seq![]
    } else {
        match find(s, seq!['\n']) {
            Some(i) => {
                proof { lemma_find(s, seq!['\n']); }
                seq![strip_cr(s.take(i))] + lines(s.skip(i + 1))
            },
            None => seq![s],
        }
    }
}

/// `str::replace`.
pub fn replace_in(s: &[char], from: &[char], to: &[char]) -> (r: Vec<char>)
    requires
        from.len() > 0,
    ensures
        r@ == replace(s@, from@, to@),
{
    let mut out: Vec<char> = Vec::new();
    let mut pos: usize = 0;
    assert(s@.skip(0) =~= s@);
    assert(out@ + replace(s@, from@, to@) =~= replace(s@, from@, to@));
    loop
        invariant
            from.len() > 0,
            pos <= s.len(),
            replace(s@, from@, to@) == out@ + replace(s@.skip(pos as int), from@, to@),
        decreases s.len() - pos,
    {
        let rest = &s[pos..s.len()];
        assert(rest@ == s@.skip(pos as int));
        match find_in(rest, from) {
            Some(i) => {
                proof { lemma_find(rest@, from@); }
                let head = &rest[0..i];
                let ghost old_out = out@;
                let mut k: usize = 0;
                while k < head.len()
                    invariant
                        k <= head.len(),
                        out@ == old_out + head@.take(k as int),
                    decreases head.len() - k,
                {
                    out.push(head[k]);
                    assert(head@.take(k + 1) =~= head@.take(k as int).push(head@[k as int]));
                    k += 1;
                }
                let ghost mid = out@;
                let mut m: usize = 0;
                while m < to.len()
                    invariant
                        m <= to.len(),
                        out@ == mid + to@.take(m as int),
                    decreases to.len() - m,
                {
                    out.push(to[m]);
                    assert(to@.take(m + 1) =~= to@.take(m as int).push(to@[m as int]));
                    m += 1;
                }
                assert(head@.take(head.len() as int) =~= head@);
                assert(to@.take(to.len() as int) =~= to@);
                assert(rest@.skip(i + from.len()) =~= s@.skip(pos + i + from.len()));
                assert(out@ =~= old_out + rest@.take(i as int) + to@);
                assert(old_out + (rest@.take(i as int) + to@ + replace(
                    rest@.skip(i + from.len()),
                    from@,
                    to@,
                )) =~= out@ + replace(rest@.skip(i + from.len()), from@, to@));
                pos = pos + i + from.len();
            },
            None => {
                let ghost old_out = out@;
                let mut k: usize = 0;
                while k < rest.len()
                    invariant
                        k <= rest.len(),
                        out@ == old_out + rest@.take(k as int),
                    decreases rest.len() - k,
                {
                    out.push(rest[k]);
                    assert(rest@.take(k + 1) =~= rest@.take(k as int).push(rest@[k as int]));
                    k += 1;
                }
                assert(rest@.take(rest.len() as int) =~= rest@);
                return out;
            },
        }
    }
}


/// The views of a sequence of character vectors.
pub open spec fn views(v: Seq<Vec<char>>) -> Seq<Seq<char>> {
    v.map_values(|x: Vec<char>| x@)
}

/// `str::lines`.
pub fn lines_in(s: &[char]) -> (r: Vec<Vec<char>>)
    ensures
        views(r@) == lines(s@),
{
    let nl = vec!['\n'];
    assert(nl@ =~= seq!['\n']);
    let mut out: Vec<Vec<char>> = Vec::new();
    let mut pos: usize = 0;
    assert(s@.skip(0) =~= s@);
    assert(views(out@) + lines(s@) =~= lines(s@));
    while pos < s.len()
        invariant
            nl@ == seq!['\n'],
            pos <= s.len(),
            lines(s@) == views(out@) + lines(s@.skip(pos as int)),
        decreases s.len() - pos,
    {
        let rest = &s[pos..s.len()];
        assert(rest@ == s@.skip(pos as int));
        let ghost old_out = out@;
        match find_in(rest, nl.as_slice()) {
            Some(i) => {
                proof { lemma_find(rest@, seq!['\n']); }
                assert(occurs_at(rest@, seq!['\n'], i as int));
                let line = if i > 0 && rest[i - 1] == '\r' {
                    &rest[0..i - 1]
                } else {
                    &rest[0..i]
                };
                assert(line@ =~= strip_cr(rest@.take(i as int)));
                out.push(vstd::slice::slice_to_vec(line));
                assert(rest@.skip(i + 1) =~= s@.skip(pos + i + 1));
                assert(views(out@) =~= views(old_out) + seq![line@]);
                assert(lines(rest@) == seq![strip_cr(rest@.take(i as int))] + lines(
                    rest@.skip(i + 1),
                ));
                assert(views(out@) + lines(s@.skip(pos + i + 1)) =~= views(old_out) + lines(
                    rest@,
                ));
                pos = pos + i + 1;
            },
            None => {
                out.push(vstd::slice::slice_to_vec(rest));
                assert(views(out@) =~= views(old_out) + seq![rest@]);
                assert(s@.skip(s.len() as int) =~= Seq::<char>::empty());
                assert(views(out@) + lines(s@.skip(s.len() as int)) =~= views(old_out) + lines(
                    rest@,
                ));
                pos = s.len();
            },
        }
    }
    assert(s@.skip(pos as int) =~= Seq::<char>::empty());
    assert(views(out@) + lines(s@.skip(pos as int)) =~= views(out@));
    out
}


/// Appends the characters of `s` to `out`.
pub fn push_str(out: &mut Vec<char>, s: &str)
    ensures
        final(out)@ == old(out)@ + s@,
{
    let ghost start = out@;
    for c in it: s.chars()
        invariant
            out@ == start + it.seq().take(it.index() as int),
    {
        out.push(c);
    }
}

/// Appends the characters of `s` to `out`.
pub fn push_slice(out: &mut Vec<char>, s: &[char])
    ensures
        final(out)@ == old(out)@ + s@,
{
    let ghost start = out@;
    let mut i: usize = 0;
    while i < s.len()
        invariant
            i <= s.len(),
            out@ == start + s@.take(i as int),
        decreases s.len() - i,
    {
        out.push(s[i]);
        assert(s@.take(i + 1) =~= s@.take(i as int).push(s@[i as int]));
        i += 1;
    }
    assert(s@.take(s.len() as int) =~= s@);
}

/// The view of an optional string slice.
pub open spec fn opt_str_view(o: Option<&str>) -> Option<Seq<char>> {
    match o {
        Some(s) => Some(s@),
        None => None,
    }
}

/// The text of an optional value, empty where there is none.
pub open spec fn or_empty(o: Option<Seq<char>>) -> Seq<char> {
    match o {
        Some(s) => s,
        None => Seq::empty(),
    }
}


/// Whether two character sequences are equal.
pub fn same_chars(a: &[char], b: &[char]) -> (r: bool)
    ensures
        r == (a@ == b@),
{
    if a.len() != b.len() {
        return false;
    }
    let r = matches_at(a, b, 0);
    assert(a@.subrange(0, b.len() as int) =~= a@);
    r
}

/// The trimmed text, where it is not empty.
pub open spec fn nonblank(s: Seq<char>) -> Option<Seq<char>> {
    if trim(s).len() > 0 {
        Some(trim(s))
    } else {
        None
    }
}

/// The trimmed text as a `String`, where it is not empty.
pub fn nonblank_in(s: &[char]) -> (r: Option<String>)
    ensures
        match r {
            Some(t) => nonblank(s@) == Some(t@),
            None => nonblank(s@) is None,
        },
{
    let t = trim_in(s);
    if t.len() > 0 {
        Some(string_of(t))
    } else {
        None
    }
}


/// Where no position holds `p`, `find` gives nothing.
pub proof fn lemma_find_none(s: Seq<char>, p: Seq<char>)
    requires
        forall|k: int| !#[trigger] occurs_at(s, p, k),
    ensures
        find(s, p) is None,
{
    lemma_find(s, p);
}

/// A line without a line feed, followed by one, is the first line.
pub proof fn lemma_lines_cons(a: Seq<char>, b: Seq<char>)
    requires
        !a.contains('\n'),
        !(a.len() > 0 && a.last() == '\r'),
    ensures
        lines(a + seq!['\n'] + b) == seq![a] + lines(b),
{
    let s = a + seq!['\n'] + b;
    let nl = seq!['\n'];
    assert(occurs_at(s, nl, a.len() as int)) by {
        assert(s.subrange(a.len() as int, a.len() + 1int) =~= nl);
    }
    assert forall|k: int| 0 <= k < a.len() implies !#[trigger] occurs_at(s, nl, k) by {
        if occurs_at(s, nl, k) {
            assert(s.subrange(k, k + 1)[0] == '\n');
            assert(a[k] == '\n');
        }
    }
    lemma_find_is(s, nl, a.len() as int);
    assert(s.take(a.len() as int) =~= a);
    assert(s.skip(a.len() + 1int) =~= b);
}

/// A non-empty text without a line feed is a single line.
pub proof fn lemma_lines_single(c: Seq<char>)
    requires
        c.len() > 0,
        !c.contains('\n'),
    ensures
        lines(c) == seq![c],
{
    let nl = seq!['\n'];
    assert forall|k: int| !#[trigger] occurs_at(c, nl, k) by {
        if occurs_at(c, nl, k) {
            assert(c.subrange(k, k + 1)[0] == '\n');
            assert(c[k] == '\n');
        }
    }
    lemma_find_none(c, nl);
}

/// Text without `\r` has no `\r\n` to normalize.
pub proof fn lemma_replace_absent(s: Seq<char>, from: Seq<char>, to: Seq<char>)
    requires
        from.len() > 0,
        !s.contains(from[0]),
    ensures
        replace(s, from, to) == s,
{
    assert forall|k: int| !#[trigger] occurs_at(s, from, k) by {
        if occurs_at(s, from, k) {
            assert(s.subrange(k, k + from.len())[0] == from[0]);
            assert(s[k] == from[0]);
        }
    }
    lemma_find_none(s, from);
}

/// The trimmed text begins and ends with a non-space.
pub proof fn lemma_trim_shape(s: Seq<char>)
    ensures
        exists|i: int, j: int|
            0 <= i <= j <= s.len() && trim(s) == s.subrange(i, j) && (i < j ==> !is_ws(s[i])
                && !is_ws(s[j - 1])),
    decreases s.len(),
{
    lemma_trim_start_shape(s);
    let i = choose|i: int|
        0 <= i <= s.len() && trim_start(s) == s.skip(i) && (i < s.len() ==> !is_ws(s[i]));
    lemma_trim_end_shape(s.skip(i));
    let j = choose|j: int|
        0 <= j <= s.skip(i).len() && trim_end(s.skip(i)) == s.skip(i).take(j) && (0 < j ==> !is_ws(
            s.skip(i)[j - 1],
        ));
    assert(s.skip(i).take(j) =~= s.subrange(i, i + j));
}

pub proof fn lemma_trim_start_shape(s: Seq<char>)
    ensures
        exists|i: int|
            0 <= i <= s.len() && trim_start(s) == s.skip(i) && (i < s.len() ==> !is_ws(s[i])),
    decreases s.len(),
{
    if s.len() > 0 && is_ws(s[0]) {
        lemma_trim_start_shape(s.drop_first());
        let i = choose|i: int|
            0 <= i <= s.drop_first().len() && trim_start(s.drop_first()) == s.drop_first().skip(i)
                && (i < s.drop_first().len() ==> !is_ws(s.drop_first()[i]));
        assert(s.drop_first().skip(i) =~= s.skip(i + 1));
    } else {
        assert(s.skip(0) =~= s);
    }
}

pub proof fn lemma_trim_end_shape(s: Seq<char>)
    ensures
        exists|j: int| 0 <= j <= s.len() && trim_end(s) == s.take(j) && (0 < j ==> !is_ws(s[j - 1])),
    decreases s.len(),
{
    if s.len() > 0 && is_ws(s.last()) {
        lemma_trim_end_shape(s.drop_last());
        let j = choose|j: int|
            0 <= j <= s.drop_last().len() && trim_end(s.drop_last()) == s.drop_last().take(j) && (0
                < j ==> !is_ws(s.drop_last()[j - 1]));
        assert(s.drop_last().take(j) =~= s.take(j));
    } else {
        assert(s.take(s.len() as int) =~= s);
    }
}

/// Text that begins and ends with a non-space is its own trim.
pub proof fn lemma_trim_fixed(s: Seq<char>)
    requires
        s.len() > 0 ==> !is_ws(s[0]) && !is_ws(s.last()),
    ensures
        trim(s) == s,
{
}

/// Trimming twice is trimming once.
pub proof fn lemma_trim_idem(s: Seq<char>)
    ensures
        trim(trim(s)) == trim(s),
{
    lemma_trim_shape(s);
    let (i, j) = choose|i: int, j: int|
        0 <= i <= j <= s.len() && trim(s) == s.subrange(i, j) && (i < j ==> !is_ws(s[i]) && !is_ws(
            s[j - 1],
        ));
    lemma_trim_fixed(trim(s));
}


/// Every character of `s` is white space.
pub open spec fn all_ws(s: Seq<char>) -> bool {
    forall|i: int| 0 <= i < s.len() ==> is_ws(#[trigger] s[i])
}

pub proof fn lemma_trim_start_ws_prefix(pre: Seq<char>, x: Seq<char>)
    requires
        all_ws(pre),
    ensures
        trim_start(pre + x) == trim_start(x),
    decreases pre.len(),
{
    if pre.len() > 0 {
        assert((pre + x)[0] == pre[0]);
        assert((pre + x).drop_first() =~= pre.drop_first() + x);
        lemma_trim_start_ws_prefix(pre.drop_first(), x);
    } else {
        assert(pre + x =~= x);
    }
}

pub proof fn lemma_trim_end_ws_suffix(x: Seq<char>, post: Seq<char>)
    requires
        all_ws(post),
    ensures
        trim_end(x + post) == trim_end(x),
    decreases post.len(),
{
    if post.len() > 0 {
        assert((x + post).last() == post.last());
        assert((x + post).drop_last() =~= x + post.drop_last());
        lemma_trim_end_ws_suffix(x, post.drop_last());
    } else {
        assert(x + post =~= x);
    }
}

/// Text that is its own trim begins and ends with a non-space.
pub proof fn lemma_trimmed_ends(x: Seq<char>)
    requires
        trim(x) == x,
        x.len() > 0,
    ensures
        !is_ws(x[0]),
        !is_ws(x.last()),
{
    lemma_trim_shape(x);
    let (i, j) = choose|i: int, j: int|
        0 <= i <= j <= x.len() && trim(x) == x.subrange(i, j) && (i < j ==> !is_ws(x[i]) && !is_ws(
            x[j - 1],
        ));
    assert(x.subrange(i, j).len() == x.len());
}

/// White space around trimmed text trims away.
pub proof fn lemma_trim_around(pre: Seq<char>, x: Seq<char>, post: Seq<char>)
    requires
        all_ws(pre),
        all_ws(post),
        trim(x) == x,
    ensures
        trim(pre + x + post) == x,
{
    assert(pre + x + post =~= pre + (x + post));
    lemma_trim_start_ws_prefix(pre, x + post);
    if x.len() > 0 {
        lemma_trimmed_ends(x);
        assert((x + post)[0] == x[0]);
        lemma_trim_end_ws_suffix(x, post);
    } else {
        assert(x + post =~= post);
        lemma_all_ws_trim_start(post);
    }
}

pub proof fn lemma_all_ws_trim_start(s: Seq<char>)
    requires
        all_ws(s),
    ensures
        trim_start(s) =~= Seq::<char>::empty(),
    decreases s.len(),
{
    if s.len() > 0 {
        lemma_all_ws_trim_start(s.drop_first());
    }
}

/// In `a`, then `c`, then `b`, where `a` does not hold `c`, the first `c`
/// follows `a`.
pub proof fn lemma_find_char_after(a: Seq<char>, c: char, b: Seq<char>)
    requires
        !a.contains(c),
    ensures
        find(a + seq![c] + b, seq![c]) == Some(a.len() as int),
{
    let s = a + seq![c] + b;
    let p = seq![c];
    assert(occurs_at(s, p, a.len() as int)) by {
        assert(s.subrange(a.len() as int, a.len() + 1int) =~= p);
    }
    assert forall|k: int| 0 <= k < a.len() implies !#[trigger] occurs_at(s, p, k) by {
        if occurs_at(s, p, k) {
            assert(s.subrange(k, k + 1)[0] == c);
            assert(a[k] == c);
        }
    }
    lemma_find_is(s, p, a.len() as int);
}

/// Text that begins with a non-space keeps that character first when
/// trimmed.
pub proof fn lemma_trim_keeps_first(s: Seq<char>)
    requires
        s.len() > 0,
        !is_ws(s[0]),
    ensures
        trim(s).len() > 0,
        trim(s)[0] == s[0],
    decreases s.len(),
{
    if is_ws(s.last()) {
        assert(s.len() > 1);
        lemma_trim_keeps_first(s.drop_last());
    }
}


// ---------------------------------------------------------------------
// UTF-8 lengths
// ---------------------------------------------------------------------

/// The number of bytes of `c` in UTF-8 (`char::len_utf8`).
pub open spec fn utf8_width(c: char) -> nat {
    let u = c as u32;
    if u < 0x80 {
        1
    } else if u < 0x800 {
        2
    } else if u < 0x10000 {
        3
    } else {
        4
    }
}

/// The number of bytes of `s` in UTF-8 (`str::len`).
pub open spec fn utf8_len(s: Seq<char>) -> nat
    decreases s.len(),
{
    if s.len() == 0 {
        0
    } else {
        utf8_width(s[0]) + utf8_len(s.drop_first())
    }
}

pub proof fn lemma_utf8_len_concat(a: Seq<char>, b: Seq<char>)
    ensures
        utf8_len(a + b) == utf8_len(a) + utf8_len(b),
    decreases a.len(),
{
    if a.len() > 0 {
        assert((a + b).drop_first() =~= a.drop_first() + b);
        lemma_utf8_len_concat(a.drop_first(), b);
    } else {
        assert(a + b =~= b);
    }
}

/// Longer prefixes take more bytes.
pub proof fn lemma_utf8_len_prefix(s: Seq<char>, i: int, j: int)
    requires
        0 <= i < j <= s.len(),
    ensures
        utf8_len(s.take(i)) < utf8_len(s.take(j)),
{
    assert(s.take(j) =~= s.take(i) + s.subrange(i, j));
    lemma_utf8_len_concat(s.take(i), s.subrange(i, j));
    assert(utf8_len(s.subrange(i, j)) > 0);
}

/// The number of characters of `s` that fill its first `n` bytes, where a
/// character ends there.
pub open spec fn byte_cut(s: Seq<char>, n: int) -> Option<int> {
    if exists|j: int| 0 <= j <= s.len() && utf8_len(s.take(j)) == n {
        Some(choose|j: int| 0 <= j <= s.len() && utf8_len(s.take(j)) == n)
    } else {
        None
    }
}

pub fn char_utf8_width(c: char) -> (r: usize)
    ensures
        r == utf8_width(c),
{
    let u = c as u32;
    if u < 0x80 {
        1
    } else if u < 0x800 {
        2
    } else if u < 0x10000 {
        3
    } else {
        4
    }
}

/// The number of characters of `s` that fill its first `n` bytes.
pub fn byte_cut_in(s: &[char], n: usize) -> (r: Option<usize>)
    ensures
        opt_int(r) == byte_cut(s@, n as int),
{
    let mut j: usize = 0;
    let mut bytes: usize = 0;
    assert(s@.take(0) =~= Seq::<char>::empty());
    loop
        invariant
            j <= s.len(),
            bytes == utf8_len(s@.take(j as int)),
            bytes <= n,
            forall|k: int| 0 <= k < j ==> utf8_len(#[trigger] s@.take(k)) < n,
        decreases s.len() - j,
    {
        if bytes == n {
            assert forall|k: int|
                0 <= k <= s.len() && utf8_len(#[trigger] s@.take(k)) == n implies k == j by {
                if k < j {
                } else if k > j {
                    lemma_utf8_len_prefix(s@, j as int, k);
                }
            }
            return Some(j);
        }
        if j == s.len() {
            assert forall|k: int|
                0 <= k <= s.len() implies utf8_len(#[trigger] s@.take(k)) != n by {
                if k < j {
                }
            }
            return None;
        }
        let w = char_utf8_width(s[j]);
        proof {
            assert(s@.take(j + 1) =~= s@.take(j as int) + seq![s@[j as int]]);
            lemma_utf8_len_concat(s@.take(j as int), seq![s@[j as int]]);
            assert(utf8_len(seq![s@[j as int]]) == w) by {
                assert(seq![s@[j as int]].drop_first() =~= Seq::<char>::empty());
                assert(utf8_len(Seq::<char>::empty()) == 0);
                assert(seq![s@[j as int]][0] == s@[j as int]);
            }
        }
        if n - bytes < w {
            assert forall|k: int|
                0 <= k <= s.len() implies utf8_len(#[trigger] s@.take(k)) != n by {
                if k > j + 1 {
                    lemma_utf8_len_prefix(s@, j + 1, k);
                }
            }
            return None;
        }
        bytes = bytes + w;
        j = j + 1;
    }
}


// ---------------------------------------------------------------------
// Numbers
// ---------------------------------------------------------------------

/// The decimal digits of `n`, as `Display` writes an unsigned integer.
pub open spec fn decimal(n: nat) -> Seq<char>
    decreases n,
{
    if n < 10 {
        seq![(0x30 + n) as char]
    } else {
        decimal(n / 10) + seq![(0x30 + n % 10) as char]
    }
}

/// Writes `n` in decimal.
pub fn decimal_in(n: usize) -> (r: Vec<char>)
    ensures
        r@ == decimal(n as nat),
    decreases n,
{
    if n < 10 {
        let mut v: Vec<char> = Vec::new();
        v.push(((0x30 + n) as u8) as char);
        assert(v@ =~= decimal(n as nat));
        v
    } else {
        let mut v = decimal_in(n / 10);
        v.push(((0x30 + n % 10) as u8) as char);
        assert(v@ =~= decimal(n as nat));
        v
    }
}

} // verus!
