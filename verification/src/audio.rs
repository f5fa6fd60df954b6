//! The integer side of preparing a recording: which stretch of samples is
//! kept once the silence before and after the speech is cut away.
use vstd::prelude::*;

verus! {

/// The analysis window: 20 ms of samples, at least one.
pub open spec fn window_len(sample_rate: int) -> int {
    if sample_rate * 20 / 1000 >= 1 {
        sample_rate * 20 / 1000
    } else {
        1
    }
}

/// The padding kept around the speech: 80 ms of samples.
pub open spec fn padding_len(sample_rate: int) -> int {
    sample_rate * 80 / 1000
}

/// The number of windows that `len` samples make, the last one possibly
/// short.
pub open spec fn window_count(len: int, ws: int) -> int {
    (len + ws - 1) / ws
}

/// The first loud window, if any.
pub open spec fn first_loud(loud: Seq<bool>) -> Option<int>
    decreases loud.len(),
{
    if loud.len() == 0 {
        None
    } else if loud[0] {
        Some(0)
    } else {
        match first_loud(loud.drop_first()) {
            Some(i) => Some(i + 1),
            None => None,
        }
    }
}

/// The last loud window, if any.
pub open spec fn last_loud(loud: Seq<bool>) -> Option<int>
    decreases loud.len(),
{
    if loud.len() == 0 {
        None
    } else if loud.last() {
        Some(loud.len() - 1)
    } else {
        last_loud(loud.drop_last())
    }
}

pub proof fn lemma_first_loud(loud: Seq<bool>)
    ensures
        first_loud(loud) matches Some(i) ==> 0 <= i < loud.len() && loud[i] && forall|k: int|
            0 <= k < i ==> !loud[k],
        first_loud(loud) is None ==> forall|k: int| 0 <= k < loud.len() ==> !loud[k],
    decreases loud.len(),
{
    if loud.len() > 0 && !loud[0] {
        lemma_first_loud(loud.drop_first());
        assert forall|k: int| 1 <= k < loud.len() implies loud[k] == loud.drop_first()[k - 1] by {}
    }
}

pub proof fn lemma_last_loud(loud: Seq<bool>)
    ensures
        last_loud(loud) matches Some(i) ==> 0 <= i < loud.len() && loud[i] && forall|k: int|
            i < k < loud.len() ==> !loud[k],
        last_loud(loud) is None ==> forall|k: int| 0 <= k < loud.len() ==> !loud[k],
    decreases loud.len(),
{
    if loud.len() > 0 && !loud.last() {
        lemma_last_loud(loud.drop_last());
        assert forall|k: int| 0 <= k < loud.len() - 1 implies loud[k] == loud.drop_last()[k] by {}
    }
}

/// The stretch kept of `len` samples whose windows are loud where `loud`
/// says so: from 80 ms before the first loud window to 80 ms after the
/// last, within the recording; all of it where no window is loud, or where
/// the stretch would be empty.
pub open spec fn speech_span(len: int, sample_rate: int, loud: Seq<bool>) -> (int, int) {
    let ws = window_len(sample_rate);
    let pad = padding_len(sample_rate);
    match (first_loud(loud), last_loud(loud)) {
        (Some(f), Some(l)) => {
            let start = if f * ws >= pad {
                f * ws - pad
            } else {
                0
            };
            let chunk_end = if l * ws + ws <= len {
                l * ws + ws
            } else {
                len
            };
            let end = if chunk_end + pad <= len {
                chunk_end + pad
            } else {
                len
            };
            if start < end {
                (start, end)
            } else {
                (0, len)
            }
        },
        _ => (0, len),
    }
}

/// Finds the stretch of a recording to keep, given which of its 20 ms
/// windows are loud (their peak above the silence threshold).
pub fn speech_bounds(len: usize, sample_rate: usize, loud: &Vec<bool>) -> (r: (usize, usize))
    requires
        sample_rate * 80 <= usize::MAX,
        len + sample_rate <= usize::MAX,
        loud@.len() == window_count(len as int, window_len(sample_rate as int)),
    ensures
        (r.0 as int, r.1 as int) == speech_span(len as int, sample_rate as int, loud@),
        r.0 <= r.1 <= len,
        forall|i: int|
            0 <= i < loud@.len() && #[trigger] loud@[i] ==> r.0 <= i * window_len(sample_rate as int)
                && (if i * window_len(sample_rate as int) + window_len(sample_rate as int) <= len {
                i * window_len(sample_rate as int) + window_len(sample_rate as int)
            } else {
                len as int
            }) <= r.1,
{
    let ws0 = sample_rate * 20 / 1000;
    let ws: usize = if ws0 >= 1 {
        ws0
    } else {
        1
    };
    let pad: usize = sample_rate * 80 / 1000;
    let ghost g_ws = window_len(sample_rate as int);
    assert(ws == g_ws);
    proof {
        lemma_first_loud(loud@);
        lemma_last_loud(loud@);
        assert(loud@.len() * ws <= len + ws - 1) by (nonlinear_arith)
            requires
                loud@.len() == (len + ws - 1) / (ws as int),
                ws >= 1,
        ;
    }
    let mut first: usize = 0;
    while first < loud.len() && !loud[first]
        invariant
            first <= loud@.len(),
            forall|k: int| 0 <= k < first ==> !loud@[k],
        decreases loud@.len() - first,
    {
        first += 1;
    }
    if first == loud.len() {
        return (0, len);
    }
    assert(first_loud(loud@) == Some(first as int));
    let mut last: usize = loud.len() - 1;
    while !loud[last]
        invariant
            first <= last < loud@.len(),
            loud@[first as int],
            forall|k: int| last < k < loud@.len() ==> !loud@[k],
        decreases last,
    {
        last -= 1;
    }
    assert(last_loud(loud@) == Some(last as int));
    proof {
        assert(first * ws <= last * ws) by (nonlinear_arith)
            requires
                first <= last,
                ws >= 1,
        ;
        assert(last * ws + ws <= loud@.len() * ws) by (nonlinear_arith)
            requires
                last < loud@.len(),
                ws >= 1,
        ;
    }
    let first_start: usize = first * ws;
    let start: usize = if first_start >= pad {
        first_start - pad
    } else {
        0
    };
    let last_start: usize = last * ws;
    let chunk_end: usize = if last_start + ws <= len {
        last_start + ws
    } else {
        len
    };
    let end: usize = if chunk_end + pad <= len {
        chunk_end + pad
    } else {
        len
    };
    proof {
        assert forall|i: int|
            0 <= i < loud@.len() && #[trigger] loud@[i] implies start <= i * ws && (if i * ws + ws
            <= len {
            i * ws + ws
        } else {
            len as int
        }) <= end by {
            assert(first <= i <= last);
            assert(first * ws <= i * ws) by (nonlinear_arith)
                requires
                    first <= i,
                    ws >= 1,
            ;
            assert(i * ws <= last * ws) by (nonlinear_arith)
                requires
                    i <= last,
                    ws >= 1,
            ;
        }
    }
    if start < end {
        (start, end)
    } else {
        (0, len)
    }
}

/// The name of the WAV file that a recording is saved to, by the moment
/// it was stopped in milliseconds.
pub fn recording_file_name(millis: u128) -> (r: String)
    ensures
        r@ == "voce_recording_"@ + crate::text::decimal(millis as nat) + ".wav"@,
{
    let mut out: Vec<char> = Vec::new();
    crate::text::push_str(&mut out, "voce_recording_");
    let digits = decimal_u128(millis);
    crate::text::push_slice(&mut out, digits.as_slice());
    crate::text::push_str(&mut out, ".wav");
    crate::text::string_of(out.as_slice())
}

/// The name of the WAV file for a recording stopped now; nothing where
/// the clock is set before the Unix epoch.
pub fn new_recording_file_name() -> (r: Option<String>)
    ensures
        r matches Some(n) ==> exists|m: u128| n@ == "voce_recording_"@ + crate::text::decimal(
            m as nat,
        ) + ".wav"@,
{
    match crate::clock::millis_since_epoch() {
        Some(m) => Some(recording_file_name(m)),
        None => None,
    }
}

fn decimal_u128(n: u128) -> (r: Vec<char>)
    ensures
        r@ == crate::text::decimal(n as nat),
    decreases n,
{
    if n < 10 {
        let mut v: Vec<char> = Vec::new();
        v.push(((0x30 + n) as u8) as char);
        assert(v@ =~= crate::text::decimal(n as nat));
        v
    } else {
        let mut v = decimal_u128(n / 10);
        v.push(((0x30 + n % 10) as u8) as char);
        assert(v@ =~= crate::text::decimal(n as nat));
        v
    }
}

} // verus!
