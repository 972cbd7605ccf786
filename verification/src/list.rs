//! The list half of the value coercer.
//!
//! A present list variable is split on commas, each segment is trimmed of
//! surrounding whitespace, and the segments are parsed independently; the
//! first failing segment aborts the list with its zero-based index and its
//! stringified cause.  A value that is entirely whitespace denotes the
//! empty list, not a one-element list holding an empty string.

use vstd::prelude::*;

use crate::errors::ParseErrView;
use crate::errors::ParseError;
use crate::parse::FromText;
use crate::text::chars_to_string;
use crate::text::spec_trim;
use crate::text::str_chars;
use crate::text::trim_chars;

verus! {

// ---------------------------------------------------------------------------
// Splitting on commas
// ---------------------------------------------------------------------------

/// The index of the first comma in `s`, or `s.len()` when there is none.
pub open spec fn first_comma(s: Seq<char>) -> nat
    decreases s.len(),
{
    if s.len() == 0 {
        0
    } else if s[0] == ',' {
        0
    } else {
        1 + first_comma(s.skip(1))
    }
}

/// The comma-separated segments of `s`, commas excluded; text without a
/// comma is a single segment, the empty text included.
pub open spec fn spec_split(s: Seq<char>) -> Seq<Seq<char>>
    decreases s.len(),
{
    let i = first_comma(s);
    if i >= s.len() {
        seq![s]
    } else {
        seq![s.take(i as int)] + spec_split(s.skip(i as int + 1))
    }
}

proof fn lemma_first_comma_at(s: Seq<char>, m: nat)
    requires
        m <= s.len(),
        forall|j: int| 0 <= j < m ==> s[j] != ',',
        m < s.len() ==> s[m as int] == ',',
    ensures
        first_comma(s) == m,
    decreases m,
{
    if m == 0 {
    } else {
        assert(s[0] != ',');
        let t = s.skip(1);
        assert(forall|j: int| 0 <= j < m - 1 ==> t[j] == s[j + 1] && #[trigger] t[j] != ',');
        if m < s.len() {
            assert(t[m - 1] == s[m as int]);
        }
        lemma_first_comma_at(t, (m - 1) as nat);
    }
}

/// Executable form of [`spec_split`].
pub(crate) fn split_chars(s: &Vec<char>) -> (r: Vec<Vec<char>>)
    ensures
        r@.map_values(|v: Vec<char>| v@) == spec_split(s@),
{
    let mut out: Vec<Vec<char>> = Vec::new();
    let mut cur: Vec<char> = Vec::new();
    let mut seg_start: usize = 0;
    let mut j: usize = 0;
    proof {
        assert(s@.skip(0) =~= s@);
    }
    while j < s.len()
        invariant
            seg_start <= j <= s.len(),
            cur@ == s@.subrange(seg_start as int, j as int),
            forall|k: int| seg_start <= k < j ==> s@[k] != ',',
            spec_split(s@) =~= out@.map_values(|v: Vec<char>| v@) + spec_split(
                s@.skip(seg_start as int),
            ),
        decreases s.len() - j,
    {
        if s[j] == ',' {
            proof {
                let tail = s@.skip(seg_start as int);
                assert(forall|k: int| 0 <= k < j - seg_start ==> tail[k] == s@[k + seg_start]
                    && #[trigger] tail[k] != ',');
                assert(tail[j - seg_start as int] == s@[j as int]);
                lemma_first_comma_at(tail, (j - seg_start) as nat);
                assert(tail.take(j - seg_start as int) =~= cur@);
                assert(tail.skip(j - seg_start as int + 1) =~= s@.skip(j as int + 1));
            }
            let ghost old_out = out@;
            out.push(cur);
            proof {
                assert(out@.map_values(|v: Vec<char>| v@) =~= old_out.map_values(
                    |v: Vec<char>| v@,
                ).push(cur@));
            }
            cur = Vec::new();
            seg_start = j + 1;
            proof {
                assert(cur@ =~= s@.subrange(seg_start as int, j as int + 1));
            }
        } else {
            cur.push(s[j]);
            proof {
                assert(cur@ =~= s@.subrange(seg_start as int, j as int + 1));
            }
        }
        j += 1;
    }
    proof {
        let tail = s@.skip(seg_start as int);
        assert(forall|k: int| 0 <= k < s@.len() - seg_start ==> tail[k] == s@[k + seg_start]
            && #[trigger] tail[k] != ',');
        lemma_first_comma_at(tail, (s@.len() - seg_start) as nat);
        assert(tail =~= cur@);
    }
    let ghost old_out = out@;
    out.push(cur);
    proof {
        assert(out@.map_values(|v: Vec<char>| v@) =~= old_out.map_values(|v: Vec<char>| v@).push(
            cur@,
        ));
        assert(out@.map_values(|v: Vec<char>| v@) =~= spec_split(s@));
    }
    out
}

// ---------------------------------------------------------------------------
// List parsing
// ---------------------------------------------------------------------------

/// The trimmed comma-separated items of a list value.
pub open spec fn spec_list_items(s: Seq<char>) -> Seq<Seq<char>> {
    spec_split(s).map_values(|seg: Seq<char>| spec_trim(seg))
}

/// Whether the list text parses as a whole: it is entirely whitespace (the
/// empty list) or every trimmed item denotes a value of kind `T`.
pub open spec fn spec_list_ok<T: FromText>(s: Seq<char>) -> bool {
    spec_trim(s).len() == 0 || forall|i: int|
        0 <= i < spec_list_items(s).len() ==> T::text_ok(#[trigger] spec_list_items(s)[i])
}

/// Parses comma-separated text into values of any kind that can be parsed
/// from text.
fn parse_vec_from_text<T: FromText>(s: &str) -> (r: Result<Vec<T>, ParseError>)
    ensures
        (r is Ok) == spec_list_ok::<T>(s@),
        match r {
            Ok(v) => if spec_trim(s@).len() == 0 {
                v@ == Seq::<T>::empty()
            } else {
                v@.len() == spec_list_items(s@).len() && forall|i: int|
                    0 <= i < v@.len() ==> T::is_value_of(spec_list_items(s@)[i], #[trigger] v@[i])
            },
            Err(e) => exists|k: int|
                {
                    &&& 0 <= k < spec_list_items(s@).len()
                    &&& forall|j: int|
                        0 <= j < k ==> T::text_ok(#[trigger] spec_list_items(s@)[j])
                    &&& !T::text_ok(spec_list_items(s@)[k])
                    &&& e@ == (ParseErrView::VecElem {
                        index: k,
                        error: T::spec_err_text(spec_list_items(s@)[k]),
                    })
                },
        },
{
    let cs = str_chars(s);
    let trimmed = trim_chars(&cs);
    if trimmed.len() == 0 {
        return Ok(Vec::new());
    }
    let segs = split_chars(&cs);
    let mut out: Vec<T> = Vec::new();
    let mut i: usize = 0;
    while i < segs.len()
        invariant
            i <= segs.len(),
            segs@.map_values(|v: Vec<char>| v@) == spec_split(s@),
            spec_trim(s@).len() > 0,
            out@.len() == i,
            forall|j: int|
                0 <= j < i ==> T::text_ok(#[trigger] spec_list_items(s@)[j]) && T::is_value_of(
                    spec_list_items(s@)[j],
                    out@[j],
                ),
        decreases segs.len() - i,
    {
        let t = trim_chars(&segs[i]);
        let ts = chars_to_string(&t);
        proof {
            assert(spec_list_items(s@)[i as int] == spec_trim(segs@[i as int]@));
        }
        match T::from_text(ts.as_str()) {
            Ok(v) => {
                out.push(v);
            },
            Err(m) => {
                return Err(ParseError::ParseVec { index: i, error: m });
            },
        }
        i += 1;
    }
    Ok(out)
}

/// Parses a comma-separated list of strings; each segment is trimmed and
/// kept as it is, and this never fails.
pub fn parse_vec_string(s: &str) -> (r: Result<Vec<String>, ParseError>)
    ensures
        r is Ok,
        match r {
            Ok(v) => if spec_trim(s@).len() == 0 {
                v@.len() == 0
            } else {
                v@.len() == spec_list_items(s@).len() && forall|i: int|
                    0 <= i < v@.len() ==> (#[trigger] v@[i])@ == spec_list_items(s@)[i]
            },
            Err(_) => false,
        },
{
    let r = parse_vec_from_text::<String>(s);
    r
}

/// Parses a comma-separated list of integers of any built-in width.
pub fn parse_vec_int<T: FromText>(s: &str) -> (r: Result<Vec<T>, ParseError>)
    ensures
        (r is Ok) == spec_list_ok::<T>(s@),
        match r {
            Ok(v) => if spec_trim(s@).len() == 0 {
                v@ == Seq::<T>::empty()
            } else {
                v@.len() == spec_list_items(s@).len() && forall|i: int|
                    0 <= i < v@.len() ==> T::is_value_of(spec_list_items(s@)[i], #[trigger] v@[i])
            },
            Err(e) => exists|k: int|
                {
                    &&& 0 <= k < spec_list_items(s@).len()
                    &&& forall|j: int|
                        0 <= j < k ==> T::text_ok(#[trigger] spec_list_items(s@)[j])
                    &&& !T::text_ok(spec_list_items(s@)[k])
                    &&& e@ == (ParseErrView::VecElem {
                        index: k,
                        error: T::spec_err_text(spec_list_items(s@)[k]),
                    })
                },
        },
{
    parse_vec_from_text::<T>(s)
}

/// Parses a comma-separated list through the generic text conversion; the
/// counterpart of [`parse_vec_int`] for fractional kinds, kept as its own
/// entry point for parity with the scalar dispatch.
pub fn parse_vec_float<T: FromText>(s: &str) -> (r: Result<Vec<T>, ParseError>)
    ensures
        (r is Ok) == spec_list_ok::<T>(s@),
        match r {
            Ok(v) => if spec_trim(s@).len() == 0 {
                v@ == Seq::<T>::empty()
            } else {
                v@.len() == spec_list_items(s@).len() && forall|i: int|
                    0 <= i < v@.len() ==> T::is_value_of(spec_list_items(s@)[i], #[trigger] v@[i])
            },
            Err(e) => exists|k: int|
                {
                    &&& 0 <= k < spec_list_items(s@).len()
                    &&& forall|j: int|
                        0 <= j < k ==> T::text_ok(#[trigger] spec_list_items(s@)[j])
                    &&& !T::text_ok(spec_list_items(s@)[k])
                    &&& e@ == (ParseErrView::VecElem {
                        index: k,
                        error: T::spec_err_text(spec_list_items(s@)[k]),
                    })
                },
        },
{
    parse_vec_from_text::<T>(s)
}

/// Parses a comma-separated list of booleans.
pub fn parse_vec_bool(s: &str) -> (r: Result<Vec<bool>, ParseError>)
    ensures
        (r is Ok) == spec_list_ok::<bool>(s@),
        match r {
            Ok(v) => if spec_trim(s@).len() == 0 {
                v@ == Seq::<bool>::empty()
            } else {
                v@.len() == spec_list_items(s@).len() && forall|i: int|
                    0 <= i < v@.len() ==> <bool as FromText>::is_value_of(
                        spec_list_items(s@)[i],
                        #[trigger] v@[i],
                    )
            },
            Err(e) => exists|k: int|
                {
                    &&& 0 <= k < spec_list_items(s@).len()
                    &&& forall|j: int|
                        0 <= j < k ==> <bool as FromText>::text_ok(
                            #[trigger] spec_list_items(s@)[j],
                        )
                    &&& !<bool as FromText>::text_ok(spec_list_items(s@)[k])
                    &&& e@ == (ParseErrView::VecElem {
                        index: k,
                        error: <bool as FromText>::spec_err_text(spec_list_items(s@)[k]),
                    })
                },
        },
{
    parse_vec_from_text::<bool>(s)
}

/// Parses a comma-separated list of single characters.
pub fn parse_vec_char(s: &str) -> (r: Result<Vec<char>, ParseError>)
    ensures
        (r is Ok) == spec_list_ok::<char>(s@),
        match r {
            Ok(v) => if spec_trim(s@).len() == 0 {
                v@ == Seq::<char>::empty()
            } else {
                v@.len() == spec_list_items(s@).len() && forall|i: int|
                    0 <= i < v@.len() ==> <char as FromText>::is_value_of(
                        spec_list_items(s@)[i],
                        #[trigger] v@[i],
                    )
            },
            Err(e) => exists|k: int|
                {
                    &&& 0 <= k < spec_list_items(s@).len()
                    &&& forall|j: int|
                        0 <= j < k ==> <char as FromText>::text_ok(
                            #[trigger] spec_list_items(s@)[j],
                        )
                    &&& !<char as FromText>::text_ok(spec_list_items(s@)[k])
                    &&& e@ == (ParseErrView::VecElem {
                        index: k,
                        error: <char as FromText>::spec_err_text(spec_list_items(s@)[k]),
                    })
                },
        },
{
    parse_vec_from_text::<char>(s)
}

} // verus!
