//! Coercion of one variable's text into one typed value, dispatched on the
//! field's [`PrimitiveKind`].
//!
//! [`coerce_prim`] handles a scalar; [`coerce_list`] handles a
//! comma-separated list, reporting the zero-based index and stringified
//! cause of the first failing element.  Both are specified against a
//! functional model (`spec_coerce_prim`, `spec_coerce_list`) that the
//! loader's contracts build on.

use vstd::prelude::*;

use crate::errors::ParseErrView;
use crate::errors::ParseError;
use crate::list::spec_list_items;
use crate::list::split_chars;
use crate::parse::bool_err_text;
use crate::parse::char_err_text;
use crate::parse::int_err_text;
use crate::parse::spec_bool_err_text;
use crate::parse::spec_char_err_text;
use crate::parse::spec_int_err_text;
use crate::parse::spec_parse_bool;
use crate::parse::spec_parse_char;
use crate::parse::spec_parse_ranged;
use crate::parse::FromText;
use crate::parse::parse_bool;
use crate::parse::parse_char;
use crate::text::chars_to_string;
use crate::text::spec_trim;
use crate::text::str_chars;
use crate::text::trim_chars;
use crate::values::PrimV;
use crate::values::PrimValue;
use crate::values::PrimitiveKind;

verus! {

/// The outcome of coercing the text of a present variable to one scalar of
/// the given kind.
pub open spec fn spec_coerce_prim(kind: PrimitiveKind, text: Seq<char>) -> Result<
    PrimV,
    ParseErrView,
> {
    match kind {
        PrimitiveKind::Str => Ok(PrimV::Str(text)),
        PrimitiveKind::Bool => match spec_parse_bool(text) {
            Some(b) => Ok(PrimV::Bool(b)),
            None => Err(ParseErrView::Bool(text)),
        },
        PrimitiveKind::Char => match spec_parse_char(spec_trim(text)) {
            Some(c) => Ok(PrimV::Char(c)),
            None => Err(ParseErrView::Char(text)),
        },
        PrimitiveKind::I8 => match spec_parse_ranged(text, true, i8::MIN as int, i8::MAX as int) {
            Some(v) => Ok(PrimV::I8(v as i8)),
            None => Err(ParseErrView::Int(text)),
        },
        PrimitiveKind::I16 => match spec_parse_ranged(
            text,
            true,
            i16::MIN as int,
            i16::MAX as int,
        ) {
            Some(v) => Ok(PrimV::I16(v as i16)),
            None => Err(ParseErrView::Int(text)),
        },
        PrimitiveKind::I32 => match spec_parse_ranged(
            text,
            true,
            i32::MIN as int,
            i32::MAX as int,
        ) {
            Some(v) => Ok(PrimV::I32(v as i32)),
            None => Err(ParseErrView::Int(text)),
        },
        PrimitiveKind::I64 => match spec_parse_ranged(
            text,
            true,
            i64::MIN as int,
            i64::MAX as int,
        ) {
            Some(v) => Ok(PrimV::I64(v as i64)),
            None => Err(ParseErrView::Int(text)),
        },
        PrimitiveKind::I128 => match spec_parse_ranged(
            text,
            true,
            i128::MIN as int,
            i128::MAX as int,
        ) {
            Some(v) => Ok(PrimV::I128(v as i128)),
            None => Err(ParseErrView::Int(text)),
        },
        PrimitiveKind::ISize => match spec_parse_ranged(
            text,
            true,
            isize::MIN as int,
            isize::MAX as int,
        ) {
            Some(v) => Ok(PrimV::ISize(v as isize)),
            None => Err(ParseErrView::Int(text)),
        },
        PrimitiveKind::U8 => match spec_parse_ranged(text, false, 0, u8::MAX as int) {
            Some(v) => Ok(PrimV::U8(v as u8)),
            None => Err(ParseErrView::Int(text)),
        },
        PrimitiveKind::U16 => match spec_parse_ranged(text, false, 0, u16::MAX as int) {
            Some(v) => Ok(PrimV::U16(v as u16)),
            None => Err(ParseErrView::Int(text)),
        },
        PrimitiveKind::U32 => match spec_parse_ranged(text, false, 0, u32::MAX as int) {
            Some(v) => Ok(PrimV::U32(v as u32)),
            None => Err(ParseErrView::Int(text)),
        },
        PrimitiveKind::U64 => match spec_parse_ranged(text, false, 0, u64::MAX as int) {
            Some(v) => Ok(PrimV::U64(v as u64)),
            None => Err(ParseErrView::Int(text)),
        },
        PrimitiveKind::U128 => match spec_parse_ranged(text, false, 0, u128::MAX as int) {
            Some(v) => Ok(PrimV::U128(v as u128)),
            None => Err(ParseErrView::Int(text)),
        },
        PrimitiveKind::USize => match spec_parse_ranged(text, false, 0, usize::MAX as int) {
            Some(v) => Ok(PrimV::USize(v as usize)),
            None => Err(ParseErrView::Int(text)),
        },
    }
}

/// The stringified cause reported for a failing list element of the given
/// kind.
pub open spec fn spec_elem_err_text(kind: PrimitiveKind, text: Seq<char>) -> Seq<char> {
    match kind {
        PrimitiveKind::Str => Seq::empty(),
        PrimitiveKind::Bool => spec_bool_err_text(text),
        PrimitiveKind::Char => spec_char_err_text(text),
        _ => spec_int_err_text(text),
    }
}

/// The index of the first list item whose text does not coerce to the
/// given kind; `items.len()` when all coerce.
pub open spec fn first_bad_item(kind: PrimitiveKind, items: Seq<Seq<char>>) -> nat
    decreases items.len(),
{
    if items.len() == 0 {
        0
    } else if spec_coerce_prim(kind, items[0]) is Err {
        0
    } else {
        1 + first_bad_item(kind, items.skip(1))
    }
}

/// The values of the list items, meaningful where every item coerces.
pub open spec fn spec_list_values(kind: PrimitiveKind, items: Seq<Seq<char>>) -> Seq<PrimV>
    decreases items.len(),
{
    if items.len() == 0 {
        Seq::empty()
    } else {
        seq![spec_coerce_prim(kind, items[0])->Ok_0] + spec_list_values(kind, items.skip(1))
    }
}

/// The outcome of coercing the text of a present list variable:
/// whitespace-only text is the empty list; otherwise the trimmed
/// comma-separated items are coerced independently, and the first failing
/// item aborts the list with its index and stringified cause.
pub open spec fn spec_coerce_list(kind: PrimitiveKind, text: Seq<char>) -> Result<
    Seq<PrimV>,
    ParseErrView,
> {
    if spec_trim(text).len() == 0 {
        Ok(Seq::empty())
    } else {
        let items = spec_list_items(text);
        let k = first_bad_item(kind, items);
        if k >= items.len() {
            Ok(spec_list_values(kind, items))
        } else {
            Err(
                ParseErrView::VecElem {
                    index: k as int,
                    error: spec_elem_err_text(kind, items[k as int]),
                },
            )
        }
    }
}

proof fn lemma_first_bad_item_at(kind: PrimitiveKind, items: Seq<Seq<char>>, m: nat)
    requires
        m <= items.len(),
        forall|j: int| 0 <= j < m ==> spec_coerce_prim(kind, #[trigger] items[j]) is Ok,
        m < items.len() ==> spec_coerce_prim(kind, items[m as int]) is Err,
    ensures
        first_bad_item(kind, items) == m,
    decreases m,
{
    if m == 0 {
    } else {
        let t = items.skip(1);
        assert(forall|j: int| 0 <= j < m - 1 ==> t[j] == items[j + 1]
            && spec_coerce_prim(kind, #[trigger] t[j]) is Ok);
        if m < items.len() {
            assert(t[m - 1] == items[m as int]);
        }
        lemma_first_bad_item_at(kind, t, (m - 1) as nat);
    }
}

proof fn lemma_list_values_index(kind: PrimitiveKind, items: Seq<Seq<char>>)
    ensures
        spec_list_values(kind, items).len() == items.len(),
        forall|i: int| 0 <= i < items.len() ==> spec_list_values(kind, items)[i]
            == spec_coerce_prim(kind, #[trigger] items[i])->Ok_0,
    decreases items.len(),
{
    if items.len() > 0 {
        lemma_list_values_index(kind, items.skip(1));
        assert(forall|i: int| 1 <= i < items.len() ==> items.skip(1)[i - 1] == #[trigger] items[i]);
    }
}

/// Coerces the text of a present variable to one scalar of the given kind.
pub fn coerce_prim(kind: PrimitiveKind, text: &str) -> (r: Result<PrimValue, ParseError>)
    ensures
        match r {
            Ok(v) => spec_coerce_prim(kind, text@) == Ok::<PrimV, ParseErrView>(v@),
            Err(e) => spec_coerce_prim(kind, text@) == Err::<PrimV, ParseErrView>(e@),
        },
{
    match kind {
        PrimitiveKind::Str => Ok(PrimValue::Str(String::from_str(text))),
        PrimitiveKind::Bool => match parse_bool(text) {
            Ok(b) => Ok(PrimValue::Bool(b)),
            Err(e) => Err(e),
        },
        PrimitiveKind::Char => match parse_char(text) {
            Ok(c) => Ok(PrimValue::Char(c)),
            Err(e) => Err(e),
        },
        PrimitiveKind::I8 => match <i8 as FromText>::from_text(text) {
            Ok(v) => Ok(PrimValue::I8(v)),
            Err(_) => Err(ParseError::ParseInt(String::from_str(text))),
        },
        PrimitiveKind::I16 => match <i16 as FromText>::from_text(text) {
            Ok(v) => Ok(PrimValue::I16(v)),
            Err(_) => Err(ParseError::ParseInt(String::from_str(text))),
        },
        PrimitiveKind::I32 => match <i32 as FromText>::from_text(text) {
            Ok(v) => Ok(PrimValue::I32(v)),
            Err(_) => Err(ParseError::ParseInt(String::from_str(text))),
        },
        PrimitiveKind::I64 => match <i64 as FromText>::from_text(text) {
            Ok(v) => Ok(PrimValue::I64(v)),
            Err(_) => Err(ParseError::ParseInt(String::from_str(text))),
        },
        PrimitiveKind::I128 => match <i128 as FromText>::from_text(text) {
            Ok(v) => Ok(PrimValue::I128(v)),
            Err(_) => Err(ParseError::ParseInt(String::from_str(text))),
        },
        PrimitiveKind::ISize => match <isize as FromText>::from_text(text) {
            Ok(v) => Ok(PrimValue::ISize(v)),
            Err(_) => Err(ParseError::ParseInt(String::from_str(text))),
        },
        PrimitiveKind::U8 => match <u8 as FromText>::from_text(text) {
            Ok(v) => Ok(PrimValue::U8(v)),
            Err(_) => Err(ParseError::ParseInt(String::from_str(text))),
        },
        PrimitiveKind::U16 => match <u16 as FromText>::from_text(text) {
            Ok(v) => Ok(PrimValue::U16(v)),
            Err(_) => Err(ParseError::ParseInt(String::from_str(text))),
        },
        PrimitiveKind::U32 => match <u32 as FromText>::from_text(text) {
            Ok(v) => Ok(PrimValue::U32(v)),
            Err(_) => Err(ParseError::ParseInt(String::from_str(text))),
        },
        PrimitiveKind::U64 => match <u64 as FromText>::from_text(text) {
            Ok(v) => Ok(PrimValue::U64(v)),
            Err(_) => Err(ParseError::ParseInt(String::from_str(text))),
        },
        PrimitiveKind::U128 => match <u128 as FromText>::from_text(text) {
            Ok(v) => Ok(PrimValue::U128(v)),
            Err(_) => Err(ParseError::ParseInt(String::from_str(text))),
        },
        PrimitiveKind::USize => match <usize as FromText>::from_text(text) {
            Ok(v) => Ok(PrimValue::USize(v)),
            Err(_) => Err(ParseError::ParseInt(String::from_str(text))),
        },
    }
}

/// The stringified cause for a list element of the given kind.
fn elem_err_text(kind: PrimitiveKind, text: &str) -> (r: String)
    ensures
        r@ == spec_elem_err_text(kind, text@),
{
    match kind {
        PrimitiveKind::Str => {
            let r = String::new();
            proof {
                assert(r@ =~= Seq::<char>::empty());
            }
            r
        },
        PrimitiveKind::Bool => bool_err_text(text),
        PrimitiveKind::Char => char_err_text(text),
        _ => int_err_text(text),
    }
}

/// Coerces the text of a present list variable to a list of scalars of the
/// given kind.
pub fn coerce_list(kind: PrimitiveKind, text: &str) -> (r: Result<Vec<PrimValue>, ParseError>)
    ensures
        match r {
            Ok(v) => spec_coerce_list(kind, text@) == Ok::<Seq<PrimV>, ParseErrView>(
                v@.map_values(|p: PrimValue| p@),
            ),
            Err(e) => spec_coerce_list(kind, text@) == Err::<Seq<PrimV>, ParseErrView>(e@),
        },
{
    let cs = str_chars(text);
    let trimmed = trim_chars(&cs);
    if trimmed.len() == 0 {
        let r: Vec<PrimValue> = Vec::new();
        proof {
            assert(r@.map_values(|p: PrimValue| p@) =~= Seq::<PrimV>::empty());
        }
        return Ok(r);
    }
    let segs = split_chars(&cs);
    let ghost items = spec_list_items(text@);
    proof {
        assert(items.len() == segs@.len());
    }
    let mut out: Vec<PrimValue> = Vec::new();
    let mut i: usize = 0;
    while i < segs.len()
        invariant
            i <= segs.len(),
            segs@.map_values(|v: Vec<char>| v@) == crate::list::spec_split(text@),
            items == spec_list_items(text@),
            items.len() == segs@.len(),
            spec_trim(text@).len() > 0,
            out@.len() == i,
            forall|j: int|
                0 <= j < i ==> spec_coerce_prim(kind, #[trigger] items[j]) is Ok && out@[j]@
                    == spec_coerce_prim(kind, items[j])->Ok_0,
        decreases segs.len() - i,
    {
        let t = trim_chars(&segs[i]);
        let ts = chars_to_string(&t);
        proof {
            assert(items[i as int] == spec_trim(segs@[i as int]@));
        }
        match coerce_prim(kind, ts.as_str()) {
            Ok(v) => {
                out.push(v);
            },
            Err(_) => {
                proof {
                    lemma_first_bad_item_at(kind, items, i as nat);
                }
                let m = elem_err_text(kind, ts.as_str());
                return Err(ParseError::ParseVec { index: i, error: m });
            },
        }
        i += 1;
    }
    proof {
        lemma_first_bad_item_at(kind, items, items.len());
        lemma_list_values_index(kind, items);
        let lhs = out@.map_values(|p: PrimValue| p@);
        let rhs = spec_list_values(kind, items);
        assert forall|j: int| 0 <= j < lhs.len() implies lhs[j] == rhs[j] by {
            assert(spec_coerce_prim(kind, items[j]) is Ok);
            assert(rhs[j] == spec_coerce_prim(kind, items[j])->Ok_0);
        }
        assert(out@.map_values(|p: PrimValue| p@) =~= spec_list_values(kind, items));
    }
    Ok(out)
}

} // verus!
