//! The data model of the loader: field descriptors on one side, coerced
//! values on the other.
//!
//! A structure is described once, at definition time, by a [`StructSpec`]:
//! its identifier, its [`NamingOptions`](crate::name::NamingOptions) and an
//! ordered list of [`FieldSpec`]s.  A load operation turns such a
//! description into one [`FieldValue`] per field.  Values carry their own
//! mathematical shape ([`PrimV`], [`FieldV`]) as views, so contracts can
//! speak of them without mentioning `String` or `Vec`.

use vstd::prelude::*;

use crate::name::NamingOptions;

verus! {

/// The built-in primitive kinds a field can have.
#[derive(Debug, Clone, Copy, PartialEq, Eq)]
pub enum PrimitiveKind {
    Str,
    Bool,
    Char,
    I8,
    I16,
    I32,
    I64,
    I128,
    ISize,
    U8,
    U16,
    U32,
    U64,
    U128,
    USize,
}

/// The shape of a field: the structural classification that drives
/// coercion dispatch.
#[derive(Debug, PartialEq)]
pub enum Shape {
    /// A primitive whose variable must be present.
    Required(PrimitiveKind),
    /// A primitive whose variable may be absent; presence, even as the
    /// empty string, yields a value.
    Optional(PrimitiveKind),
    /// A comma-separated list of primitives; the variable must be present,
    /// and whitespace-only text denotes the empty list.
    List(PrimitiveKind),
    /// A nested structure, its fields scoped under this field's variable
    /// name; its own identifier and naming options are ignored.
    Nested(StructSpec),
    /// A nested structure that is absent as a whole when none of its
    /// fields' variables is present.
    OptionalNested(StructSpec),
}

/// One field of a structure: its identifier and its shape.
#[derive(Debug, PartialEq)]
pub struct FieldSpec {
    pub identifier: String,
    pub shape: Shape,
}

/// The full description of a structure: fixed at definition time, read at
/// every load.
#[derive(Debug, PartialEq)]
pub struct StructSpec {
    pub identifier: String,
    pub options: NamingOptions,
    pub fields: Vec<FieldSpec>,
}

/// One coerced primitive value.
#[derive(Debug, PartialEq)]
pub enum PrimValue {
    Str(String),
    Bool(bool),
    Char(char),
    I8(i8),
    I16(i16),
    I32(i32),
    I64(i64),
    I128(i128),
    ISize(isize),
    U8(u8),
    U16(u16),
    U32(u32),
    U64(u64),
    U128(u128),
    USize(usize),
}

/// One coerced field, mirroring [`Shape`].
#[derive(Debug, PartialEq)]
pub enum FieldValue {
    Prim(PrimValue),
    Opt(Option<PrimValue>),
    List(Vec<PrimValue>),
    Nested(Vec<FieldValue>),
    OptNested(Option<Vec<FieldValue>>),
}

/// The mathematical shape of a [`PrimValue`]: the same variants with text
/// as a character sequence.
pub enum PrimV {
    Str(Seq<char>),
    Bool(bool),
    Char(char),
    I8(i8),
    I16(i16),
    I32(i32),
    I64(i64),
    I128(i128),
    ISize(isize),
    U8(u8),
    U16(u16),
    U32(u32),
    U64(u64),
    U128(u128),
    USize(usize),
}

/// The mathematical shape of a [`FieldValue`].
pub enum FieldV {
    Prim(PrimV),
    Opt(Option<PrimV>),
    List(Seq<PrimV>),
    Nested(Seq<FieldV>),
    OptNested(Option<Seq<FieldV>>),
}

impl View for PrimValue {
    type V = PrimV;

    open spec fn view(&self) -> PrimV {
        match self {
            PrimValue::Str(s) => PrimV::Str(s@),
            PrimValue::Bool(b) => PrimV::Bool(*b),
            PrimValue::Char(c) => PrimV::Char(*c),
            PrimValue::I8(v) => PrimV::I8(*v),
            PrimValue::I16(v) => PrimV::I16(*v),
            PrimValue::I32(v) => PrimV::I32(*v),
            PrimValue::I64(v) => PrimV::I64(*v),
            PrimValue::I128(v) => PrimV::I128(*v),
            PrimValue::ISize(v) => PrimV::ISize(*v),
            PrimValue::U8(v) => PrimV::U8(*v),
            PrimValue::U16(v) => PrimV::U16(*v),
            PrimValue::U32(v) => PrimV::U32(*v),
            PrimValue::U64(v) => PrimV::U64(*v),
            PrimValue::U128(v) => PrimV::U128(*v),
            PrimValue::USize(v) => PrimV::USize(*v),
        }
    }
}

/// The view of one coerced field.
pub open spec fn field_value_view(v: FieldValue) -> FieldV
    decreases v,
{
    match v {
        FieldValue::Prim(p) => FieldV::Prim(p@),
        FieldValue::Opt(o) => FieldV::Opt(
            match o {
                Some(p) => Some(p@),
                None => None,
            },
        ),
        FieldValue::List(ps) => FieldV::List(ps@.map_values(|p: PrimValue| p@)),
        FieldValue::Nested(vs) => FieldV::Nested(field_values_view(vs@)),
        FieldValue::OptNested(o) => FieldV::OptNested(
            match o {
                Some(vs) => Some(field_values_view(vs@)),
                None => None,
            },
        ),
    }
}

/// The views of a sequence of coerced fields, in order.
pub open spec fn field_values_view(vs: Seq<FieldValue>) -> Seq<FieldV>
    decreases vs,
{
    if vs.len() == 0 {
        Seq::empty()
    } else {
        seq![field_value_view(vs[0])] + field_values_view(vs.skip(1))
    }
}

/// Viewing a field sequence is viewing each field.
pub proof fn lemma_field_values_view(vs: Seq<FieldValue>)
    ensures
        field_values_view(vs).len() == vs.len(),
        forall|i: int| 0 <= i < vs.len() ==> field_values_view(vs)[i] == field_value_view(
            #[trigger] vs[i],
        ),
    decreases vs.len(),
{
    if vs.len() > 0 {
        lemma_field_values_view(vs.skip(1));
        assert(forall|i: int| 1 <= i < vs.len() ==> vs.skip(1)[i - 1] == #[trigger] vs[i]);
    }
}

impl View for FieldValue {
    type V = FieldV;

    open spec fn view(&self) -> FieldV {
        field_value_view(*self)
    }
}

} // verus!
