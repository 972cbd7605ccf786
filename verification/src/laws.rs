//! General properties of the name deriver and the loader, stated once and
//! proved for all inputs.

use vstd::prelude::*;

use crate::coerce::spec_coerce_prim;
use crate::env::spec_lookup;
use crate::errors::ErrView;
use crate::text::spec_trim;
use crate::loader::lemma_outcome_unroll;
use crate::loader::spec_field_outcome;
use crate::loader::spec_field_var;
use crate::loader::spec_fields_outcome_from;
use crate::loader::spec_load;
use crate::name::NamingOptions;
use crate::name::spec_derive_name;
use crate::name::spec_env_case;
use crate::name::spec_scope;
use crate::text::upper_char;
use crate::text::upper_text;
use crate::values::FieldSpec;
use crate::values::FieldV;
use crate::values::PrimV;
use crate::values::PrimitiveKind;
use crate::values::Shape;
use crate::values::StructSpec;

verus! {

/// With no separator configured, converting an identifier inserts nothing:
/// it is plain character-wise uppercasing.
pub proof fn lemma_env_case_no_separator(s: Seq<char>)
    ensures
        spec_env_case(s, Seq::empty()) == upper_text(s),
    decreases s.len(),
{
    if s.len() == 0 {
        assert(spec_env_case(s, Seq::empty()) =~= upper_text(s));
    } else {
        lemma_env_case_no_separator(s.drop_last());
        assert(upper_text(s) =~= upper_text(s.drop_last()).push(upper_char(s.last())));
    }
}

/// With no configured separator and no prefix, the derived name of a field
/// is exactly `STRUCTNAME_FIELDNAME`: both identifiers uppercased, joined
/// by one underscore, with nothing inserted between camel-case words.
pub proof fn lemma_derive_name_no_options(
    ident: Seq<char>,
    options: NamingOptions,
    field: Seq<char>,
)
    requires
        options.prefix@ == Seq::<char>::empty(),
        options.word_separator@ == Seq::<char>::empty(),
    ensures
        spec_derive_name(ident, options, field, None) == upper_text(ident) + seq!['_']
            + upper_text(field),
{
    lemma_env_case_no_separator(ident);
    assert(spec_derive_name(ident, options, field, None) =~= upper_text(ident) + seq!['_']
        + upper_text(field));
}

/// Every derived name begins with the structure's scope, so the structure
/// segment of a name does not depend on which field it is derived for.
pub proof fn lemma_name_begins_with_scope(
    ident: Seq<char>,
    options: NamingOptions,
    field: Seq<char>,
    ovr: Option<Seq<char>>,
)
    ensures
        spec_derive_name(ident, options, field, ovr).take(
            spec_scope(ident, options, ovr).len() as int,
        ) == spec_scope(ident, options, ovr),
{
    assert(spec_derive_name(ident, options, field, ovr).take(
        spec_scope(ident, options, ovr).len() as int,
    ) =~= spec_scope(ident, options, ovr));
}

/// Loading a required primitive field gives back exactly the value that
/// the variable's text denotes: binding the derived variable to a valid
/// textual representation of a value and loading yields that value.
pub proof fn lemma_required_roundtrip(
    env: Seq<(Seq<char>, Seq<char>)>,
    scope: Seq<char>,
    f: FieldSpec,
    kind: PrimitiveKind,
    text: Seq<char>,
    v: PrimV,
)
    requires
        f.shape == Shape::Required(kind),
        spec_lookup(env, spec_field_var(scope, f.identifier@)) == Some(text),
        spec_coerce_prim(kind, text) == Ok::<PrimV, crate::errors::ParseErrView>(v),
    ensures
        spec_field_outcome(env, scope, f) == Ok::<FieldV, ErrView>(FieldV::Prim(v)),
{
}

/// An optional field whose variable is absent loads as `None`, with no
/// error.
pub proof fn lemma_optional_absent(
    env: Seq<(Seq<char>, Seq<char>)>,
    scope: Seq<char>,
    f: FieldSpec,
    kind: PrimitiveKind,
)
    requires
        f.shape == Shape::Optional(kind),
        spec_lookup(env, spec_field_var(scope, f.identifier@)) is None,
    ensures
        spec_field_outcome(env, scope, f) == Ok::<FieldV, ErrView>(FieldV::Opt(None)),
{
}

/// An optional field whose variable is present loads as `Some` of the
/// denoted value; the empty string is present, so an optional string
/// field loads the empty string as `Some("")`.
pub proof fn lemma_optional_present(
    env: Seq<(Seq<char>, Seq<char>)>,
    scope: Seq<char>,
    f: FieldSpec,
    kind: PrimitiveKind,
    text: Seq<char>,
    v: PrimV,
)
    requires
        f.shape == Shape::Optional(kind),
        spec_lookup(env, spec_field_var(scope, f.identifier@)) == Some(text),
        spec_coerce_prim(kind, text) == Ok::<PrimV, crate::errors::ParseErrView>(v),
    ensures
        spec_field_outcome(env, scope, f) == Ok::<FieldV, ErrView>(FieldV::Opt(Some(v))),
{
}

/// A list field whose variable is absent is a missing-variable error, not
/// an empty list.
pub proof fn lemma_list_absent(
    env: Seq<(Seq<char>, Seq<char>)>,
    scope: Seq<char>,
    f: FieldSpec,
    kind: PrimitiveKind,
)
    requires
        f.shape == Shape::List(kind),
        spec_lookup(env, spec_field_var(scope, f.identifier@)) is None,
    ensures
        spec_field_outcome(env, scope, f) == Err::<FieldV, ErrView>(
            ErrView::Missing(spec_field_var(scope, f.identifier@)),
        ),
{
}

/// A list field whose variable is present but entirely whitespace loads
/// as the empty list, whatever the element kind.
pub proof fn lemma_list_empty_text(
    env: Seq<(Seq<char>, Seq<char>)>,
    scope: Seq<char>,
    f: FieldSpec,
    kind: PrimitiveKind,
    text: Seq<char>,
)
    requires
        f.shape == Shape::List(kind),
        spec_lookup(env, spec_field_var(scope, f.identifier@)) == Some(text),
        spec_trim(text).len() == 0,
    ensures
        spec_field_outcome(env, scope, f) == Ok::<FieldV, ErrView>(
            FieldV::List(Seq::empty()),
        ),
{
}

/// The variable name of a field inside a nested structure is the parent's
/// derived name followed by one underscore and the inner field's
/// uppercased identifier.
pub proof fn lemma_nested_field_var(
    scope: Seq<char>,
    nested_ident: Seq<char>,
    inner_ident: Seq<char>,
)
    ensures
        spec_field_var(spec_field_var(scope, nested_ident), inner_ident) == scope + seq!['_']
            + upper_text(nested_ident) + seq!['_'] + upper_text(inner_ident),
{
    assert(spec_field_var(spec_field_var(scope, nested_ident), inner_ident) =~= scope + seq!['_']
        + upper_text(nested_ident) + seq!['_'] + upper_text(inner_ident));
}

/// A nested structure's own identifier and naming options play no part in
/// loading it: two nested fields with the same identifier and the same
/// field list load identically, whatever the nested structures' declared
/// identifiers, prefixes and separators.
pub proof fn lemma_nested_options_ignored(
    env: Seq<(Seq<char>, Seq<char>)>,
    scope: Seq<char>,
    f1: FieldSpec,
    f2: FieldSpec,
    st1: StructSpec,
    st2: StructSpec,
)
    requires
        f1.shape == Shape::Nested(st1),
        f2.shape == Shape::Nested(st2),
        f1.identifier@ == f2.identifier@,
        st1.fields@ == st2.fields@,
    ensures
        spec_field_outcome(env, scope, f1) == spec_field_outcome(env, scope, f2),
{
}

proof fn lemma_fields_ok_iff(
    env: Seq<(Seq<char>, Seq<char>)>,
    scope: Seq<char>,
    fields: Seq<FieldSpec>,
    i: int,
)
    requires
        0 <= i <= fields.len(),
    ensures
        (spec_fields_outcome_from(env, scope, fields, i) is Ok) <==> (forall|j: int|
            i <= j < fields.len() ==> spec_field_outcome(env, scope, #[trigger] fields[j]) is Ok),
    decreases fields.len() - i,
{
    if i < fields.len() {
        lemma_fields_ok_iff(env, scope, fields, i + 1);
    }
}

/// A whole load succeeds exactly when every one of its fields loads; a
/// fresh build is all-or-nothing, so a single failing field yields no
/// instance at all.
pub proof fn lemma_load_ok_iff_all_fields(
    env: Seq<(Seq<char>, Seq<char>)>,
    st: StructSpec,
    ovr: Option<Seq<char>>,
)
    ensures
        (spec_load(env, st, ovr) is Ok) <==> (forall|i: int|
            0 <= i < st.fields@.len() ==> spec_field_outcome(
                env,
                spec_scope(st.identifier@, st.options, ovr),
                #[trigger] st.fields@[i],
            ) is Ok),
{
    lemma_fields_ok_iff(env, spec_scope(st.identifier@, st.options, ovr), st.fields@, 0);
}

/// When a load fails, the error it reports is the error of the first
/// failing field: all field errors after it are never reached.
pub proof fn lemma_load_first_error(
    env: Seq<(Seq<char>, Seq<char>)>,
    st: StructSpec,
    ovr: Option<Seq<char>>,
    k: int,
)
    requires
        0 <= k < st.fields@.len(),
        forall|j: int| 0 <= j < k ==> spec_field_outcome(
            env,
            spec_scope(st.identifier@, st.options, ovr),
            #[trigger] st.fields@[j],
        ) is Ok,
        spec_field_outcome(
            env,
            spec_scope(st.identifier@, st.options, ovr),
            st.fields@[k],
        ) is Err,
    ensures
        spec_load(env, st, ovr) == Err::<Seq<FieldV>, ErrView>(
            spec_field_outcome(
                env,
                spec_scope(st.identifier@, st.options, ovr),
                st.fields@[k],
            )->Err_0,
        ),
{
    lemma_outcome_unroll(env, spec_scope(st.identifier@, st.options, ovr), st.fields@, k);
}

/// A runtime prefix override replaces the configured prefix entirely and
/// is never concatenated with it: under an override, two descriptions
/// that differ only in their configured prefixes load identically.
pub proof fn lemma_prefix_override_replaces(
    env: Seq<(Seq<char>, Seq<char>)>,
    st1: StructSpec,
    st2: StructSpec,
    p: Seq<char>,
)
    requires
        st1.identifier@ == st2.identifier@,
        st1.options.word_separator@ == st2.options.word_separator@,
        st1.fields@ == st2.fields@,
    ensures
        spec_load(env, st1, Some(p)) == spec_load(env, st2, Some(p)),
        spec_scope(st1.identifier@, st1.options, Some(p)) == p + spec_env_case(
            st1.identifier@,
            st1.options.word_separator@,
        ),
{
}

} // verus!
