//! The loader driver.
//!
//! For each field of a structure, in declaration order, the loader derives
//! the field's variable name under the structure's scope, looks it up in
//! the [`Env`] snapshot and coerces the result; nested structures recurse
//! with the parent's derived name as their scope, their own identifier and
//! naming options ignored.
//!
//! Two entry points share this walk and differ on failure, deliberately:
//! [`StructSpec::load_new`] is all-or-nothing and yields no instance on the
//! first field error, while [`StructSpec::load_into`] overwrites fields one
//! by one and leaves fields before the failing one already updated.
//!
//! An optional nested structure is taken to be present exactly when at
//! least one variable under its scope is present in the snapshot.

use vstd::prelude::*;

use crate::coerce::coerce_list;
use crate::coerce::coerce_prim;
use crate::coerce::spec_coerce_list;
use crate::coerce::spec_coerce_prim;
use crate::env::Env;
use crate::env::spec_lookup;
use crate::errors::ErrView;
use crate::errors::FromEnvError;
use crate::errors::ParseError;
use crate::parse::FromText;
use crate::name::NamingOptions;
use crate::name::opt_prefix_view;
use crate::name::spec_scope;
use crate::name::env_case_chars;
use crate::text::append_chars;
use crate::text::chars_to_string;
use crate::text::str_chars;
use crate::text::upper_chars;
use crate::text::upper_text;
use crate::values::FieldSpec;
use crate::values::FieldV;
use crate::values::FieldValue;
use crate::values::Shape;
use crate::values::StructSpec;
use crate::values::field_value_view;
use crate::values::field_values_view;
use crate::values::lemma_field_values_view;

verus! {

/// The variable name of a field under `scope`: `scope + "_" + FIELD`.
pub open spec fn spec_field_var(scope: Seq<char>, field_ident: Seq<char>) -> Seq<char> {
    scope + seq!['_'] + upper_text(field_ident)
}

/// Looks one variable up in the snapshot and parses its text through the
/// text conversion capability.  A parse failure carries the kind's own
/// structured cause with the offending text; a kind outside the built-in
/// set keeps only the fixed invalid-text marker.
pub fn parse_env_var<T: FromText>(env: &Env, var_name: &String) -> (r: Result<T, FromEnvError>)
    ensures
        (r is Ok) == (spec_lookup(env@, var_name@) is Some && T::text_ok(
            spec_lookup(env@, var_name@).unwrap(),
        )),
        match r {
            Ok(v) => T::is_value_of(spec_lookup(env@, var_name@).unwrap(), v),
            Err(e) => e@ == (if spec_lookup(env@, var_name@) is None {
                ErrView::Missing(var_name@)
            } else {
                ErrView::Parse {
                    var: var_name@,
                    source: T::spec_cause(spec_lookup(env@, var_name@).unwrap()),
                }
            }),
        },
{
    match env.get(var_name) {
        None => Err(FromEnvError::MissingVariable(var_name.clone())),
        Some(text) => match T::from_text(text.as_str()) {
            Ok(v) => Ok(v),
            Err(_) => Err(
                FromEnvError::ParseError {
                    var: var_name.clone(),
                    source: T::parse_cause(text.as_str()),
                },
            ),
        },
    }
}

/// The outcome of loading one field under `scope`: its coerced value, or
/// the first error its coercion runs into.
pub open spec fn spec_field_outcome(
    env: Seq<(Seq<char>, Seq<char>)>,
    scope: Seq<char>,
    f: FieldSpec,
) -> Result<FieldV, ErrView>
    decreases f, 0int,
{
    let var = spec_field_var(scope, f.identifier@);
    match f.shape {
        Shape::Required(kind) => match spec_lookup(env, var) {
            None => Err(ErrView::Missing(var)),
            Some(text) => match spec_coerce_prim(kind, text) {
                Ok(p) => Ok(FieldV::Prim(p)),
                Err(pe) => Err(ErrView::Parse { var, source: pe }),
            },
        },
        Shape::Optional(kind) => match spec_lookup(env, var) {
            None => Ok(FieldV::Opt(None)),
            Some(text) => match spec_coerce_prim(kind, text) {
                Ok(p) => Ok(FieldV::Opt(Some(p))),
                Err(pe) => Err(ErrView::Parse { var, source: pe }),
            },
        },
        Shape::List(kind) => match spec_lookup(env, var) {
            None => Err(ErrView::Missing(var)),
            Some(text) => match spec_coerce_list(kind, text) {
                Ok(vs) => Ok(FieldV::List(vs)),
                Err(pe) => Err(ErrView::Parse { var, source: pe }),
            },
        },
        Shape::Nested(st) => match spec_fields_outcome_from(env, var, st.fields@, 0) {
            Ok(vs) => Ok(FieldV::Nested(vs)),
            Err(e) => Err(e),
        },
        Shape::OptionalNested(st) => if spec_any_present_from(env, var, st.fields@, 0) {
            match spec_fields_outcome_from(env, var, st.fields@, 0) {
                Ok(vs) => Ok(FieldV::OptNested(Some(vs))),
                Err(e) => Err(e),
            }
        } else {
            Ok(FieldV::OptNested(None))
        },
    }
}

/// The outcome of loading the fields from index `i` on: their values in
/// order, or the error of the first field that fails.
pub open spec fn spec_fields_outcome_from(
    env: Seq<(Seq<char>, Seq<char>)>,
    scope: Seq<char>,
    fields: Seq<FieldSpec>,
    i: int,
) -> Result<Seq<FieldV>, ErrView>
    decreases fields, fields.len() - i,
{
    if i < 0 || i >= fields.len() {
        Ok(Seq::empty())
    } else {
        match spec_field_outcome(env, scope, fields[i]) {
            Ok(v) => match spec_fields_outcome_from(env, scope, fields, i + 1) {
                Ok(rest) => Ok(seq![v] + rest),
                Err(e) => Err(e),
            },
            Err(e) => Err(e),
        }
    }
}

/// Whether one field contributes to the presence of an optional nested
/// block: a primitive or list field counts when its variable is present, a
/// nested one when any variable under its scope is.
pub open spec fn spec_field_present(
    env: Seq<(Seq<char>, Seq<char>)>,
    scope: Seq<char>,
    f: FieldSpec,
) -> bool
    decreases f, 0int,
{
    let var = spec_field_var(scope, f.identifier@);
    match f.shape {
        Shape::Required(_) => spec_lookup(env, var) is Some,
        Shape::Optional(_) => spec_lookup(env, var) is Some,
        Shape::List(_) => spec_lookup(env, var) is Some,
        Shape::Nested(st) => spec_any_present_from(env, var, st.fields@, 0),
        Shape::OptionalNested(st) => spec_any_present_from(env, var, st.fields@, 0),
    }
}

/// Whether any of the fields from index `i` on is present under `scope`.
pub open spec fn spec_any_present_from(
    env: Seq<(Seq<char>, Seq<char>)>,
    scope: Seq<char>,
    fields: Seq<FieldSpec>,
    i: int,
) -> bool
    decreases fields, fields.len() - i,
{
    if i < 0 || i >= fields.len() {
        false
    } else {
        spec_field_present(env, scope, fields[i]) || spec_any_present_from(
            env,
            scope,
            fields,
            i + 1,
        )
    }
}

/// The outcome of a whole load operation: the scope is the effective
/// prefix followed by the structure segment, and the fields are loaded in
/// declaration order.
pub open spec fn spec_load(
    env: Seq<(Seq<char>, Seq<char>)>,
    st: StructSpec,
    ovr: Option<Seq<char>>,
) -> Result<Seq<FieldV>, ErrView> {
    spec_fields_outcome_from(env, spec_scope(st.identifier@, st.options, ovr), st.fields@, 0)
}

/// The state an in-place load leaves behind when field `k` fails: the
/// fields before `k` carry their freshly loaded values, field `k` is the
/// one whose error is reported, and the fields from `k` on keep their
/// prior values.
pub open spec fn spec_partial_update(
    env: Seq<(Seq<char>, Seq<char>)>,
    scope: Seq<char>,
    fields: Seq<FieldSpec>,
    old_vals: Seq<FieldValue>,
    new_vals: Seq<FieldValue>,
    e: ErrView,
    k: int,
) -> bool {
    &&& 0 <= k < fields.len()
    &&& forall|j: int|
        0 <= j < k ==> spec_field_outcome(env, scope, #[trigger] fields[j]) is Ok
            && field_value_view(new_vals[j]) == spec_field_outcome(env, scope, fields[j])->Ok_0
    &&& spec_field_outcome(env, scope, fields[k]) == Err::<FieldV, ErrView>(e)
    &&& forall|j: int| k <= j < fields.len() ==> new_vals[j] == #[trigger] old_vals[j]
}

/// The values of the first `i` fields, meaningful where they all load.
pub open spec fn spec_prefix_vals(
    env: Seq<(Seq<char>, Seq<char>)>,
    scope: Seq<char>,
    fields: Seq<FieldSpec>,
    i: int,
) -> Seq<FieldV> {
    Seq::new(i as nat, |j: int| spec_field_outcome(env, scope, fields[j])->Ok_0)
}

/// Unrolls the field walk: when the first `i` fields load, the whole walk
/// is their values followed by the walk of the rest.
pub(crate) proof fn lemma_outcome_unroll(
    env: Seq<(Seq<char>, Seq<char>)>,
    scope: Seq<char>,
    fields: Seq<FieldSpec>,
    i: int,
)
    requires
        0 <= i <= fields.len(),
        forall|j: int| 0 <= j < i ==> spec_field_outcome(env, scope, #[trigger] fields[j]) is Ok,
    ensures
        spec_fields_outcome_from(env, scope, fields, 0) == (match spec_fields_outcome_from(
            env,
            scope,
            fields,
            i,
        ) {
            Ok(rest) => Ok::<Seq<FieldV>, ErrView>(spec_prefix_vals(env, scope, fields, i) + rest),
            Err(e) => Err::<Seq<FieldV>, ErrView>(e),
        }),
    decreases i,
{
    if i == 0 {
        match spec_fields_outcome_from(env, scope, fields, 0) {
            Ok(rest) => {
                assert(spec_prefix_vals(env, scope, fields, 0) + rest =~= rest);
            },
            Err(_) => {},
        }
    } else {
        lemma_outcome_unroll(env, scope, fields, i - 1);
        let v = spec_field_outcome(env, scope, fields[i - 1])->Ok_0;
        match spec_fields_outcome_from(env, scope, fields, i) {
            Ok(rest) => {
                assert(spec_prefix_vals(env, scope, fields, i - 1) + (seq![v] + rest)
                    =~= spec_prefix_vals(env, scope, fields, i) + rest);
            },
            Err(_) => {},
        }
    }
}

/// The presence scan from `i` holds exactly when some field at or past `i`
/// is present.
proof fn lemma_any_present_iff(
    env: Seq<(Seq<char>, Seq<char>)>,
    scope: Seq<char>,
    fields: Seq<FieldSpec>,
    i: int,
)
    requires
        0 <= i <= fields.len(),
    ensures
        spec_any_present_from(env, scope, fields, i) <==> exists|j: int|
            i <= j < fields.len() && spec_field_present(env, scope, #[trigger] fields[j]),
    decreases fields.len() - i,
{
    if i < fields.len() {
        lemma_any_present_iff(env, scope, fields, i + 1);
    }
}

/// Derives the variable name of one field under `scope`.
fn field_var_name(scope: &String, ident: &String) -> (r: String)
    ensures
        r@ == spec_field_var(scope@, ident@),
{
    let mut out = str_chars(scope.as_str());
    out.push('_');
    let ident_chars = str_chars(ident.as_str());
    let upper = upper_chars(&ident_chars);
    append_chars(&mut out, &upper);
    proof {
        assert(out@ =~= spec_field_var(scope@, ident@));
    }
    chars_to_string(&out)
}

/// Whether any variable of the given fields is present under `scope`.
fn any_field_present(env: &Env, scope: &String, fields: &Vec<FieldSpec>) -> (r: bool)
    ensures
        r == spec_any_present_from(env@, scope@, fields@, 0),
    decreases fields,
{
    let mut i: usize = 0;
    while i < fields.len()
        invariant
            i <= fields@.len(),
            forall|j: int| 0 <= j < i ==> !spec_field_present(env@, scope@, #[trigger] fields@[j]),
        decreases fields@.len() - i,
    {
        let f = &fields[i];
        let var = field_var_name(scope, &f.identifier);
        let present: bool = match &f.shape {
            Shape::Required(_) => env.get(&var).is_some(),
            Shape::Optional(_) => env.get(&var).is_some(),
            Shape::List(_) => env.get(&var).is_some(),
            Shape::Nested(st) => any_field_present(env, &var, &st.fields),
            Shape::OptionalNested(st) => any_field_present(env, &var, &st.fields),
        };
        if present {
            proof {
                lemma_any_present_iff(env@, scope@, fields@, 0);
            }
            return true;
        }
        i += 1;
    }
    proof {
        lemma_any_present_iff(env@, scope@, fields@, 0);
    }
    false
}

/// Loads one field under `scope`: derives its variable name, looks it up
/// and coerces the result, recursing for nested structures.
fn coerce_field(env: &Env, scope: &String, f: &FieldSpec) -> (r: Result<FieldValue, FromEnvError>)
    ensures
        match r {
            Ok(v) => spec_field_outcome(env@, scope@, *f) == Ok::<FieldV, ErrView>(
                field_value_view(v),
            ),
            Err(e) => spec_field_outcome(env@, scope@, *f) == Err::<FieldV, ErrView>(e@),
        },
    decreases f,
{
    let var = field_var_name(scope, &f.identifier);
    match &f.shape {
        Shape::Required(kind) => match env.get(&var) {
            None => Err(FromEnvError::MissingVariable(var)),
            Some(text) => match coerce_prim(*kind, text.as_str()) {
                Ok(p) => Ok(FieldValue::Prim(p)),
                Err(pe) => Err(FromEnvError::ParseError { var, source: pe }),
            },
        },
        Shape::Optional(kind) => match env.get(&var) {
            None => Ok(FieldValue::Opt(None)),
            Some(text) => match coerce_prim(*kind, text.as_str()) {
                Ok(p) => Ok(FieldValue::Opt(Some(p))),
                Err(pe) => Err(FromEnvError::ParseError { var, source: pe }),
            },
        },
        Shape::List(kind) => match env.get(&var) {
            None => Err(FromEnvError::MissingVariable(var)),
            Some(text) => match coerce_list(*kind, text.as_str()) {
                Ok(vs) => Ok(FieldValue::List(vs)),
                Err(pe) => Err(FromEnvError::ParseError { var, source: pe }),
            },
        },
        Shape::Nested(st) => match load_fields(env, &var, &st.fields) {
            Ok(vs) => Ok(FieldValue::Nested(vs)),
            Err(e) => Err(e),
        },
        Shape::OptionalNested(st) => {
            if any_field_present(env, &var, &st.fields) {
                match load_fields(env, &var, &st.fields) {
                    Ok(vs) => Ok(FieldValue::OptNested(Some(vs))),
                    Err(e) => Err(e),
                }
            } else {
                Ok(FieldValue::OptNested(None))
            }
        },
    }
}

/// Loads all given fields under `scope`, in order, stopping at the first
/// failing field.
fn load_fields(env: &Env, scope: &String, fields: &Vec<FieldSpec>) -> (r: Result<
    Vec<FieldValue>,
    FromEnvError,
>)
    ensures
        match r {
            Ok(vs) => spec_fields_outcome_from(env@, scope@, fields@, 0) == Ok::<
                Seq<FieldV>,
                ErrView,
            >(field_values_view(vs@)),
            Err(e) => spec_fields_outcome_from(env@, scope@, fields@, 0) == Err::<
                Seq<FieldV>,
                ErrView,
            >(e@),
        },
    decreases fields,
{
    let mut out: Vec<FieldValue> = Vec::new();
    let mut i: usize = 0;
    while i < fields.len()
        invariant
            i <= fields@.len(),
            out@.len() == i,
            forall|j: int|
                0 <= j < i ==> spec_field_outcome(env@, scope@, #[trigger] fields@[j]) is Ok
                    && field_value_view(out@[j]) == spec_field_outcome(
                    env@,
                    scope@,
                    fields@[j],
                )->Ok_0,
        decreases fields@.len() - i,
    {
        match coerce_field(env, scope, &fields[i]) {
            Ok(v) => {
                out.push(v);
            },
            Err(e) => {
                proof {
                    lemma_outcome_unroll(env@, scope@, fields@, i as int);
                }
                return Err(e);
            },
        }
        i += 1;
    }
    proof {
        let n = fields@.len() as int;
        lemma_outcome_unroll(env@, scope@, fields@, n);
        lemma_field_values_view(out@);
        let pv = spec_prefix_vals(env@, scope@, fields@, n);
        assert(field_values_view(out@) =~= pv + Seq::<FieldV>::empty());
    }
    Ok(out)
}

impl StructSpec {
    /// The scope that this structure's fields are named under, with the
    /// runtime prefix override replacing the configured prefix when given.
    fn scope_string(&self, prefix_override: Option<&str>) -> (r: String)
        ensures
            r@ == spec_scope(self.identifier@, self.options, opt_prefix_view(prefix_override)),
    {
        let mut out: Vec<char> = match prefix_override {
            Some(p) => str_chars(p),
            None => str_chars(self.options.prefix.as_str()),
        };
        let ident_chars = str_chars(self.identifier.as_str());
        let sep_chars = str_chars(self.options.word_separator.as_str());
        let segment = env_case_chars(&ident_chars, &sep_chars);
        append_chars(&mut out, &segment);
        proof {
            assert(out@ =~= spec_scope(
                self.identifier@,
                self.options,
                opt_prefix_view(prefix_override),
            ));
        }
        chars_to_string(&out)
    }

    /// Builds a fresh instance from the snapshot: every field is loaded in
    /// declaration order, and the first failing field fails the whole load
    /// with no instance.
    pub fn load_new(&self, env: &Env) -> (r: Result<Vec<FieldValue>, FromEnvError>)
        ensures
            match r {
                Ok(vs) => spec_load(env@, *self, None) == Ok::<Seq<FieldV>, ErrView>(
                    field_values_view(vs@),
                ),
                Err(e) => spec_load(env@, *self, None) == Err::<Seq<FieldV>, ErrView>(e@),
            },
    {
        let scope = self.scope_string(None);
        load_fields(env, &scope, &self.fields)
    }

    /// [`StructSpec::load_new`] with a runtime prefix that replaces the
    /// configured one entirely.
    pub fn load_new_with_prefix(&self, env: &Env, prefix: &str) -> (r: Result<
        Vec<FieldValue>,
        FromEnvError,
    >)
        ensures
            match r {
                Ok(vs) => spec_load(env@, *self, Some(prefix@)) == Ok::<Seq<FieldV>, ErrView>(
                    field_values_view(vs@),
                ),
                Err(e) => spec_load(env@, *self, Some(prefix@)) == Err::<Seq<FieldV>, ErrView>(e@),
            },
    {
        let scope = self.scope_string(Some(prefix));
        load_fields(env, &scope, &self.fields)
    }

    /// Overwrites the fields of an existing instance in place, in
    /// declaration order.  On failure at a field, the fields before it
    /// keep their freshly loaded values and the fields from it on keep
    /// their prior ones; there is no rollback.
    pub fn load_into(&self, dest: &mut Vec<FieldValue>, env: &Env) -> (r: Result<(), FromEnvError>)
        requires
            old(dest)@.len() == self.fields@.len(),
        ensures
            final(dest)@.len() == old(dest)@.len(),
            match r {
                Ok(_) => spec_load(env@, *self, None) == Ok::<Seq<FieldV>, ErrView>(
                    field_values_view(final(dest)@),
                ),
                Err(e) => {
                    &&& spec_load(env@, *self, None) == Err::<Seq<FieldV>, ErrView>(e@)
                    &&& exists|k: int|
                        #[trigger] spec_partial_update(
                            env@,
                            spec_scope(self.identifier@, self.options, None),
                            self.fields@,
                            old(dest)@,
                            final(dest)@,
                            e@,
                            k,
                        )
                },
            },
    {
        let scope = self.scope_string(None);
        self.load_into_scoped(dest, env, &scope)
    }

    /// [`StructSpec::load_into`] with a runtime prefix that replaces the
    /// configured one entirely.
    pub fn load_into_with_prefix(
        &self,
        dest: &mut Vec<FieldValue>,
        env: &Env,
        prefix: &str,
    ) -> (r: Result<(), FromEnvError>)
        requires
            old(dest)@.len() == self.fields@.len(),
        ensures
            final(dest)@.len() == old(dest)@.len(),
            match r {
                Ok(_) => spec_load(env@, *self, Some(prefix@)) == Ok::<Seq<FieldV>, ErrView>(
                    field_values_view(final(dest)@),
                ),
                Err(e) => {
                    &&& spec_load(env@, *self, Some(prefix@)) == Err::<Seq<FieldV>, ErrView>(e@)
                    &&& exists|k: int|
                        #[trigger] spec_partial_update(
                            env@,
                            spec_scope(self.identifier@, self.options, Some(prefix@)),
                            self.fields@,
                            old(dest)@,
                            final(dest)@,
                            e@,
                            k,
                        )
                },
            },
    {
        let scope = self.scope_string(Some(prefix));
        self.load_into_scoped(dest, env, &scope)
    }

    /// The shared field-by-field overwrite under an already derived scope.
    fn load_into_scoped(&self, dest: &mut Vec<FieldValue>, env: &Env, scope: &String) -> (r: Result<
        (),
        FromEnvError,
    >)
        requires
            old(dest)@.len() == self.fields@.len(),
        ensures
            final(dest)@.len() == old(dest)@.len(),
            match r {
                Ok(_) => spec_fields_outcome_from(env@, scope@, self.fields@, 0) == Ok::<
                    Seq<FieldV>,
                    ErrView,
                >(field_values_view(final(dest)@)),
                Err(e) => {
                    &&& spec_fields_outcome_from(env@, scope@, self.fields@, 0) == Err::<
                        Seq<FieldV>,
                        ErrView,
                    >(e@)
                    &&& exists|k: int|
                        #[trigger] spec_partial_update(
                            env@,
                            scope@,
                            self.fields@,
                            old(dest)@,
                            final(dest)@,
                            e@,
                            k,
                        )
                },
            },
    {
        let mut i: usize = 0;
        while i < self.fields.len()
            invariant
                i <= self.fields@.len(),
                dest@.len() == old(dest)@.len(),
                old(dest)@.len() == self.fields@.len(),
                forall|j: int|
                    0 <= j < i ==> spec_field_outcome(env@, scope@, #[trigger] self.fields@[j])
                        is Ok && field_value_view(dest@[j]) == spec_field_outcome(
                        env@,
                        scope@,
                        self.fields@[j],
                    )->Ok_0,
                forall|j: int| i <= j < dest@.len() ==> dest@[j] == old(dest)@[j],
            decreases self.fields@.len() - i,
        {
            match coerce_field(env, scope, &self.fields[i]) {
                Ok(v) => {
                    dest[i] = v;
                },
                Err(e) => {
                    proof {
                        lemma_outcome_unroll(env@, scope@, self.fields@, i as int);
                        assert(spec_partial_update(
                            env@,
                            scope@,
                            self.fields@,
                            old(dest)@,
                            dest@,
                            e@,
                            i as int,
                        ));
                    }
                    return Err(e);
                },
            }
            i += 1;
        }
        proof {
            let n = self.fields@.len() as int;
            lemma_outcome_unroll(env@, scope@, self.fields@, n);
            lemma_field_values_view(dest@);
            let pv = spec_prefix_vals(env@, scope@, self.fields@, n);
            assert(field_values_view(dest@) =~= pv + Seq::<FieldV>::empty());
        }
        Ok(())
    }
}

/// The operations a configuration structure offers its users: building a
/// fresh instance from a snapshot, and overwriting an existing one in
/// place.
pub trait FromEnvTrait: Sized {
    /// Builds a fresh instance from the snapshot; all-or-nothing.
    fn from_env(env: &Env) -> Result<Self, FromEnvError>;

    /// Overwrites the fields of this instance from the snapshot, field by
    /// field; fields before a failing one stay overwritten.
    fn load_from_env(&mut self, env: &Env) -> Result<(), FromEnvError>;

    /// [`FromEnvTrait::from_env`] under a runtime prefix that replaces the
    /// configured one.
    fn from_env_with_prefix(env: &Env, prefix: &str) -> Result<Self, FromEnvError>;

    /// [`FromEnvTrait::load_from_env`] under a runtime prefix that
    /// replaces the configured one.
    fn load_from_env_with_prefix(&mut self, env: &Env, prefix: &str) -> Result<
        (),
        FromEnvError,
    >;
}

} // verus!
