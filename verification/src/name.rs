//! The name deriver: the pure function from a structure identifier, its
//! naming options and a field identifier to the environment-variable name
//! that holds the field's value.
//!
//! A structure identifier written in mixed or camel case is turned into its
//! upper form by [`to_env_case`]: every character is uppercased, and when a
//! word separator is configured it is inserted at each boundary where a
//! lowercase character is followed by an uppercase one.  Field identifiers
//! are assumed already word-separated and are uppercased verbatim.  The full
//! name is `prefix + STRUCT + "_" + FIELD`, where the prefix is the runtime
//! override when one is supplied and the configured prefix otherwise.

use vstd::prelude::*;

use crate::text::is_ascii_lower;
use crate::text::is_ascii_upper;
use crate::text::upper_char;
use crate::text::upper_text;
use crate::text::append_chars;
use crate::text::char_to_upper;
use crate::text::chars_to_string;
use crate::text::str_chars;
use crate::text::upper_chars;

verus! {

/// Per-structure naming configuration, fixed at definition time.
///
/// An empty string means "not configured": with an empty `word_separator`
/// camel-case words are concatenated, and an empty `prefix` puts nothing in
/// front of the structure segment.  A non-empty prefix must carry its own
/// trailing separator (by convention it ends in `_`).
#[derive(Debug, Clone, PartialEq, Eq)]
pub struct NamingOptions {
    pub prefix: String,
    pub word_separator: String,
}

impl Default for NamingOptions {
    /// No prefix and no word separator.
    fn default() -> (r: NamingOptions)
        ensures
            r.prefix@ == Seq::<char>::empty(),
            r.word_separator@ == Seq::<char>::empty(),
    {
        NamingOptions { prefix: String::new(), word_separator: String::new() }
    }
}

/// The upper-case form of the identifier `s` with the separator `sep`
/// inserted at each lowercase-to-uppercase boundary; with an empty `sep`
/// the words are simply concatenated.
pub open spec fn spec_env_case(s: Seq<char>, sep: Seq<char>) -> Seq<char>
    decreases s.len(),
{
    if s.len() == 0 {
        Seq::empty()
    } else {
        let rest = spec_env_case(s.drop_last(), sep);
        let c = s.last();
        if s.len() >= 2 && is_ascii_lower(s[s.len() - 2]) && is_ascii_upper(c) && sep.len() > 0 {
            rest + sep + seq![c]
        } else {
            rest.push(upper_char(c))
        }
    }
}

/// The separator text of an optional separator argument: absent means empty.
pub open spec fn opt_str_view(s: Option<&str>) -> Seq<char> {
    match s {
        Some(p) => p@,
        None => Seq::empty(),
    }
}

/// The prefix that a load operation uses: the runtime override when one is
/// supplied, the configured prefix otherwise.  The override replaces the
/// configured prefix entirely; the two are never concatenated.
pub open spec fn spec_effective_prefix(options: NamingOptions, ovr: Option<Seq<char>>) -> Seq<
    char,
> {
    match ovr {
        Some(p) => p,
        None => options.prefix@,
    }
}

/// The structure segment of a variable name.
pub open spec fn spec_struct_segment(ident: Seq<char>, options: NamingOptions) -> Seq<char> {
    spec_env_case(ident, options.word_separator@)
}

/// The scope that all of a structure's fields are named under:
/// `prefix + STRUCT`.
pub open spec fn spec_scope(ident: Seq<char>, options: NamingOptions, ovr: Option<Seq<char>>) -> Seq<
    char,
> {
    spec_effective_prefix(options, ovr) + spec_struct_segment(ident, options)
}

/// The full variable name of a top-level field:
/// `prefix + STRUCT + "_" + FIELD`.
pub open spec fn spec_derive_name(
    ident: Seq<char>,
    options: NamingOptions,
    field: Seq<char>,
    ovr: Option<Seq<char>>,
) -> Seq<char> {
    spec_scope(ident, options, ovr) + seq!['_'] + upper_text(field)
}

/// Executable form of [`spec_env_case`] on character vectors.
pub(crate) fn env_case_chars(s: &Vec<char>, sep: &Vec<char>) -> (r: Vec<char>)
    ensures
        r@ == spec_env_case(s@, sep@),
{
    let mut out: Vec<char> = Vec::new();
    let mut i: usize = 0;
    while i < s.len()
        invariant
            i <= s.len(),
            out@ == spec_env_case(s@.take(i as int), sep@),
        decreases s.len() - i,
    {
        let c = s[i];
        if i > 0 && 'a' <= s[i - 1] && s[i - 1] <= 'z' && 'A' <= c && c <= 'Z' && sep.len() > 0 {
            append_chars(&mut out, sep);
            out.push(c);
        } else {
            out.push(char_to_upper(c));
        }
        i += 1;
        proof {
            let t = s@.take(i as int);
            assert(t.drop_last() =~= s@.take(i as int - 1));
            assert(t.last() == s@[i as int - 1]);
            if t.len() >= 2 {
                assert(t[t.len() - 2] == s@[i as int - 2]);
            }
            assert(out@ =~= spec_env_case(t, sep@));
        }
    }
    assert(s@.take(s.len() as int) =~= s@);
    out
}

/// Converts a mixed-case identifier to its environment form: all characters
/// uppercased, with `separator` (when given) inserted at each boundary where
/// a lowercase character is followed by an uppercase one.
pub fn to_env_case(s: &str, separator: Option<&str>) -> (r: String)
    ensures
        r@ == spec_env_case(s@, opt_str_view(separator)),
{
    let cs = str_chars(s);
    let sep_chars: Vec<char> = match separator {
        Some(p) => str_chars(p),
        None => Vec::new(),
    };
    let out = env_case_chars(&cs, &sep_chars);
    chars_to_string(&out)
}

/// The view of an optional runtime prefix override.
pub open spec fn opt_prefix_view(p: Option<&str>) -> Option<Seq<char>> {
    match p {
        Some(s) => Some(s@),
        None => None,
    }
}

/// Derives the environment-variable name of a top-level field:
/// `prefix + STRUCT + "_" + FIELD`, where the prefix is `prefix_override`
/// when supplied and `options.prefix` otherwise.
pub fn derive_name(
    struct_ident: &str,
    options: &NamingOptions,
    field_ident: &str,
    prefix_override: Option<&str>,
) -> (r: String)
    ensures
        r@ == spec_derive_name(struct_ident@, *options, field_ident@, opt_prefix_view(
            prefix_override,
        )),
{
    let mut out: Vec<char> = match prefix_override {
        Some(p) => str_chars(p),
        None => str_chars(options.prefix.as_str()),
    };
    let ident_chars = str_chars(struct_ident);
    let sep_chars = str_chars(options.word_separator.as_str());
    let segment = env_case_chars(&ident_chars, &sep_chars);
    append_chars(&mut out, &segment);
    out.push('_');
    let field_chars = str_chars(field_ident);
    let field_upper = upper_chars(&field_chars);
    append_chars(&mut out, &field_upper);
    proof {
        assert(out@ =~= spec_derive_name(struct_ident@, *options, field_ident@, opt_prefix_view(
            prefix_override,
        )));
    }
    chars_to_string(&out)
}

} // verus!
