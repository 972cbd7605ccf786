//! The scalar half of the value coercer: turning the text of one variable
//! into one typed value.
//!
//! Integer text is an optional sign (`+` always, `-` only for signed kinds)
//! followed by one or more decimal digits, with the value required to fit
//! the requested width.  Boolean text is one of `true`, `false`, `1`, `0`,
//! case-insensitively.  Character text must hold exactly one character
//! after trimming surrounding whitespace.  String text passes through
//! unchanged, the empty string included.
//!
//! The capability of being parsed from text is the [`FromText`] trait; the
//! list coercer is generic over it.

use vstd::prelude::*;
use vstd::arithmetic::div_mod::lemma_fundamental_div_mod;

use crate::errors::ParseErrView;
use crate::errors::ParseError;
use crate::text::is_ascii_digit_char;
use crate::text::lower_char;
use crate::text::char_to_lower;
use crate::text::spec_trim;
use crate::text::str_chars;
use crate::text::trim_chars;

verus! {

// ---------------------------------------------------------------------------
// Decimal integer text
// ---------------------------------------------------------------------------

/// `s` is one or more decimal digits.
pub open spec fn is_digit_seq(s: Seq<char>) -> bool {
    s.len() > 0 && forall|i: int| 0 <= i < s.len() ==> is_ascii_digit_char(#[trigger] s[i])
}

/// The numeric value of a single decimal digit character.
pub open spec fn digit_val(c: char) -> int {
    c as int - '0' as int
}

/// The value of a digit string, most significant digit first.
pub open spec fn digits_val(s: Seq<char>) -> int
    decreases s.len(),
{
    if s.len() == 0 {
        0
    } else {
        digits_val(s.drop_last()) * 10 + digit_val(s.last())
    }
}

/// The value denoted by integer text `s`: an optional sign (`-` only when
/// `signed`) followed by one or more digits; `None` when malformed.
pub open spec fn spec_int_text_val(s: Seq<char>, signed: bool) -> Option<int> {
    if s.len() >= 1 && s[0] == '+' {
        if is_digit_seq(s.skip(1)) {
            Some(digits_val(s.skip(1)))
        } else {
            None
        }
    } else if s.len() >= 1 && s[0] == '-' {
        if signed && is_digit_seq(s.skip(1)) {
            Some(-digits_val(s.skip(1)))
        } else {
            None
        }
    } else {
        if is_digit_seq(s) {
            Some(digits_val(s))
        } else {
            None
        }
    }
}

/// The value of integer text `s` when it is well formed and lies in
/// `[min, max]`; `None` otherwise.
pub open spec fn spec_parse_ranged(s: Seq<char>, signed: bool, min: int, max: int) -> Option<int> {
    match spec_int_text_val(s, signed) {
        Some(v) => if min <= v && v <= max {
            Some(v)
        } else {
            None
        },
        None => None,
    }
}

proof fn lemma_digits_val_nonneg(s: Seq<char>)
    requires
        forall|i: int| 0 <= i < s.len() ==> is_ascii_digit_char(#[trigger] s[i]),
    ensures
        digits_val(s) >= 0,
    decreases s.len(),
{
    if s.len() > 0 {
        lemma_digits_val_nonneg(s.drop_last());
    }
}

/// A digit string is worth at least any of its prefixes.
proof fn lemma_digits_val_prefix(s: Seq<char>, k: int)
    requires
        0 <= k <= s.len(),
        forall|i: int| 0 <= i < s.len() ==> is_ascii_digit_char(#[trigger] s[i]),
    ensures
        digits_val(s.take(k)) <= digits_val(s),
    decreases s.len() - k,
{
    if k == s.len() {
        assert(s.take(k) =~= s);
    } else {
        assert(s.take(k + 1).drop_last() =~= s.take(k));
        assert(s.take(k + 1).last() == s[k]);
        assert(forall|i: int| 0 <= i < s.take(k).len() ==> is_ascii_digit_char(
            #[trigger] s.take(k)[i],
        ));
        lemma_digits_val_nonneg(s.take(k));
        assert(digits_val(s.take(k + 1)) == digits_val(s.take(k)) * 10 + digit_val(s[k]));
        assert(digits_val(s.take(k)) <= digits_val(s.take(k + 1)));
        lemma_digits_val_prefix(s, k + 1);
    }
}

/// The overflow guard `acc > (u128::MAX - d) / 10` decides exactly whether
/// `acc * 10 + d` would exceed `u128::MAX`.
proof fn lemma_append_digit_guard(acc: u128, d: u128)
    requires
        d <= 9,
    ensures
        acc as int > ((u128::MAX - d) as int) / 10 ==> acc as int * 10 + d as int
            > u128::MAX as int,
        acc as int <= ((u128::MAX - d) as int) / 10 ==> acc as int * 10 + d as int
            <= u128::MAX as int,
{
    let m = u128::MAX as int;
    let q = (m - d) / 10;
    lemma_fundamental_div_mod(m - d, 10);
    assert(m - d == 10 * q + (m - d) % 10);
}

/// Scans `s[from..]` as a digit string, giving its value when every
/// character is a digit and the value fits in `u128`.
fn scan_digits(s: &Vec<char>, from: usize) -> (r: Option<u128>)
    requires
        from <= s@.len(),
    ensures
        r == (if is_digit_seq(s@.skip(from as int)) && digits_val(s@.skip(from as int))
            <= u128::MAX as int {
            Some(digits_val(s@.skip(from as int)) as u128)
        } else {
            None::<u128>
        }),
{
    let ghost sub = s@.skip(from as int);
    if from == s.len() {
        return None;
    }
    let mut acc: u128 = 0;
    let mut i: usize = from;
    while i < s.len()
        invariant
            from <= i <= s@.len(),
            sub == s@.skip(from as int),
            forall|j: int| from <= j < i ==> is_ascii_digit_char(#[trigger] s@[j]),
            acc as int == digits_val(s@.subrange(from as int, i as int)),
        decreases s@.len() - i,
    {
        let c = s[i];
        if c < '0' || c > '9' {
            proof {
                assert(sub[i - from as int] == s@[i as int]);
                assert(!is_digit_seq(sub));
            }
            return None;
        }
        let d: u128 = (c as u32 - '0' as u32) as u128;
        proof {
            lemma_append_digit_guard(acc, d);
        }
        if acc > (u128::MAX - d) / 10 {
            proof {
                let done = s@.subrange(from as int, i as int + 1);
                assert(done.drop_last() =~= s@.subrange(from as int, i as int));
                assert(done.last() == s@[i as int]);
                assert(digits_val(done) == acc as int * 10 + d as int);
                if is_digit_seq(sub) && digits_val(sub) <= u128::MAX as int {
                    assert(forall|j: int| 0 <= j < sub.len() ==> is_ascii_digit_char(
                        #[trigger] sub[j],
                    ));
                    assert(sub.take(i - from as int + 1) =~= done);
                    lemma_digits_val_prefix(sub, i - from as int + 1);
                    assert(false);
                }
            }
            return None;
        }
        acc = acc * 10 + d;
        i += 1;
        proof {
            let done = s@.subrange(from as int, i as int);
            assert(done.drop_last() =~= s@.subrange(from as int, i as int - 1));
            assert(done.last() == s@[i - 1]);
        }
    }
    proof {
        assert(s@.subrange(from as int, s@.len() as int) =~= sub);
        assert(forall|j: int| 0 <= j < sub.len() ==> is_ascii_digit_char(#[trigger] sub[j]));
        assert(is_digit_seq(sub));
    }
    Some(acc)
}

/// Parses full integer text against magnitude bounds: a negative value may
/// reach `neg_mag` in magnitude, a positive one `pos_max`.  Gives the sign
/// and the magnitude.
fn parse_int_chars(s: &Vec<char>, signed: bool, neg_mag: u128, pos_max: u128) -> (r: Option<
    (bool, u128),
>)
    requires
        !signed ==> neg_mag == 0,
    ensures
        match r {
            Some(p) => {
                &&& spec_parse_ranged(s@, signed, -(neg_mag as int), pos_max as int) == Some(
                    if p.0 {
                        -(p.1 as int)
                    } else {
                        p.1 as int
                    },
                )
                &&& (p.0 ==> p.1 <= neg_mag)
                &&& (!p.0 ==> p.1 <= pos_max)
            },
            None => spec_parse_ranged(s@, signed, -(neg_mag as int), pos_max as int) is None,
        },
{
    if s.len() == 0 {
        return None;
    }
    let c0 = s[0];
    let (start, neg): (usize, bool) = if c0 == '+' {
        (1, false)
    } else if c0 == '-' {
        if !signed {
            return None;
        }
        (1, true)
    } else {
        (0, false)
    };
    proof {
        if start == 0 {
            assert(s@.skip(0) =~= s@);
        }
    }
    match scan_digits(s, start) {
        None => {
            proof {
                let body = s@.skip(start as int);
                if is_digit_seq(body) {
                    // the digits overflow u128, so they lie outside any
                    // magnitude bound representable here
                    assert(digits_val(body) > u128::MAX as int);
                }
            }
            None
        },
        Some(m) => {
            proof {
                let body = s@.skip(start as int);
                lemma_digits_val_nonneg(body);
                assert(digits_val(body) == m as int);
            }
            if neg {
                if m <= neg_mag {
                    Some((true, m))
                } else {
                    None
                }
            } else {
                if m <= pos_max {
                    Some((false, m))
                } else {
                    None
                }
            }
        },
    }
}

/// Parses unsigned integer text with maximum `max`.
fn parse_unsigned_chars(s: &Vec<char>, max: u128) -> (r: Option<u128>)
    ensures
        match r {
            Some(m) => spec_parse_ranged(s@, false, 0, max as int) == Some(m as int) && m <= max,
            None => spec_parse_ranged(s@, false, 0, max as int) is None,
        },
{
    match parse_int_chars(s, false, 0, max) {
        Some((_neg, m)) => Some(m),
        None => None,
    }
}

// ---------------------------------------------------------------------------
// Boolean and character text
// ---------------------------------------------------------------------------

/// `s` equals `t` after ASCII-lowercasing the characters of `s`.
pub open spec fn text_eq_ci(s: Seq<char>, t: Seq<char>) -> bool {
    s.len() == t.len() && forall|i: int| 0 <= i < s.len() ==> lower_char(#[trigger] s[i]) == t[i]
}

/// The boolean that the text denotes: `true`/`1` and `false`/`0`,
/// case-insensitively; `None` for any other text.
pub open spec fn spec_parse_bool(s: Seq<char>) -> Option<bool> {
    if text_eq_ci(s, "true"@) || text_eq_ci(s, "1"@) {
        Some(true)
    } else if text_eq_ci(s, "false"@) || text_eq_ci(s, "0"@) {
        Some(false)
    } else {
        None
    }
}

/// The character that the text denotes: defined exactly when the text is a
/// single character.
pub open spec fn spec_parse_char(s: Seq<char>) -> Option<char> {
    if s.len() == 1 {
        Some(s[0])
    } else {
        None
    }
}

/// Compares `s`, lowercased character by character, against `t`.
fn chars_eq_ci(s: &Vec<char>, t: &str) -> (r: bool)
    ensures
        r == text_eq_ci(s@, t@),
{
    let n = t.unicode_len();
    if s.len() != n {
        return false;
    }
    let mut i: usize = 0;
    while i < n
        invariant
            i <= n,
            n == t@.len(),
            s@.len() == n,
            forall|j: int| 0 <= j < i ==> lower_char(#[trigger] s@[j]) == t@[j],
        decreases n - i,
    {
        if char_to_lower(s[i]) != t.get_char(i) {
            return false;
        }
        i += 1;
    }
    true
}

/// Parses boolean text: accepts `true`, `false`, `1`, `0`,
/// case-insensitively for the alphabetic forms.
pub fn parse_bool(s: &str) -> (r: Result<bool, ParseError>)
    ensures
        (r is Ok) == (spec_parse_bool(s@) is Some),
        match r {
            Ok(b) => spec_parse_bool(s@) == Some(b),
            Err(e) => e@ == ParseErrView::Bool(s@),
        },
{
    let cs = str_chars(s);
    if chars_eq_ci(&cs, "true") || chars_eq_ci(&cs, "1") {
        Ok(true)
    } else if chars_eq_ci(&cs, "false") || chars_eq_ci(&cs, "0") {
        Ok(false)
    } else {
        Err(ParseError::ParseBool(String::from_str(s)))
    }
}

/// Parses character text: the trimmed text must decode to exactly one
/// character; the error carries the text as given.
pub fn parse_char(s: &str) -> (r: Result<char, ParseError>)
    ensures
        (r is Ok) == (spec_parse_char(spec_trim(s@)) is Some),
        match r {
            Ok(c) => spec_parse_char(spec_trim(s@)) == Some(c),
            Err(e) => e@ == ParseErrView::Char(s@),
        },
{
    let cs = str_chars(s);
    let t = trim_chars(&cs);
    if t.len() == 1 {
        Ok(t[0])
    } else {
        Err(ParseError::ParseChar(String::from_str(s)))
    }
}

// ---------------------------------------------------------------------------
// The capability of being parsed from text
// ---------------------------------------------------------------------------

/// The stringified cause for integer text that does not parse.
pub open spec fn spec_int_err_text(s: Seq<char>) -> Seq<char> {
    "invalid integer '"@ + s + "'"@
}

/// The stringified cause for boolean text that does not parse.
pub open spec fn spec_bool_err_text(s: Seq<char>) -> Seq<char> {
    "expected 'true', 'false', '1', or '0', got '"@ + s + "'"@
}

/// The stringified cause for character text that does not parse.
pub open spec fn spec_char_err_text(s: Seq<char>) -> Seq<char> {
    "expected single character, got '"@ + s + "'"@
}

pub(crate) fn int_err_text(s: &str) -> (r: String)
    ensures
        r@ == spec_int_err_text(s@),
{
    let mut m = String::new();
    m.append("invalid integer '");
    m.append(s);
    m.append("'");
    proof {
        assert(m@ =~= spec_int_err_text(s@));
    }
    m
}

pub(crate) fn bool_err_text(s: &str) -> (r: String)
    ensures
        r@ == spec_bool_err_text(s@),
{
    let mut m = String::new();
    m.append("expected 'true', 'false', '1', or '0', got '");
    m.append(s);
    m.append("'");
    proof {
        assert(m@ =~= spec_bool_err_text(s@));
    }
    m
}

pub(crate) fn char_err_text(s: &str) -> (r: String)
    ensures
        r@ == spec_char_err_text(s@),
{
    let mut m = String::new();
    m.append("expected single character, got '");
    m.append(s);
    m.append("'");
    proof {
        assert(m@ =~= spec_char_err_text(s@));
    }
    m
}

/// A kind of value that can be parsed from the text of an environment
/// variable.  List coercion is generic over this capability.
pub trait FromText: Sized {
    /// The text `s` denotes a value of this kind.
    spec fn text_ok(s: Seq<char>) -> bool;

    /// The text `s` denotes exactly the value `v`.
    spec fn is_value_of(s: Seq<char>, v: Self) -> bool;

    /// The stringified cause reported when `s` does not parse.
    spec fn spec_err_text(s: Seq<char>) -> Seq<char>;

    /// The structured cause reported when `s` does not parse as this
    /// kind.  Each built-in kind reports its own cause carrying the
    /// offending text; a kind outside the built-in set keeps only the
    /// fixed invalid-text marker.
    spec fn spec_cause(s: Seq<char>) -> ParseErrView;

    /// Builds the structured cause for text that does not parse.
    fn parse_cause(s: &str) -> (e: ParseError)
        ensures
            e@ == Self::spec_cause(s@),
    ;

    /// Parses `s` into a value of this kind, or reports the stringified
    /// cause.
    fn from_text(s: &str) -> (r: Result<Self, String>)
        ensures
            (r is Ok) == Self::text_ok(s@),
            match r {
                Ok(v) => Self::is_value_of(s@, v),
                Err(m) => m@ == Self::spec_err_text(s@),
            },
    ;
}

impl FromText for String {
    /// Any text denotes itself; the empty string included.
    open spec fn text_ok(s: Seq<char>) -> bool {
        true
    }

    open spec fn is_value_of(s: Seq<char>, v: String) -> bool {
        v@ == s
    }

    open spec fn spec_err_text(s: Seq<char>) -> Seq<char> {
        Seq::empty()
    }

    open spec fn spec_cause(s: Seq<char>) -> ParseErrView {
        ParseErrView::Utf8
    }

    fn parse_cause(s: &str) -> (e: ParseError) {
        ParseError::InvalidUtf8
    }

    fn from_text(s: &str) -> (r: Result<String, String>) {
        Ok(String::from_str(s))
    }
}

impl FromText for bool {
    open spec fn text_ok(s: Seq<char>) -> bool {
        spec_parse_bool(s) is Some
    }

    open spec fn is_value_of(s: Seq<char>, v: bool) -> bool {
        spec_parse_bool(s) == Some(v)
    }

    open spec fn spec_err_text(s: Seq<char>) -> Seq<char> {
        spec_bool_err_text(s)
    }

    open spec fn spec_cause(s: Seq<char>) -> ParseErrView {
        ParseErrView::Bool(s)
    }

    fn parse_cause(s: &str) -> (e: ParseError) {
        ParseError::ParseBool(String::from_str(s))
    }

    fn from_text(s: &str) -> (r: Result<bool, String>) {
        let cs = str_chars(s);
        if chars_eq_ci(&cs, "true") || chars_eq_ci(&cs, "1") {
            Ok(true)
        } else if chars_eq_ci(&cs, "false") || chars_eq_ci(&cs, "0") {
            Ok(false)
        } else {
            Err(bool_err_text(s))
        }
    }
}

impl FromText for char {
    open spec fn text_ok(s: Seq<char>) -> bool {
        spec_parse_char(spec_trim(s)) is Some
    }

    open spec fn is_value_of(s: Seq<char>, v: char) -> bool {
        spec_parse_char(spec_trim(s)) == Some(v)
    }

    open spec fn spec_err_text(s: Seq<char>) -> Seq<char> {
        spec_char_err_text(s)
    }

    open spec fn spec_cause(s: Seq<char>) -> ParseErrView {
        ParseErrView::Char(s)
    }

    fn parse_cause(s: &str) -> (e: ParseError) {
        ParseError::ParseChar(String::from_str(s))
    }

    fn from_text(s: &str) -> (r: Result<char, String>) {
        let cs = str_chars(s);
        let t = trim_chars(&cs);
        if t.len() == 1 {
            Ok(t[0])
        } else {
            Err(char_err_text(s))
        }
    }
}

impl FromText for u8 {
    open spec fn text_ok(s: Seq<char>) -> bool {
        spec_parse_ranged(s, false, 0, u8::MAX as int) is Some
    }

    open spec fn is_value_of(s: Seq<char>, v: u8) -> bool {
        spec_parse_ranged(s, false, 0, u8::MAX as int) == Some(v as int)
    }

    open spec fn spec_err_text(s: Seq<char>) -> Seq<char> {
        spec_int_err_text(s)
    }

    open spec fn spec_cause(s: Seq<char>) -> ParseErrView {
        ParseErrView::Int(s)
    }

    fn parse_cause(s: &str) -> (e: ParseError) {
        ParseError::ParseInt(String::from_str(s))
    }

    fn from_text(s: &str) -> (r: Result<u8, String>) {
        let cs = str_chars(s);
        match parse_unsigned_chars(&cs, u8::MAX as u128) {
            Some(m) => Ok(m as u8),
            None => Err(int_err_text(s)),
        }
    }
}

impl FromText for u16 {
    open spec fn text_ok(s: Seq<char>) -> bool {
        spec_parse_ranged(s, false, 0, u16::MAX as int) is Some
    }

    open spec fn is_value_of(s: Seq<char>, v: u16) -> bool {
        spec_parse_ranged(s, false, 0, u16::MAX as int) == Some(v as int)
    }

    open spec fn spec_err_text(s: Seq<char>) -> Seq<char> {
        spec_int_err_text(s)
    }

    open spec fn spec_cause(s: Seq<char>) -> ParseErrView {
        ParseErrView::Int(s)
    }

    fn parse_cause(s: &str) -> (e: ParseError) {
        ParseError::ParseInt(String::from_str(s))
    }

    fn from_text(s: &str) -> (r: Result<u16, String>) {
        let cs = str_chars(s);
        match parse_unsigned_chars(&cs, u16::MAX as u128) {
            Some(m) => Ok(m as u16),
            None => Err(int_err_text(s)),
        }
    }
}

impl FromText for u32 {
    open spec fn text_ok(s: Seq<char>) -> bool {
        spec_parse_ranged(s, false, 0, u32::MAX as int) is Some
    }

    open spec fn is_value_of(s: Seq<char>, v: u32) -> bool {
        spec_parse_ranged(s, false, 0, u32::MAX as int) == Some(v as int)
    }

    open spec fn spec_err_text(s: Seq<char>) -> Seq<char> {
        spec_int_err_text(s)
    }

    open spec fn spec_cause(s: Seq<char>) -> ParseErrView {
        ParseErrView::Int(s)
    }

    fn parse_cause(s: &str) -> (e: ParseError) {
        ParseError::ParseInt(String::from_str(s))
    }

    fn from_text(s: &str) -> (r: Result<u32, String>) {
        let cs = str_chars(s);
        match parse_unsigned_chars(&cs, u32::MAX as u128) {
            Some(m) => Ok(m as u32),
            None => Err(int_err_text(s)),
        }
    }
}

impl FromText for u64 {
    open spec fn text_ok(s: Seq<char>) -> bool {
        spec_parse_ranged(s, false, 0, u64::MAX as int) is Some
    }

    open spec fn is_value_of(s: Seq<char>, v: u64) -> bool {
        spec_parse_ranged(s, false, 0, u64::MAX as int) == Some(v as int)
    }

    open spec fn spec_err_text(s: Seq<char>) -> Seq<char> {
        spec_int_err_text(s)
    }

    open spec fn spec_cause(s: Seq<char>) -> ParseErrView {
        ParseErrView::Int(s)
    }

    fn parse_cause(s: &str) -> (e: ParseError) {
        ParseError::ParseInt(String::from_str(s))
    }

    fn from_text(s: &str) -> (r: Result<u64, String>) {
        let cs = str_chars(s);
        match parse_unsigned_chars(&cs, u64::MAX as u128) {
            Some(m) => Ok(m as u64),
            None => Err(int_err_text(s)),
        }
    }
}

impl FromText for u128 {
    open spec fn text_ok(s: Seq<char>) -> bool {
        spec_parse_ranged(s, false, 0, u128::MAX as int) is Some
    }

    open spec fn is_value_of(s: Seq<char>, v: u128) -> bool {
        spec_parse_ranged(s, false, 0, u128::MAX as int) == Some(v as int)
    }

    open spec fn spec_err_text(s: Seq<char>) -> Seq<char> {
        spec_int_err_text(s)
    }

    open spec fn spec_cause(s: Seq<char>) -> ParseErrView {
        ParseErrView::Int(s)
    }

    fn parse_cause(s: &str) -> (e: ParseError) {
        ParseError::ParseInt(String::from_str(s))
    }

    fn from_text(s: &str) -> (r: Result<u128, String>) {
        let cs = str_chars(s);
        match parse_unsigned_chars(&cs, u128::MAX) {
            Some(m) => Ok(m),
            None => Err(int_err_text(s)),
        }
    }
}

impl FromText for usize {
    open spec fn text_ok(s: Seq<char>) -> bool {
        spec_parse_ranged(s, false, 0, usize::MAX as int) is Some
    }

    open spec fn is_value_of(s: Seq<char>, v: usize) -> bool {
        spec_parse_ranged(s, false, 0, usize::MAX as int) == Some(v as int)
    }

    open spec fn spec_err_text(s: Seq<char>) -> Seq<char> {
        spec_int_err_text(s)
    }

    open spec fn spec_cause(s: Seq<char>) -> ParseErrView {
        ParseErrView::Int(s)
    }

    fn parse_cause(s: &str) -> (e: ParseError) {
        ParseError::ParseInt(String::from_str(s))
    }

    fn from_text(s: &str) -> (r: Result<usize, String>) {
        let cs = str_chars(s);
        match parse_unsigned_chars(&cs, usize::MAX as u128) {
            Some(m) => Ok(m as usize),
            None => Err(int_err_text(s)),
        }
    }
}

impl FromText for i8 {
    open spec fn text_ok(s: Seq<char>) -> bool {
        spec_parse_ranged(s, true, i8::MIN as int, i8::MAX as int) is Some
    }

    open spec fn is_value_of(s: Seq<char>, v: i8) -> bool {
        spec_parse_ranged(s, true, i8::MIN as int, i8::MAX as int) == Some(v as int)
    }

    open spec fn spec_err_text(s: Seq<char>) -> Seq<char> {
        spec_int_err_text(s)
    }

    open spec fn spec_cause(s: Seq<char>) -> ParseErrView {
        ParseErrView::Int(s)
    }

    fn parse_cause(s: &str) -> (e: ParseError) {
        ParseError::ParseInt(String::from_str(s))
    }

    fn from_text(s: &str) -> (r: Result<i8, String>) {
        let cs = str_chars(s);
        match parse_int_chars(&cs, true, 128, 127) {
            Some((sg, m)) => if sg {
                if m == 128 {
                    Ok(i8::MIN)
                } else {
                    Ok(-(m as i8))
                }
            } else {
                Ok(m as i8)
            },
            None => Err(int_err_text(s)),
        }
    }
}

impl FromText for i16 {
    open spec fn text_ok(s: Seq<char>) -> bool {
        spec_parse_ranged(s, true, i16::MIN as int, i16::MAX as int) is Some
    }

    open spec fn is_value_of(s: Seq<char>, v: i16) -> bool {
        spec_parse_ranged(s, true, i16::MIN as int, i16::MAX as int) == Some(v as int)
    }

    open spec fn spec_err_text(s: Seq<char>) -> Seq<char> {
        spec_int_err_text(s)
    }

    open spec fn spec_cause(s: Seq<char>) -> ParseErrView {
        ParseErrView::Int(s)
    }

    fn parse_cause(s: &str) -> (e: ParseError) {
        ParseError::ParseInt(String::from_str(s))
    }

    fn from_text(s: &str) -> (r: Result<i16, String>) {
        let cs = str_chars(s);
        match parse_int_chars(&cs, true, 32768, 32767) {
            Some((sg, m)) => if sg {
                if m == 32768 {
                    Ok(i16::MIN)
                } else {
                    Ok(-(m as i16))
                }
            } else {
                Ok(m as i16)
            },
            None => Err(int_err_text(s)),
        }
    }
}

impl FromText for i32 {
    open spec fn text_ok(s: Seq<char>) -> bool {
        spec_parse_ranged(s, true, i32::MIN as int, i32::MAX as int) is Some
    }

    open spec fn is_value_of(s: Seq<char>, v: i32) -> bool {
        spec_parse_ranged(s, true, i32::MIN as int, i32::MAX as int) == Some(v as int)
    }

    open spec fn spec_err_text(s: Seq<char>) -> Seq<char> {
        spec_int_err_text(s)
    }

    open spec fn spec_cause(s: Seq<char>) -> ParseErrView {
        ParseErrView::Int(s)
    }

    fn parse_cause(s: &str) -> (e: ParseError) {
        ParseError::ParseInt(String::from_str(s))
    }

    fn from_text(s: &str) -> (r: Result<i32, String>) {
        let cs = str_chars(s);
        match parse_int_chars(&cs, true, 2147483648, 2147483647) {
            Some((sg, m)) => if sg {
                if m == 2147483648 {
                    Ok(i32::MIN)
                } else {
                    Ok(-(m as i32))
                }
            } else {
                Ok(m as i32)
            },
            None => Err(int_err_text(s)),
        }
    }
}

impl FromText for i64 {
    open spec fn text_ok(s: Seq<char>) -> bool {
        spec_parse_ranged(s, true, i64::MIN as int, i64::MAX as int) is Some
    }

    open spec fn is_value_of(s: Seq<char>, v: i64) -> bool {
        spec_parse_ranged(s, true, i64::MIN as int, i64::MAX as int) == Some(v as int)
    }

    open spec fn spec_err_text(s: Seq<char>) -> Seq<char> {
        spec_int_err_text(s)
    }

    open spec fn spec_cause(s: Seq<char>) -> ParseErrView {
        ParseErrView::Int(s)
    }

    fn parse_cause(s: &str) -> (e: ParseError) {
        ParseError::ParseInt(String::from_str(s))
    }

    fn from_text(s: &str) -> (r: Result<i64, String>) {
        let cs = str_chars(s);
        match parse_int_chars(&cs, true, 9223372036854775808, 9223372036854775807) {
            Some((sg, m)) => if sg {
                if m == 9223372036854775808 {
                    Ok(i64::MIN)
                } else {
                    Ok(-(m as i64))
                }
            } else {
                Ok(m as i64)
            },
            None => Err(int_err_text(s)),
        }
    }
}

impl FromText for i128 {
    open spec fn text_ok(s: Seq<char>) -> bool {
        spec_parse_ranged(s, true, i128::MIN as int, i128::MAX as int) is Some
    }

    open spec fn is_value_of(s: Seq<char>, v: i128) -> bool {
        spec_parse_ranged(s, true, i128::MIN as int, i128::MAX as int) == Some(v as int)
    }

    open spec fn spec_err_text(s: Seq<char>) -> Seq<char> {
        spec_int_err_text(s)
    }

    open spec fn spec_cause(s: Seq<char>) -> ParseErrView {
        ParseErrView::Int(s)
    }

    fn parse_cause(s: &str) -> (e: ParseError) {
        ParseError::ParseInt(String::from_str(s))
    }

    fn from_text(s: &str) -> (r: Result<i128, String>) {
        let cs = str_chars(s);
        match parse_int_chars(
            &cs,
            true,
            170141183460469231731687303715884105728,
            170141183460469231731687303715884105727,
        ) {
            Some((sg, m)) => if sg {
                if m == 170141183460469231731687303715884105728 {
                    Ok(i128::MIN)
                } else {
                    Ok(-(m as i128))
                }
            } else {
                Ok(m as i128)
            },
            None => Err(int_err_text(s)),
        }
    }
}

impl FromText for isize {
    open spec fn text_ok(s: Seq<char>) -> bool {
        spec_parse_ranged(s, true, isize::MIN as int, isize::MAX as int) is Some
    }

    open spec fn is_value_of(s: Seq<char>, v: isize) -> bool {
        spec_parse_ranged(s, true, isize::MIN as int, isize::MAX as int) == Some(v as int)
    }

    open spec fn spec_err_text(s: Seq<char>) -> Seq<char> {
        spec_int_err_text(s)
    }

    open spec fn spec_cause(s: Seq<char>) -> ParseErrView {
        ParseErrView::Int(s)
    }

    fn parse_cause(s: &str) -> (e: ParseError) {
        ParseError::ParseInt(String::from_str(s))
    }

    fn from_text(s: &str) -> (r: Result<isize, String>) {
        let cs = str_chars(s);
        let neg_mag: u128 = (isize::MAX as u128) + 1;
        match parse_int_chars(&cs, true, neg_mag, isize::MAX as u128) {
            Some((sg, m)) => if sg {
                if m == neg_mag {
                    Ok(isize::MIN)
                } else {
                    Ok(-(m as isize))
                }
            } else {
                Ok(m as isize)
            },
            None => Err(int_err_text(s)),
        }
    }
}

} // verus!
