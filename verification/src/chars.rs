//! Character classification and digit arithmetic.
//!
//! The three Unicode classification predicates are taken from the standard
//! library behind named results, since their full definitions span the
//! Unicode tables. Digit recognition and base conversion are the library's
//! own verified code, stated exactly.

use vstd::prelude::*;

verus! {

/// Whether `char::is_whitespace` holds of `c`; a function of the character alone.
pub uninterp spec fn is_whitespace_char(c: char) -> bool;

/// Whether `char::is_alphabetic` holds of `c`; a function of the character alone.
pub uninterp spec fn is_alpha_char(c: char) -> bool;

/// Whether `char::is_alphanumeric` holds of `c`; a function of the character alone.
pub uninterp spec fn is_alphanum_char(c: char) -> bool;

/// Relies on `char::is_whitespace`: whether the character has the Unicode
/// whitespace property, which depends on the character alone.
#[verifier::external_body]
pub(crate) fn char_is_whitespace(c: char) -> (r: bool)
    ensures
        r == is_whitespace_char(c),
{
    c.is_whitespace()
}

/// Relies on `char::is_alphabetic`: whether the character has the Unicode
/// alphabetic property, which depends on the character alone.
#[verifier::external_body]
pub(crate) fn char_is_alphabetic(c: char) -> (r: bool)
    ensures
        r == is_alpha_char(c),
{
    c.is_alphabetic()
}

/// Relies on `char::is_alphanumeric`: whether the character is alphabetic or
/// a Unicode number, which depends on the character alone.
#[verifier::external_body]
pub(crate) fn char_is_alphanumeric(c: char) -> (r: bool)
    ensures
        r == is_alphanum_char(c),
{
    c.is_alphanumeric()
}

/// Relies on `String::push`: appends the given character to the end of the
/// string.
#[verifier::external_body]
pub(crate) fn string_push_char(s: &mut String, c: char)
    ensures
        final(s)@ == old(s)@.push(c),
{
    s.push(c);
}

/// Builds the string spelled by a character sequence.
pub fn string_from_chars(v: &Vec<char>) -> (s: String)
    ensures
        s@ == v@,
{
    let mut s = String::new();
    let mut i: usize = 0;
    while i < v.len()
        invariant
            i <= v@.len(),
            s@ == v@.take(i as int),
        decreases v@.len() - i,
    {
        string_push_char(&mut s, v[i]);
        proof {
            assert(v@.take(i as int).push(v@[i as int]) =~= v@.take(i + 1 as int));
        }
        i = i + 1;
    }
    proof {
        assert(v@.take(v@.len() as int) =~= v@);
    }
    s
}

/// The value a character denotes as a digit: `0`-`9`, then `a`-`z` and
/// `A`-`Z` for ten and up; a value of 99 marks a character that is a digit
/// in no radix up to 36.
pub open spec fn digit_val(c: char) -> int {
    let u = c as u32;
    if 48 <= u <= 57 {
        u - 48
    } else if 97 <= u <= 122 {
        u - 97 + 10
    } else if 65 <= u <= 90 {
        u - 65 + 10
    } else {
        99
    }
}

/// Whether `c` is a valid digit in the given radix, as `char::is_digit`
/// decides it for radixes up to 36.
pub open spec fn is_digit_spec(c: char, radix: int) -> bool {
    radix <= 36 && digit_val(c) < radix
}

/// The digit value of `c`, executable.
pub fn digit_of(c: char) -> (v: u32)
    ensures
        v == digit_val(c),
{
    let u = c as u32;
    if 48 <= u && u <= 57 {
        u - 48
    } else if 97 <= u && u <= 122 {
        u - 97 + 10
    } else if 65 <= u && u <= 90 {
        u - 65 + 10
    } else {
        99
    }
}

/// Whether `c` is a valid digit in `radix`.
pub fn is_digit_in(c: char, radix: u32) -> (r: bool)
    requires
        radix <= 36,
    ensures
        r == is_digit_spec(c, radix as int),
{
    digit_of(c) < radix
}

/// The unsigned value spelled by a digit run, most significant digit first.
pub open spec fn digits_val(s: Seq<char>, radix: int) -> int
    decreases s.len(),
{
    if s.len() == 0 {
        0
    } else {
        digits_val(s.drop_last(), radix) * radix + digit_val(s.last())
    }
}

pub proof fn lemma_digits_val_nonneg(s: Seq<char>, radix: int)
    requires
        radix >= 1,
    ensures
        digits_val(s, radix) >= 0,
    decreases s.len(),
{
    if s.len() > 0 {
        lemma_digits_val_nonneg(s.drop_last(), radix);
        let p = digits_val(s.drop_last(), radix);
        assert(p * radix >= 0) by (nonlinear_arith)
            requires p >= 0 && radix >= 1;
    }
}

/// Extending a digit run never lowers its value.
pub proof fn lemma_digits_val_prefix_le(s: Seq<char>, radix: int, k: int)
    requires
        radix >= 1,
        0 <= k <= s.len(),
    ensures
        digits_val(s.take(k), radix) <= digits_val(s, radix),
    decreases s.len() - k,
{
    if k < s.len() {
        lemma_digits_val_prefix_le(s, radix, k + 1);
        let a = digits_val(s.take(k), radix);
        let b = digits_val(s.take(k + 1), radix);
        assert(s.take(k + 1).drop_last() =~= s.take(k));
        assert(b == a * radix + digit_val(s[k]));
        lemma_digits_val_nonneg(s.take(k), radix);
        assert(a <= a * radix) by (nonlinear_arith)
            requires a >= 0 && radix >= 1;
    } else {
        assert(s.take(k) =~= s);
    }
}

} // verus!
