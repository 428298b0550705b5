//! Character-level helpers for the scanner: character classes, hex digits,
//! and conversions between `&str`/`String` and sequences of characters.

use vstd::prelude::*;
use vstd::std_specs::iter::IteratorSpec;

verus! {

broadcast use vstd::string::axiom_spec_iter, vstd::string::next_postcondition;

/// ASCII decimal digit.
pub open spec fn is_digit_char(c: char) -> bool {
    ('0' as u32) <= (c as u32) && (c as u32) <= ('9' as u32)
}

/// The numeric value of an ASCII decimal digit.
pub open spec fn digit_val(c: char) -> u32 {
    ((c as u32) - ('0' as u32)) as u32
}

/// Whitespace accepted between tokens: space, tab, carriage return, newline.
pub open spec fn is_whitespace_char(c: char) -> bool {
    c == ' ' || c == '\t' || c == '\r' || c == '\n'
}

/// ASCII hexadecimal digit (either case).
pub open spec fn is_hex_digit_char(c: char) -> bool {
    is_digit_char(c) || (('a' as u32) <= (c as u32) && (c as u32) <= ('f' as u32)) || (('A'
        as u32) <= (c as u32) && (c as u32) <= ('F' as u32))
}

/// The numeric value of an ASCII hexadecimal digit.
pub open spec fn hex_digit_val(c: char) -> u32 {
    if is_digit_char(c) {
        digit_val(c)
    } else if ('a' as u32) <= (c as u32) && (c as u32) <= ('f' as u32) {
        ((c as u32) - ('a' as u32) + 10) as u32
    } else {
        ((c as u32) - ('A' as u32) + 10) as u32
    }
}

/// What `char::is_alphabetic` returns on characters beyond ASCII; the
/// result depends on the character alone (the Unicode `Alphabetic`
/// property).
pub uninterp spec fn alphabetic_beyond_ascii(c: char) -> bool;

/// Whether a character counts as alphabetic: on the ASCII range exactly
/// the letters, beyond it the Unicode `Alphabetic` property.
pub open spec fn alphabetic(c: char) -> bool {
    if (c as u32) < 128 {
        (('a' as u32) <= (c as u32) && (c as u32) <= ('z' as u32)) || (('A' as u32) <= (c as u32)
            && (c as u32) <= ('Z' as u32))
    } else {
        alphabetic_beyond_ascii(c)
    }
}

/// Relies on `char::is_alphabetic`: a pure function of the character whose
/// restriction to the ASCII range is exactly the letters.
#[verifier::external_body]
pub fn char_is_alphabetic(c: char) -> (r: bool)
    ensures
        r == alphabetic(c),
        (c as u32) >= 128 ==> r == alphabetic_beyond_ascii(c),
{
    c.is_alphabetic()
}

/// Relies on `char::from_u32`: returns the scalar value `u` as a character
/// exactly when `u` is a Unicode scalar value (not a surrogate, at most
/// 0x10FFFF), and nothing otherwise.
#[verifier::external_body]
pub fn char_from_u32(u: u32) -> (r: Option<char>)
    ensures
        vstd::utf8::is_scalar(u) ==> r == Some(u as char),
        !vstd::utf8::is_scalar(u) ==> r is None,
{
    char::from_u32(u)
}

/// Relies on `String::push`: appends one character to the end of the string.
#[verifier::external_body]
pub fn push_char(s: &mut String, c: char)
    ensures
        final(s)@ == old(s)@.push(c),
{
    s.push(c)
}

/// Executable decimal-digit test.
pub fn digit_char(c: char) -> (r: bool)
    ensures
        r == is_digit_char(c),
{
    let u = c as u32;
    ('0' as u32) <= u && u <= ('9' as u32)
}

/// Executable hexadecimal-digit test.
pub fn hex_digit_char(c: char) -> (r: bool)
    ensures
        r == is_hex_digit_char(c),
{
    let u = c as u32;
    (('0' as u32) <= u && u <= ('9' as u32)) || (('a' as u32) <= u && u <= ('f' as u32)) || (('A'
        as u32) <= u && u <= ('F' as u32))
}

/// Executable hexadecimal-digit value.
pub fn hex_digit_value(c: char) -> (r: u32)
    requires
        is_hex_digit_char(c),
    ensures
        r == hex_digit_val(c),
{
    let u = c as u32;
    if ('0' as u32) <= u && u <= ('9' as u32) {
        u - ('0' as u32)
    } else if ('a' as u32) <= u && u <= ('f' as u32) {
        u - ('a' as u32) + 10
    } else {
        u - ('A' as u32) + 10
    }
}

/// The characters of a string slice, in order.
pub fn chars_of(s: &str) -> (v: Vec<char>)
    ensures
        v@ == s@,
{
    let mut it = s.chars();
    let mut v: Vec<char> = Vec::new();
    loop
        invariant
            v@ + it.remaining() == s@,
            it.obeys_prophetic_iter_laws(),
        decreases s@.len() - v@.len(),
    {
        match it.next() {
            Some(c) => {
                v.push(c);
                proof {
                    assert(v@ + it.remaining() =~= s@);
                }
            },
            None => {
                proof {
                    assert(v@ =~= s@);
                }
                return v;
            },
        }
    }
}

/// The substring `v[from..to]` as an owned string.
pub fn string_from_range(v: &Vec<char>, from: usize, to: usize) -> (s: String)
    requires
        from <= to <= v@.len(),
    ensures
        s@ == v@.subrange(from as int, to as int),
{
    let mut s = String::new();
    let mut i: usize = from;
    while i < to
        invariant
            from <= i <= to <= v@.len(),
            s@ == v@.subrange(from as int, i as int),
        decreases to - i,
    {
        push_char(&mut s, v[i]);
        i = i + 1;
        proof {
            assert(s@ =~= v@.subrange(from as int, i as int));
        }
    }
    s
}

} // verus!

verus! {

/// Whether the characters of `s` spell exactly `w`.
pub fn str_eq_chars(s: &str, w: &[char]) -> (r: bool)
    ensures
        r == (s@ == w@),
{
    let v = chars_of(s);
    if v.len() != w.len() {
        return false;
    }
    let mut k: usize = 0;
    #[verifier::loop_isolation(false)]
    while k < w.len()
        invariant
            k <= w@.len(),
            v@.len() == w@.len(),
            forall|j: int| 0 <= j < k ==> v@[j] == w@[j],
        decreases w@.len() - k,
    {
        if v[k] != w[k] {
            return false;
        }
        k = k + 1;
    }
    proof {
        assert(v@ =~= w@);
    }
    true
}

} // verus!

verus! {

/// The characters of `w` as an owned string.
pub fn string_of_chars(w: &[char]) -> (s: String)
    ensures
        s@ == w@,
{
    let mut s = String::new();
    let mut k: usize = 0;
    #[verifier::loop_isolation(false)]
    while k < w.len()
        invariant
            k <= w@.len(),
            s@ == w@.subrange(0, k as int),
        decreases w@.len() - k,
    {
        push_char(&mut s, w[k]);
        k = k + 1;
        proof {
            assert(s@ =~= w@.subrange(0, k as int));
        }
    }
    proof {
        assert(w@.subrange(0, w@.len() as int) =~= w@);
    }
    s
}

} // verus!
