//! Parsing the primitive families: every signed and unsigned integer width
//! through the `JsonNumber` capability, and booleans. A number token's
//! lexeme is interpreted for the requested width; a fractional or exponent
//! form, a negative value for an unsigned target, or an out-of-range
//! magnitude is `InvalidNumber`.

use vstd::prelude::*;
use crate::chars::{chars_of, digit_char, digit_val, is_digit_char, str_eq_chars};
use crate::parser::{
    spec_advance, spec_peek, Parse, Parser, ParserErr, ParserErrKind, SpecParser, SpecParserErr,
    SpecParserErrKind,
};
use crate::token::{SpecTokenKind, TokenKind};

verus! {

/// The number named by a run of decimal digits, most significant first.
pub open spec fn spec_digits_val(s: Seq<char>) -> int
    decreases s.len(),
{
    if s.len() == 0 {
        0
    } else {
        spec_digits_val(s.drop_last()) * 10 + digit_val(s.last())
    }
}

/// Every character is a decimal digit.
pub open spec fn spec_all_digits(s: Seq<char>) -> bool {
    forall|i: int| 0 <= i < s.len() ==> is_digit_char(s[i])
}

/// The shape an integer lexeme must have: an optional minus sign followed
/// by at least one digit and nothing else.
pub open spec fn spec_int_lexeme_ok(lex: Seq<char>) -> bool {
    if lex.len() > 0 && lex[0] == '-' {
        lex.len() > 1 && spec_all_digits(lex.subrange(1, lex.len() as int))
    } else {
        lex.len() > 0 && spec_all_digits(lex)
    }
}

/// The integer an integer lexeme names.
pub open spec fn spec_int_lexeme_val(lex: Seq<char>) -> int {
    if lex.len() > 0 && lex[0] == '-' {
        -spec_digits_val(lex.subrange(1, lex.len() as int))
    } else {
        spec_digits_val(lex)
    }
}

/// The signed value of a sign-and-magnitude pair.
pub open spec fn spec_signed(neg: bool, mag: u128) -> int {
    if neg {
        -(mag as int)
    } else {
        mag as int
    }
}

/// A digit run names a non-negative number.
pub proof fn lemma_digits_val_nonneg(s: Seq<char>)
    ensures
        spec_digits_val(s) >= 0,
    decreases s.len(),
{
    if s.len() > 0 {
        lemma_digits_val_nonneg(s.drop_last());
    }
}

/// Extending a digit run to the right never shrinks the number it names.
pub proof fn lemma_digits_val_prefix_le(s: Seq<char>, n: int)
    requires
        0 <= n <= s.len(),
    ensures
        spec_digits_val(s.subrange(0, n)) <= spec_digits_val(s),
    decreases s.len() - n,
{
    if n == s.len() {
        assert(s.subrange(0, n) =~= s);
    } else {
        lemma_digits_val_prefix_le(s, n + 1);
        let p = s.subrange(0, n + 1);
        assert(p.drop_last() =~= s.subrange(0, n));
        lemma_digits_val_nonneg(p.drop_last());
        assert(spec_digits_val(p) == spec_digits_val(p.drop_last()) * 10 + digit_val(p.last()));
        assert(spec_digits_val(p.drop_last()) <= spec_digits_val(p.drop_last()) * 10) by (
        nonlinear_arith)
            requires
                spec_digits_val(p.drop_last()) >= 0,
        ;
    }
}

/// The capability "interpret an integer lexeme at this numeric width":
/// the width's range, whether it admits a sign, and the construction of a
/// value from sign and magnitude.
pub trait JsonNumber: Sized + DeepView {
    /// The least value of the width.
    spec fn spec_min() -> int;

    /// The greatest value of the width.
    spec fn spec_max() -> int;

    /// The model of the value naming `v`.
    spec fn spec_of_int(v: int) -> <Self as DeepView>::V;

    /// The range sits inside what a sign-and-magnitude pair over `u128`
    /// can name.
    proof fn lemma_range()
        ensures
            Self::spec_min() <= 0,
            0 <= Self::spec_max(),
            Self::spec_max() <= u128::MAX as int,
            -(u128::MAX as int) <= Self::spec_min(),
    ;

    /// Whether the width admits a leading minus sign at all.
    fn allows_negative() -> (r: bool)
        ensures
            r == (Self::spec_min() < 0),
    ;

    /// Whether the signed value fits the width.
    fn fits(neg: bool, mag: u128) -> (r: bool)
        ensures
            r == (Self::spec_min() <= spec_signed(neg, mag) <= Self::spec_max()),
    ;

    /// The value of the width naming the signed value.
    fn of_parts(neg: bool, mag: u128) -> (r: Self)
        requires
            Self::spec_min() <= spec_signed(neg, mag) <= Self::spec_max(),
        ensures
            r.deep_view() == Self::spec_of_int(spec_signed(neg, mag)),
    ;
}

/// A number lexeme is accepted for a width exactly when it has integer
/// shape, carries a sign only if the width admits one, and names a value
/// in range.
pub open spec fn spec_number_accepted<T: JsonNumber>(lex: Seq<char>) -> bool {
    spec_int_lexeme_ok(lex) && ((lex.len() > 0 && lex[0] == '-') ==> T::spec_min() < 0)
        && T::spec_min() <= spec_int_lexeme_val(lex) <= T::spec_max()
}

/// Consuming one token that must be a number whose lexeme is accepted for
/// the width; a rejected lexeme is `InvalidNumber` and a non-number token
/// `UnexpectedToken`, each anchored at the consumed token.
pub open spec fn spec_parse_number<T: JsonNumber>(st: SpecParser) -> Result<
    (<T as DeepView>::V, SpecParser),
    SpecParserErr,
> {
    match spec_peek(st) {
        Err(e) => Err(e),
        Ok(_) => match spec_advance(st) {
            (Err(e), _) => Err(e),
            (Ok(t), st1) => match t.kind {
                SpecTokenKind::Number => if spec_number_accepted::<T>(t.lexeme) {
                    Ok((T::spec_of_int(spec_int_lexeme_val(t.lexeme)), st1))
                } else {
                    Err(
                        SpecParserErr {
                            kind: SpecParserErrKind::InvalidNumber,
                            line: t.line,
                            lexeme: t.lexeme,
                        },
                    )
                },
                _ => Err(
                    SpecParserErr {
                        kind: SpecParserErrKind::UnexpectedToken,
                        line: t.line,
                        lexeme: t.lexeme,
                    },
                ),
            },
        },
    }
}

impl<T: JsonNumber> Parse for T {
    open spec fn spec_parse(st: SpecParser) -> Result<
        (<T as DeepView>::V, SpecParser),
        SpecParserErr,
    > {
        spec_parse_number::<T>(st)
    }

    fn parse(p: &mut Parser) -> (r: Result<Self, ParserErr>) {
        match p.peek() {
            Err(e) => {
                return Err(e);
            },
            Ok(_) => {},
        };
        let tok = match p.advance() {
            Ok(t) => t,
            Err(e) => {
                return Err(e);
            },
        };
        match tok.kind {
            TokenKind::Number => {
                let ghost lex = tok.lexeme@;
                let v = chars_of(tok.lexeme.as_str());
                let neg = v.len() > 0 && v[0] == '-';
                let start: usize = if neg {
                    1
                } else {
                    0
                };
                if v.len() == start {
                    return Err(p.make_err_prev(ParserErrKind::InvalidNumber));
                }
                if neg && !T::allows_negative() {
                    return Err(p.make_err_prev(ParserErrKind::InvalidNumber));
                }
                let ghost digits = lex.subrange(start as int, lex.len() as int);
                let mut mag: u128 = 0;
                let mut i: usize = start;
                #[verifier::loop_isolation(false)]
                while i < v.len()
                    invariant
                        start <= i <= v@.len(),
                        spec_all_digits(lex.subrange(start as int, i as int)),
                        mag == spec_digits_val(lex.subrange(start as int, i as int)),
                    decreases v@.len() - i,
                {
                    let c = v[i];
                    if !digit_char(c) {
                        proof {
                            assert(digits[i - start] == lex[i as int]);
                            assert(!spec_all_digits(digits));
                        }
                        return Err(p.make_err_prev(ParserErrKind::InvalidNumber));
                    }
                    let d = (c as u32) - ('0' as u32);
                    if mag > (u128::MAX - d as u128) / 10 {
                        proof {
                            T::lemma_range();
                            let part = lex.subrange(start as int, i as int + 1);
                            assert(part.drop_last() =~= lex.subrange(start as int, i as int));
                            assert(spec_digits_val(part) == mag * 10 + digit_val(c));
                            assert(mag * 10 + d > u128::MAX) by (nonlinear_arith)
                                requires
                                    mag > (u128::MAX - d as u128) / 10,
                                    d <= 9,
                            ;
                            assert(digit_val(c) == d);
                            if spec_all_digits(digits) {
                                assert(digits.subrange(0, i - start + 1) =~= part);
                                lemma_digits_val_prefix_le(digits, i - start + 1);
                                assert(spec_digits_val(digits) >= spec_digits_val(part));
                                assert(spec_digits_val(digits) > u128::MAX as int);
                                if neg {
                                    assert(spec_int_lexeme_val(lex) == -spec_digits_val(digits));
                                    assert(spec_int_lexeme_val(lex) < T::spec_min());
                                } else {
                                    assert(lex.subrange(0, lex.len() as int) =~= lex);
                                    assert(spec_int_lexeme_val(lex) == spec_digits_val(digits));
                                    assert(spec_int_lexeme_val(lex) > T::spec_max());
                                }
                            }
                            assert(!spec_number_accepted::<T>(lex));
                        }
                        return Err(p.make_err_prev(ParserErrKind::InvalidNumber));
                    }
                    proof {
                        let part = lex.subrange(start as int, i as int + 1);
                        assert(part.drop_last() =~= lex.subrange(start as int, i as int));
                        assert(part.last() == lex[i as int]);
                    }
                    mag = mag * 10 + d as u128;
                    i = i + 1;
                }
                proof {
                    assert(digits =~= lex.subrange(start as int, lex.len() as int));
                    if neg {
                        assert(spec_int_lexeme_val(lex) == -spec_digits_val(digits));
                        assert(T::spec_min() < 0);
                    } else {
                        assert(lex.subrange(0, lex.len() as int) =~= lex);
                        assert(spec_int_lexeme_val(lex) == spec_digits_val(digits));
                    }
                }
                if !T::fits(neg, mag) {
                    return Err(p.make_err_prev(ParserErrKind::InvalidNumber));
                }
                Ok(T::of_parts(neg, mag))
            },
            _ => Err(p.make_err_prev(ParserErrKind::UnexpectedToken)),
        }
    }
}

/// Consuming one token that must be a boolean literal; its lexeme, `true`
/// or `false`, names the value.
pub open spec fn spec_parse_bool(st: SpecParser) -> Result<(bool, SpecParser), SpecParserErr> {
    match spec_peek(st) {
        Err(e) => Err(e),
        Ok(_) => match spec_advance(st) {
            (Err(e), _) => Err(e),
            (Ok(t), st1) => match t.kind {
                SpecTokenKind::Bool => Ok((t.lexeme == seq!['t', 'r', 'u', 'e'], st1)),
                _ => Err(
                    SpecParserErr {
                        kind: SpecParserErrKind::UnexpectedToken,
                        line: t.line,
                        lexeme: t.lexeme,
                    },
                ),
            },
        },
    }
}

impl Parse for bool {
    open spec fn spec_parse(st: SpecParser) -> Result<(bool, SpecParser), SpecParserErr> {
        spec_parse_bool(st)
    }

    fn parse(p: &mut Parser) -> (r: Result<Self, ParserErr>) {
        match p.peek() {
            Err(e) => {
                return Err(e);
            },
            Ok(_) => {},
        };
        let tok = match p.advance() {
            Ok(t) => t,
            Err(e) => {
                return Err(e);
            },
        };
        match tok.kind {
            TokenKind::Bool => {
                let kw_true = ['t', 'r', 'u', 'e'];
                proof {
                    assert(kw_true@ =~= seq!['t', 'r', 'u', 'e']);
                }
                Ok(str_eq_chars(tok.lexeme.as_str(), &kw_true))
            },
            _ => Err(p.make_err_prev(ParserErrKind::UnexpectedToken)),
        }
    }
}

} // verus!

verus! {

impl JsonNumber for u8 {
    open spec fn spec_min() -> int {
        0
    }

    open spec fn spec_max() -> int {
        u8::MAX as int
    }

    open spec fn spec_of_int(v: int) -> u8 {
        v as u8
    }

    proof fn lemma_range() {
    }

    fn allows_negative() -> (r: bool) {
        false
    }

    fn fits(neg: bool, mag: u128) -> (r: bool) {
        (!neg || mag == 0) && mag <= u8::MAX as u128
    }

    fn of_parts(neg: bool, mag: u128) -> (r: Self) {
        mag as u8
    }
}

impl JsonNumber for u16 {
    open spec fn spec_min() -> int {
        0
    }

    open spec fn spec_max() -> int {
        u16::MAX as int
    }

    open spec fn spec_of_int(v: int) -> u16 {
        v as u16
    }

    proof fn lemma_range() {
    }

    fn allows_negative() -> (r: bool) {
        false
    }

    fn fits(neg: bool, mag: u128) -> (r: bool) {
        (!neg || mag == 0) && mag <= u16::MAX as u128
    }

    fn of_parts(neg: bool, mag: u128) -> (r: Self) {
        mag as u16
    }
}

impl JsonNumber for u32 {
    open spec fn spec_min() -> int {
        0
    }

    open spec fn spec_max() -> int {
        u32::MAX as int
    }

    open spec fn spec_of_int(v: int) -> u32 {
        v as u32
    }

    proof fn lemma_range() {
    }

    fn allows_negative() -> (r: bool) {
        false
    }

    fn fits(neg: bool, mag: u128) -> (r: bool) {
        (!neg || mag == 0) && mag <= u32::MAX as u128
    }

    fn of_parts(neg: bool, mag: u128) -> (r: Self) {
        mag as u32
    }
}

impl JsonNumber for u64 {
    open spec fn spec_min() -> int {
        0
    }

    open spec fn spec_max() -> int {
        u64::MAX as int
    }

    open spec fn spec_of_int(v: int) -> u64 {
        v as u64
    }

    proof fn lemma_range() {
    }

    fn allows_negative() -> (r: bool) {
        false
    }

    fn fits(neg: bool, mag: u128) -> (r: bool) {
        (!neg || mag == 0) && mag <= u64::MAX as u128
    }

    fn of_parts(neg: bool, mag: u128) -> (r: Self) {
        mag as u64
    }
}

impl JsonNumber for u128 {
    open spec fn spec_min() -> int {
        0
    }

    open spec fn spec_max() -> int {
        u128::MAX as int
    }

    open spec fn spec_of_int(v: int) -> u128 {
        v as u128
    }

    proof fn lemma_range() {
    }

    fn allows_negative() -> (r: bool) {
        false
    }

    fn fits(neg: bool, mag: u128) -> (r: bool) {
        !neg || mag == 0
    }

    fn of_parts(neg: bool, mag: u128) -> (r: Self) {
        mag
    }
}

impl JsonNumber for i8 {
    open spec fn spec_min() -> int {
        i8::MIN as int
    }

    open spec fn spec_max() -> int {
        i8::MAX as int
    }

    open spec fn spec_of_int(v: int) -> i8 {
        v as i8
    }

    proof fn lemma_range() {
    }

    fn allows_negative() -> (r: bool) {
        true
    }

    fn fits(neg: bool, mag: u128) -> (r: bool) {
        if neg {
            mag <= 128
        } else {
            mag <= i8::MAX as u128
        }
    }

    fn of_parts(neg: bool, mag: u128) -> (r: Self) {
        if neg {
            if mag == 0 {
                0
            } else {
                -((mag - 1) as i8) - 1
            }
        } else {
            mag as i8
        }
    }
}

impl JsonNumber for i16 {
    open spec fn spec_min() -> int {
        i16::MIN as int
    }

    open spec fn spec_max() -> int {
        i16::MAX as int
    }

    open spec fn spec_of_int(v: int) -> i16 {
        v as i16
    }

    proof fn lemma_range() {
    }

    fn allows_negative() -> (r: bool) {
        true
    }

    fn fits(neg: bool, mag: u128) -> (r: bool) {
        if neg {
            mag <= 0x8000
        } else {
            mag <= i16::MAX as u128
        }
    }

    fn of_parts(neg: bool, mag: u128) -> (r: Self) {
        if neg {
            if mag == 0 {
                0
            } else {
                -((mag - 1) as i16) - 1
            }
        } else {
            mag as i16
        }
    }
}

impl JsonNumber for i32 {
    open spec fn spec_min() -> int {
        i32::MIN as int
    }

    open spec fn spec_max() -> int {
        i32::MAX as int
    }

    open spec fn spec_of_int(v: int) -> i32 {
        v as i32
    }

    proof fn lemma_range() {
    }

    fn allows_negative() -> (r: bool) {
        true
    }

    fn fits(neg: bool, mag: u128) -> (r: bool) {
        if neg {
            mag <= 0x8000_0000
        } else {
            mag <= i32::MAX as u128
        }
    }

    fn of_parts(neg: bool, mag: u128) -> (r: Self) {
        if neg {
            if mag == 0 {
                0
            } else {
                -((mag - 1) as i32) - 1
            }
        } else {
            mag as i32
        }
    }
}

impl JsonNumber for i64 {
    open spec fn spec_min() -> int {
        i64::MIN as int
    }

    open spec fn spec_max() -> int {
        i64::MAX as int
    }

    open spec fn spec_of_int(v: int) -> i64 {
        v as i64
    }

    proof fn lemma_range() {
    }

    fn allows_negative() -> (r: bool) {
        true
    }

    fn fits(neg: bool, mag: u128) -> (r: bool) {
        if neg {
            mag <= 0x8000_0000_0000_0000
        } else {
            mag <= i64::MAX as u128
        }
    }

    fn of_parts(neg: bool, mag: u128) -> (r: Self) {
        if neg {
            if mag == 0 {
                0
            } else {
                -((mag - 1) as i64) - 1
            }
        } else {
            mag as i64
        }
    }
}

impl JsonNumber for i128 {
    open spec fn spec_min() -> int {
        i128::MIN as int
    }

    open spec fn spec_max() -> int {
        i128::MAX as int
    }

    open spec fn spec_of_int(v: int) -> i128 {
        v as i128
    }

    proof fn lemma_range() {
    }

    fn allows_negative() -> (r: bool) {
        true
    }

    fn fits(neg: bool, mag: u128) -> (r: bool) {
        if neg {
            mag <= 0x8000_0000_0000_0000_0000_0000_0000_0000
        } else {
            mag <= i128::MAX as u128
        }
    }

    fn of_parts(neg: bool, mag: u128) -> (r: Self) {
        if neg {
            if mag == 0 {
                0
            } else {
                -((mag - 1) as i128) - 1
            }
        } else {
            mag as i128
        }
    }
}

} // verus!
