//! The scanner: a pull-based tokenizer converting a character stream into a
//! lazy sequence of tokens. Each call to `next_token` skips whitespace,
//! classifies the first character and consumes exactly one token, or signals
//! end of source, or fails with a lexical error carrying the 1-based line
//! and the exact source slice consumed so far.

use vstd::prelude::*;
use crate::chars::{
    alphabetic, is_digit_char, is_hex_digit_char, is_whitespace_char, char_from_u32,
    char_is_alphabetic, chars_of, digit_char, push_char, hex_digit_char, hex_digit_val,
    hex_digit_value, string_from_range,
};
use crate::token::{SpecToken, SpecTokenKind, Token, TokenKind};

verus! {

/// A lexical error: its kind, the line it arose on, and the source slice
/// consumed for the offending token so far.
#[derive(Debug, PartialEq)]
pub struct ScannerErr {
    pub kind: ScannerErrKind,
    pub line: usize,
    pub lexeme: String,
}

#[derive(Debug, Clone, Copy, PartialEq, Eq, Structural)]
pub enum ScannerErrKind {
    UnexpectedEndOfSource,
    UnterminatedString,
    UnrecognisedSymbol,
    UnrecognisedKeyword,
    InvalidNumber,
    InvalidEscapeSequence,
}

/// The mathematical model of a lexical error.
pub struct SpecScanErr {
    pub kind: ScannerErrKind,
    pub line: nat,
    pub lexeme: Seq<char>,
}

impl View for ScannerErr {
    type V = SpecScanErr;

    open spec fn view(&self) -> SpecScanErr {
        SpecScanErr { kind: self.kind, line: self.line as nat, lexeme: self.lexeme@ }
    }
}

/// The scanner's cursor over the source characters. `token_start` marks the
/// first character of the token being scanned, `current` the next character
/// to consume, and `line` the 1-based line number.
#[derive(Debug)]
pub struct Scanner {
    pub source: Vec<char>,
    pub token_start: usize,
    pub current: usize,
    pub line: usize,
}

/// The mathematical model of the scanner state.
pub struct SpecScanner {
    pub source: Seq<char>,
    pub token_start: nat,
    pub current: nat,
    pub line: nat,
}

impl View for Scanner {
    type V = SpecScanner;

    open spec fn view(&self) -> SpecScanner {
        SpecScanner {
            source: self.source@,
            token_start: self.token_start as nat,
            current: self.current as nat,
            line: self.line as nat,
        }
    }
}

/// The source slice from `ts` (inclusive) to `cur` (exclusive): the lexeme
/// of the token being scanned.
pub open spec fn lexeme_of(src: Seq<char>, ts: nat, cur: nat) -> Seq<char> {
    src.subrange(ts as int, cur as int)
}

/// The outcome of scanning one token: end of source, a token together with
/// the position after it, or a lexical error.
pub enum SpecScanResult {
    End { i: nat, line: nat },
    Tok { t: SpecToken, i: nat },
    Fail { e: SpecScanErr },
}

/// Position and line after skipping whitespace from position `i`; newlines
/// increment the line count.
pub open spec fn spec_skip_whitespace(src: Seq<char>, i: nat, line: nat) -> (nat, nat)
    decreases src.len() - i,
{
    if i < src.len() && is_whitespace_char(src[i as int]) {
        if src[i as int] == '\n' {
            spec_skip_whitespace(src, (i + 1) as nat, (line + 1) as nat)
        } else {
            spec_skip_whitespace(src, (i + 1) as nat, line)
        }
    } else {
        (i, line)
    }
}

/// The first position at or after `i` holding no decimal digit.
pub open spec fn spec_skip_digits(src: Seq<char>, i: nat) -> nat
    decreases src.len() - i,
{
    if i < src.len() && is_digit_char(src[i as int]) {
        spec_skip_digits(src, (i + 1) as nat)
    } else {
        i
    }
}

/// The first position at or after `i` holding no alphabetic character.
pub open spec fn spec_skip_alpha(src: Seq<char>, i: nat) -> nat
    decreases src.len() - i,
{
    if i < src.len() && alphabetic(src[i as int]) {
        spec_skip_alpha(src, (i + 1) as nat)
    } else {
        i
    }
}

/// Scanning a number token whose first character (a digit or `-`) stands at
/// `ts` and has been consumed: a run of digits, optionally `.` and another
/// run, optionally an exponent marker with optional sign and a mandatory
/// digit run. A missing exponent digit, a trailing alphabetic character, or
/// the bare lexeme `-` is `InvalidNumber`.
pub open spec fn spec_scan_number(src: Seq<char>, ts: nat, i0: nat, line: nat) -> SpecScanResult {
    let i1 = spec_skip_digits(src, i0);
    let i2 = if i1 < src.len() && src[i1 as int] == '.' {
        spec_skip_digits(src, (i1 + 1) as nat)
    } else {
        i1
    };
    if i2 < src.len() && (src[i2 as int] == 'e' || src[i2 as int] == 'E') {
        let i3 = (i2 + 1) as nat;
        let i4 = if i3 < src.len() && (src[i3 as int] == '-' || src[i3 as int] == '+') {
            (i3 + 1) as nat
        } else {
            i3
        };
        let i5 = spec_skip_digits(src, i4);
        if i5 == i4 {
            SpecScanResult::Fail {
                e: SpecScanErr {
                    kind: ScannerErrKind::InvalidNumber,
                    line,
                    lexeme: lexeme_of(src, ts, i4),
                },
            }
        } else {
            SpecScanResult::Tok {
                t: SpecToken {
                    kind: SpecTokenKind::Number,
                    line,
                    lexeme: lexeme_of(src, ts, i5),
                },
                i: i5,
            }
        }
    } else if i2 < src.len() && alphabetic(src[i2 as int]) {
        SpecScanResult::Fail {
            e: SpecScanErr {
                kind: ScannerErrKind::InvalidNumber,
                line,
                lexeme: lexeme_of(src, ts, i2),
            },
        }
    } else if lexeme_of(src, ts, i2) == seq!['-'] {
        SpecScanResult::Fail {
            e: SpecScanErr {
                kind: ScannerErrKind::InvalidNumber,
                line,
                lexeme: lexeme_of(src, ts, i2),
            },
        }
    } else {
        SpecScanResult::Tok {
            t: SpecToken { kind: SpecTokenKind::Number, line, lexeme: lexeme_of(src, ts, i2) },
            i: i2,
        }
    }
}

/// Scanning a keyword token whose first character stands at `ts`: an
/// alphabetic run that must spell `null`, `true` or `false`.
pub open spec fn spec_scan_keyword(src: Seq<char>, ts: nat, i0: nat, line: nat) -> SpecScanResult {
    let i = spec_skip_alpha(src, i0);
    let lex = lexeme_of(src, ts, i);
    if lex == seq!['n', 'u', 'l', 'l'] {
        SpecScanResult::Tok {
            t: SpecToken { kind: SpecTokenKind::Null, line, lexeme: lex },
            i,
        }
    } else if lex == seq!['t', 'r', 'u', 'e'] || lex == seq!['f', 'a', 'l', 's', 'e'] {
        SpecScanResult::Tok {
            t: SpecToken { kind: SpecTokenKind::Bool, line, lexeme: lex },
            i,
        }
    } else {
        SpecScanResult::Fail {
            e: SpecScanErr { kind: ScannerErrKind::UnrecognisedKeyword, line, lexeme: lex },
        }
    }
}

/// Scanning a one-character structural token; the character stands at
/// `cur - 1`. Anything but `{ } [ ] : ,` is `UnrecognisedSymbol`.
pub open spec fn spec_scan_symbol(src: Seq<char>, ts: nat, cur: nat, line: nat) -> SpecScanResult
{
    let c = src[cur as int - 1];
    let lex = lexeme_of(src, ts, cur);
    if c == '{' {
        SpecScanResult::Tok {
            t: SpecToken { kind: SpecTokenKind::LCurlyBracket, line, lexeme: lex },
            i: cur,
        }
    } else if c == '}' {
        SpecScanResult::Tok {
            t: SpecToken { kind: SpecTokenKind::RCurlyBracket, line, lexeme: lex },
            i: cur,
        }
    } else if c == '[' {
        SpecScanResult::Tok {
            t: SpecToken { kind: SpecTokenKind::LBracket, line, lexeme: lex },
            i: cur,
        }
    } else if c == ']' {
        SpecScanResult::Tok {
            t: SpecToken { kind: SpecTokenKind::RBracket, line, lexeme: lex },
            i: cur,
        }
    } else if c == ':' {
        SpecScanResult::Tok {
            t: SpecToken { kind: SpecTokenKind::Colon, line, lexeme: lex },
            i: cur,
        }
    } else if c == ',' {
        SpecScanResult::Tok {
            t: SpecToken { kind: SpecTokenKind::Comma, line, lexeme: lex },
            i: cur,
        }
    } else {
        SpecScanResult::Fail {
            e: SpecScanErr { kind: ScannerErrKind::UnrecognisedSymbol, line, lexeme: lex },
        }
    }
}

/// The value of four hexadecimal digits, most significant first.
pub open spec fn hex4_val(h0: char, h1: char, h2: char, h3: char) -> u32 {
    (hex_digit_val(h0) * 0x1000 + hex_digit_val(h1) * 0x100 + hex_digit_val(h2) * 0x10
        + hex_digit_val(h3)) as u32
}

/// A 16-bit code point that is a valid Unicode scalar value: anything but a
/// UTF-16 surrogate.
pub open spec fn is_valid_bmp_scalar(v: u32) -> bool {
    !(0xD800 <= v && v <= 0xDFFF)
}

/// Scanning the remainder of a string token whose opening quote stands at
/// `ts`; `acc` holds the characters decoded so far. Characters are consumed
/// until an unescaped closing quote; a raw newline is `UnterminatedString`;
/// running off the end is `UnexpectedEndOfSource`; `\uXXXX` requires four
/// hexadecimal digits naming a Unicode scalar value, and an unrecognised
/// escape character is `InvalidEscapeSequence`.
pub open spec fn spec_scan_string(
    src: Seq<char>,
    ts: nat,
    i: nat,
    line: nat,
    acc: Seq<char>,
) -> SpecScanResult
    decreases src.len() - i,
{
    if i >= src.len() {
        SpecScanResult::Fail {
            e: SpecScanErr {
                kind: ScannerErrKind::UnexpectedEndOfSource,
                line,
                lexeme: lexeme_of(src, ts, i),
            },
        }
    } else if src[i as int] == '"' {
        SpecScanResult::Tok {
            t: SpecToken {
                kind: SpecTokenKind::Str(acc),
                line,
                lexeme: lexeme_of(src, ts, (i + 1) as nat),
            },
            i: (i + 1) as nat,
        }
    } else if src[i as int] == '\n' {
        SpecScanResult::Fail {
            e: SpecScanErr {
                kind: ScannerErrKind::UnterminatedString,
                line,
                lexeme: lexeme_of(src, ts, (i + 1) as nat),
            },
        }
    } else if src[i as int] == '\\' {
        if i + 1 >= src.len() {
            SpecScanResult::Fail {
                e: SpecScanErr {
                    kind: ScannerErrKind::UnexpectedEndOfSource,
                    line,
                    lexeme: lexeme_of(src, ts, (i + 1) as nat),
                },
            }
        } else {
            let e = src[i + 1int];
            if e == 'u' {
                spec_scan_unicode_escape(src, ts, i, line, acc)
            } else if e == '"' || e == '/' || e == '\\' || e == 'b' || e == 'f' || e == 'n' || e
                == 'r' || e == 't' {
                spec_scan_string(src, ts, (i + 2) as nat, line, acc.push(unescaped_char(e)))
            } else {
                SpecScanResult::Fail {
                    e: SpecScanErr {
                        kind: ScannerErrKind::InvalidEscapeSequence,
                        line,
                        lexeme: lexeme_of(src, ts, (i + 2) as nat),
                    },
                }
            }
        }
    } else {
        spec_scan_string(src, ts, (i + 1) as nat, line, acc.push(src[i as int]))
    }
}

/// The character a single-character escape decodes to.
pub open spec fn unescaped_char(e: char) -> char {
    if e == 'b' {
        '\u{0008}'
    } else if e == 'f' {
        '\u{000C}'
    } else if e == 'n' {
        '\n'
    } else if e == 'r' {
        '\r'
    } else if e == 't' {
        '\t'
    } else {
        e
    }
}

/// Scanning a `\uXXXX` escape: the backslash stands at `i`, the `u` at
/// `i + 1`. Reads four characters; all four must be hexadecimal digits and
/// name a scalar value, else `InvalidEscapeSequence` (or
/// `UnexpectedEndOfSource` when the input ends first).
pub open spec fn spec_scan_unicode_escape(
    src: Seq<char>,
    ts: nat,
    i: nat,
    line: nat,
    acc: Seq<char>,
) -> SpecScanResult
    decreases src.len() - i, 0nat,
{
    if i + 6 > src.len() {
        SpecScanResult::Fail {
            e: SpecScanErr {
                kind: ScannerErrKind::UnexpectedEndOfSource,
                line,
                lexeme: lexeme_of(src, ts, src.len() as nat),
            },
        }
    } else if !(is_hex_digit_char(src[i + 2int]) && is_hex_digit_char(src[i + 3int]) && is_hex_digit_char(
        src[i + 4int],
    ) && is_hex_digit_char(src[i + 5int])) {
        SpecScanResult::Fail {
            e: SpecScanErr {
                kind: ScannerErrKind::InvalidEscapeSequence,
                line,
                lexeme: lexeme_of(src, ts, (i + 6) as nat),
            },
        }
    } else {
        let v = hex4_val(src[i + 2int], src[i + 3int], src[i + 4int], src[i + 5int]);
        if is_valid_bmp_scalar(v) {
            spec_scan_string(src, ts, (i + 6) as nat, line, acc.push(v as char))
        } else {
            SpecScanResult::Fail {
                e: SpecScanErr {
                    kind: ScannerErrKind::InvalidEscapeSequence,
                    line,
                    lexeme: lexeme_of(src, ts, (i + 6) as nat),
                },
            }
        }
    }
}

/// Scanning one token from position `i0` at line `line0`: skip whitespace,
/// signal the end of the source, or classify by the first character: a digit
/// or `-` starts a number, an alphabetic character a keyword, a quote a
/// string, anything else a structural symbol.
pub open spec fn spec_next_token(src: Seq<char>, i0: nat, line0: nat) -> SpecScanResult {
    let (i, line) = spec_skip_whitespace(src, i0, line0);
    if i >= src.len() {
        SpecScanResult::End { i, line }
    } else {
        let c = src[i as int];
        if is_digit_char(c) || c == '-' {
            spec_scan_number(src, i, (i + 1) as nat, line)
        } else if alphabetic(c) {
            spec_scan_keyword(src, i, (i + 1) as nat, line)
        } else if c == '"' {
            spec_scan_string(src, i, (i + 1) as nat, line, Seq::empty())
        } else {
            spec_scan_symbol(src, i, (i + 1) as nat, line)
        }
    }
}

/// Well-formedness of a scanner state: the token start never passes the
/// current position, the current position never passes the end, and the
/// line count stays 1-based and bounded by the characters consumed.
pub open spec fn spec_scanner_wf(s: SpecScanner) -> bool {
    s.token_start <= s.current <= s.source.len() && 1 <= s.line <= s.current + 1 && s.source.len()
        < usize::MAX
}

impl Scanner {
    /// Well-formedness of the cursor.
    pub open spec fn wf(&self) -> bool {
        spec_scanner_wf(self@)
    }

    /// Fresh scanner over `source`, positioned at its first character.
    pub fn init(source: &str) -> (s: Self)
        requires
            source@.len() < usize::MAX,
        ensures
            s@ == (SpecScanner { source: source@, token_start: 0, current: 0, line: 1 }),
            s.wf(),
    {
        Scanner { source: chars_of(source), current: 0, token_start: 0, line: 1 }
    }

    /// The token of kind `kind` for the lexeme scanned so far.
    fn make_token(&self, kind: TokenKind) -> (t: Token)
        requires
            self.wf(),
        ensures
            t@ == (SpecToken {
                kind: kind@,
                line: self@.line,
                lexeme: lexeme_of(self@.source, self@.token_start, self@.current),
            }),
    {
        let lexeme = string_from_range(&self.source, self.token_start, self.current);
        Token { kind, line: self.line, lexeme }
    }

    /// The lexical error of kind `kind` for the lexeme scanned so far.
    fn make_err(&self, kind: ScannerErrKind) -> (e: ScannerErr)
        requires
            self.wf(),
        ensures
            e@ == (SpecScanErr {
                kind,
                line: self@.line,
                lexeme: lexeme_of(self@.source, self@.token_start, self@.current),
            }),
    {
        let lexeme = string_from_range(&self.source, self.token_start, self.current);
        ScannerErr { kind, line: self.line, lexeme }
    }

    /// Consumes and returns the character at the current position, or fails
    /// with `UnexpectedEndOfSource` leaving the state unchanged.
    fn advance(&mut self) -> (r: Result<char, ScannerErr>)
        requires
            old(self).wf(),
        ensures
            final(self).wf(),
            final(self)@.source == old(self)@.source,
            final(self)@.token_start == old(self)@.token_start,
            final(self)@.line == old(self)@.line,
            match r {
                Ok(c) => old(self)@.current < old(self)@.source.len() && c == old(
                    self,
                )@.source[old(self)@.current as int] && final(self)@.current == old(self)@.current
                    + 1,
                Err(e) => old(self)@.current >= old(self)@.source.len() && final(self)@.current
                    == old(self)@.current && e@ == (SpecScanErr {
                    kind: ScannerErrKind::UnexpectedEndOfSource,
                    line: old(self)@.line,
                    lexeme: lexeme_of(
                        old(self)@.source,
                        old(self)@.token_start,
                        old(self)@.current,
                    ),
                }),
            },
    {
        if self.current < self.source.len() {
            let c = self.source[self.current];
            self.current = self.current + 1;
            Ok(c)
        } else {
            Err(self.make_err(ScannerErrKind::UnexpectedEndOfSource))
        }
    }

    /// The character at the current position without consuming it, or
    /// `UnexpectedEndOfSource`.
    fn peek(&self) -> (r: Result<char, ScannerErr>)
        requires
            self.wf(),
        ensures
            match r {
                Ok(c) => self@.current < self@.source.len() && c == self@.source[self@.current
                    as int],
                Err(e) => self@.current >= self@.source.len() && e@ == (SpecScanErr {
                    kind: ScannerErrKind::UnexpectedEndOfSource,
                    line: self@.line,
                    lexeme: lexeme_of(self@.source, self@.token_start, self@.current),
                }),
            },
    {
        if self.current < self.source.len() {
            Ok(self.source[self.current])
        } else {
            Err(self.make_err(ScannerErrKind::UnexpectedEndOfSource))
        }
    }

    /// The character just consumed. Asking for it before any character was
    /// consumed would be an internal fault, so that state is excluded.
    fn prev(&self) -> (c: char)
        requires
            self.wf(),
            self@.current >= 1,
        ensures
            c == self@.source[self@.current as int - 1],
    {
        self.source[self.current - 1]
    }

    /// Consumes whitespace; newlines increment the line counter.
    fn skip_whitespace(&mut self)
        requires
            old(self).wf(),
        ensures
            final(self).wf(),
            final(self)@.source == old(self)@.source,
            final(self)@.token_start == old(self)@.token_start,
            (final(self)@.current, final(self)@.line) == spec_skip_whitespace(
                old(self)@.source,
                old(self)@.current,
                old(self)@.line,
            ),
    {
        #[verifier::loop_isolation(false)]
        loop
            invariant
                self.wf(),
                self@.source == old(self)@.source,
                self@.token_start == old(self)@.token_start,
                spec_skip_whitespace(old(self)@.source, old(self)@.current, old(self)@.line)
                    == spec_skip_whitespace(self@.source, self@.current, self@.line),
            decreases self@.source.len() - self@.current,
        {
            match self.peek() {
                Ok(c) => {
                    if c == '\n' {
                        let _ = self.advance();
                        self.line = self.line + 1;
                    } else if c == ' ' || c == '\t' || c == '\r' {
                        let _ = self.advance();
                    } else {
                        return ;
                    }
                },
                Err(_) => {
                    return ;
                },
            }
        }
    }

    /// Whether the whole source has been consumed.
    fn is_at_end(&self) -> (r: bool)
        ensures
            r == (self@.current >= self@.source.len()),
    {
        self.current >= self.source.len()
    }

    /// Consumes the current character exactly when it equals `c`.
    fn matches(&mut self, c: char) -> (r: bool)
        requires
            old(self).wf(),
        ensures
            final(self).wf(),
            final(self)@.source == old(self)@.source,
            final(self)@.token_start == old(self)@.token_start,
            final(self)@.line == old(self)@.line,
            r == (old(self)@.current < old(self)@.source.len() && old(self)@.source[old(
                self,
            )@.current as int] == c),
            final(self)@.current == if r {
                old(self)@.current + 1
            } else {
                old(self)@.current
            },
    {
        match self.peek() {
            Ok(chr) => {
                if chr == c {
                    let _ = self.advance();
                    true
                } else {
                    false
                }
            },
            Err(_) => false,
        }
    }

    /// Consumes the current character exactly when it equals one of `chars`.
    fn matches_any(&mut self, chars: &[char]) -> (r: bool)
        requires
            old(self).wf(),
        ensures
            final(self).wf(),
            final(self)@.source == old(self)@.source,
            final(self)@.token_start == old(self)@.token_start,
            final(self)@.line == old(self)@.line,
            r == (old(self)@.current < old(self)@.source.len() && chars@.contains(
                old(self)@.source[old(self)@.current as int],
            )),
            final(self)@.current == if r {
                old(self)@.current + 1
            } else {
                old(self)@.current
            },
    {
        let mut j: usize = 0;
        #[verifier::loop_isolation(false)]
        while j < chars.len()
            invariant
                j <= chars@.len(),
                self@ == old(self)@,
                forall|k: int|
                    0 <= k < j ==> !(self@.current < self@.source.len() && self@.source[self@.current as int]
                        == chars@[k]),
            decreases chars@.len() - j,
        {
            if self.matches(chars[j]) {
                return true;
            }
            j = j + 1;
        }
        false
    }
}

} // verus!

verus! {

/// Scanning a string never reaches the end silently, reports errors on the
/// line it began, keeps the token on that line, and always makes progress.
#[verifier::rlimit(40)]
pub proof fn lemma_scan_string_props(src: Seq<char>, ts: nat, i: nat, line: nat, acc: Seq<char>)
    requires
        i <= src.len(),
    ensures
        match spec_scan_string(src, ts, i, line, acc) {
            SpecScanResult::Tok { t, i: i2 } => t.line == line && i < i2 <= src.len() && t.kind
                is Str,
            SpecScanResult::Fail { e } => e.line == line,
            SpecScanResult::End { .. } => false,
        },
    decreases src.len() - i,
{
    let res = spec_scan_string(src, ts, i, line, acc);
    if i >= src.len() {
        assert(res is Fail);
    } else if src[i as int] == '"' {
        assert(res is Tok);
    } else if src[i as int] == '\n' {
        assert(res is Fail);
    } else if src[i as int] == '\\' {
        if i + 1 >= src.len() {
            assert(res is Fail);
        } else {
            let e = src[i + 1int];
            if e == 'u' {
                assert(res == spec_scan_unicode_escape(src, ts, i, line, acc));
                if i + 6 > src.len() {
                    assert(res is Fail);
                } else if !(is_hex_digit_char(src[i + 2int]) && is_hex_digit_char(src[i + 3int])
                    && is_hex_digit_char(src[i + 4int]) && is_hex_digit_char(src[i + 5int])) {
                    assert(res is Fail);
                } else {
                    let v = hex4_val(src[i + 2int], src[i + 3int], src[i + 4int], src[i + 5int]);
                    if is_valid_bmp_scalar(v) {
                        lemma_scan_string_props(src, ts, (i + 6) as nat, line, acc.push(v as char));
                    }
                }
            } else if e == '"' || e == '/' || e == '\\' || e == 'b' || e == 'f' || e == 'n' || e
                == 'r' || e == 't' {
                lemma_scan_string_props(src, ts, (i + 2) as nat, line, acc.push(unescaped_char(e)));
            }
        }
    } else {
        lemma_scan_string_props(src, ts, (i + 1) as nat, line, acc.push(src[i as int]));
    }
}

impl Scanner {
    /// Consumes the maximal run of decimal digits at the current position.
    fn consume_digits(&mut self)
        requires
            old(self).wf(),
        ensures
            final(self).wf(),
            final(self)@.source == old(self)@.source,
            final(self)@.token_start == old(self)@.token_start,
            final(self)@.line == old(self)@.line,
            final(self)@.current == spec_skip_digits(old(self)@.source, old(self)@.current),
    {
        #[verifier::loop_isolation(false)]
        loop
            invariant
                self.wf(),
                self@.source == old(self)@.source,
                self@.token_start == old(self)@.token_start,
                self@.line == old(self)@.line,
                spec_skip_digits(old(self)@.source, old(self)@.current) == spec_skip_digits(
                    self@.source,
                    self@.current,
                ),
            decreases self@.source.len() - self@.current,
        {
            match self.peek() {
                Ok(c) => {
                    if digit_char(c) {
                        let _ = self.advance();
                    } else {
                        return ;
                    }
                },
                Err(_) => {
                    return ;
                },
            }
        }
    }

    /// Consumes the maximal run of alphabetic characters at the current
    /// position.
    fn consume_alpha(&mut self)
        requires
            old(self).wf(),
        ensures
            final(self).wf(),
            final(self)@.source == old(self)@.source,
            final(self)@.token_start == old(self)@.token_start,
            final(self)@.line == old(self)@.line,
            final(self)@.current == spec_skip_alpha(old(self)@.source, old(self)@.current),
    {
        #[verifier::loop_isolation(false)]
        loop
            invariant
                self.wf(),
                self@.source == old(self)@.source,
                self@.token_start == old(self)@.token_start,
                self@.line == old(self)@.line,
                spec_skip_alpha(old(self)@.source, old(self)@.current) == spec_skip_alpha(
                    self@.source,
                    self@.current,
                ),
            decreases self@.source.len() - self@.current,
        {
            match self.peek() {
                Ok(c) => {
                    if char_is_alphabetic(c) {
                        let _ = self.advance();
                    } else {
                        return ;
                    }
                },
                Err(_) => {
                    return ;
                },
            }
        }
    }

    /// Whether the lexeme scanned so far spells exactly `w`.
    fn lexeme_matches(&self, w: &[char]) -> (r: bool)
        requires
            self.wf(),
        ensures
            r == (lexeme_of(self@.source, self@.token_start, self@.current) == w@),
    {
        let ghost lex = lexeme_of(self@.source, self@.token_start, self@.current);
        if self.current - self.token_start != w.len() {
            proof {
                assert(lex.len() == self@.current - self@.token_start);
            }
            return false;
        }
        let mut k: usize = 0;
        #[verifier::loop_isolation(false)]
        while k < w.len()
            invariant
                k <= w@.len(),
                forall|j: int| 0 <= j < k ==> lex[j] == w@[j],
            decreases w@.len() - k,
        {
            if self.source[self.token_start + k] != w[k] {
                proof {
                    assert(lex[k as int] != w@[k as int]);
                }
                return false;
            }
            k = k + 1;
        }
        proof {
            assert(lex =~= w@);
        }
        true
    }

    /// Scans the rest of a number token whose first character (a digit or
    /// `-`) has just been consumed.
    fn number(&mut self) -> (r: Result<Token, ScannerErr>)
        requires
            old(self).wf(),
        ensures
            final(self).wf(),
            final(self)@.source == old(self)@.source,
            final(self)@.token_start == old(self)@.token_start,
            final(self)@.line == old(self)@.line,
            match spec_scan_number(
                old(self)@.source,
                old(self)@.token_start,
                old(self)@.current,
                old(self)@.line,
            ) {
                SpecScanResult::Tok { t, i } => r is Ok && r->Ok_0@ == t && final(self)@.current
                    == i,
                SpecScanResult::Fail { e } => r is Err && r->Err_0@ == e,
                SpecScanResult::End { .. } => false,
            },
    {
        self.consume_digits();
        if self.matches('.') {
            self.consume_digits();
        }
        match self.peek() {
            Ok(c) => {
                if c == 'e' || c == 'E' {
                    let _ = self.advance();
                    let signs = ['-', '+'];
                    proof {
                        assert(signs@ =~= seq!['-', '+']);
                    }
                    let _ = self.matches_any(&signs);
                    let mark = self.current;
                    self.consume_digits();
                    if self.current == mark {
                        return Err(self.make_err(ScannerErrKind::InvalidNumber));
                    }
                    return Ok(self.make_token(TokenKind::Number));
                } else if char_is_alphabetic(c) {
                    return Err(self.make_err(ScannerErrKind::InvalidNumber));
                }
            },
            Err(_) => {},
        }
        let ghost lex = lexeme_of(self@.source, self@.token_start, self@.current);
        if self.current == self.token_start + 1 && self.source[self.token_start] == '-' {
            proof {
                assert(lex =~= seq!['-']);
            }
            return Err(self.make_err(ScannerErrKind::InvalidNumber));
        }
        proof {
            if lex == seq!['-'] {
                assert(lex.len() == 1);
                assert(self@.source[self@.token_start as int] == lex[0]);
            }
        }
        Ok(self.make_token(TokenKind::Number))
    }

    /// Scans the rest of a string token whose opening quote has just been
    /// consumed, decoding escape sequences into the token's value.
    #[verifier::rlimit(60)]
    fn string(&mut self) -> (r: Result<Token, ScannerErr>)
        requires
            old(self).wf(),
            old(self)@.token_start < old(self)@.current,
        ensures
            final(self).wf(),
            final(self)@.source == old(self)@.source,
            final(self)@.token_start == old(self)@.token_start,
            final(self)@.line == old(self)@.line,
            match spec_scan_string(
                old(self)@.source,
                old(self)@.token_start,
                old(self)@.current,
                old(self)@.line,
                Seq::empty(),
            ) {
                SpecScanResult::Tok { t, i } => r is Ok && r->Ok_0@ == t && final(self)@.current
                    == i,
                SpecScanResult::Fail { e } => r is Err && r->Err_0@ == e,
                SpecScanResult::End { .. } => false,
            },
    {
        let mut str_val = String::new();
        #[verifier::loop_isolation(false)]
        loop
            invariant
                self.wf(),
                self@.source == old(self)@.source,
                self@.token_start == old(self)@.token_start,
                self@.line == old(self)@.line,
                old(self)@.current <= self@.current,
                spec_scan_string(
                    old(self)@.source,
                    old(self)@.token_start,
                    old(self)@.current,
                    old(self)@.line,
                    Seq::empty(),
                ) == spec_scan_string(
                    self@.source,
                    self@.token_start,
                    self@.current,
                    self@.line,
                    str_val@,
                ),
            decreases self@.source.len() - self@.current,
        {
            let ghost hi = self@.current;
            let ghost hacc = str_val@;
            let ghost src = self@.source;
            let ghost ts = self@.token_start;
            let ghost hline = self@.line;
            let c0 = match self.peek() {
                Ok(c) => c,
                Err(e) => {
                    return Err(e);
                },
            };
            if c0 == '"' {
                let _ = self.advance();
                return Ok(self.make_token(TokenKind::String(str_val)));
            }
            let _ = self.advance();
            if c0 == '\n' {
                return Err(self.make_err(ScannerErrKind::UnterminatedString));
            }
            if c0 == '\\' {
                let e = match self.advance() {
                    Ok(c) => c,
                    Err(err) => {
                        return Err(err);
                    },
                };
                if e == 'u' {
                    let h0 = match self.advance() {
                        Ok(c) => c,
                        Err(err) => {
                            proof {
                                assert(src[hi as int] == '\\');
                                assert(hi + 1 < src.len());
                                assert(src[hi + 1int] == 'u');
                                assert(spec_scan_string(src, ts, hi, hline, hacc)
                                    == spec_scan_unicode_escape(src, ts, hi, hline, hacc));
                                assert(hi + 6 > src.len());
                                assert(self@.current == src.len());
                                assert(spec_scan_unicode_escape(src, ts, hi, hline, hacc)
                                    == (SpecScanResult::Fail { e: SpecScanErr {
                                        kind: ScannerErrKind::UnexpectedEndOfSource,
                                        line: hline,
                                        lexeme: lexeme_of(src, ts, src.len() as nat),
                                    } }));
                            }
                            return Err(err);
                        },
                    };
                    let h1 = match self.advance() {
                        Ok(c) => c,
                        Err(err) => {
                            return Err(err);
                        },
                    };
                    let h2 = match self.advance() {
                        Ok(c) => c,
                        Err(err) => {
                            return Err(err);
                        },
                    };
                    let h3 = match self.advance() {
                        Ok(c) => c,
                        Err(err) => {
                            return Err(err);
                        },
                    };
                    if !(hex_digit_char(h0) && hex_digit_char(h1) && hex_digit_char(h2)
                        && hex_digit_char(h3)) {
                        return Err(self.make_err(ScannerErrKind::InvalidEscapeSequence));
                    }
                    let v = hex_digit_value(h0) * 0x1000 + hex_digit_value(h1) * 0x100
                        + hex_digit_value(h2) * 0x10 + hex_digit_value(h3);
                    match char_from_u32(v) {
                        Some(decoded) => {
                            push_char(&mut str_val, decoded);
                        },
                        None => {
                            return Err(self.make_err(ScannerErrKind::InvalidEscapeSequence));
                        },
                    }
                } else if e == '"' || e == '/' || e == '\\' || e == 'b' || e == 'f' || e == 'n' || e
                    == 'r' || e == 't' {
                    let decoded = if e == 'b' {
                        '\u{0008}'
                    } else if e == 'f' {
                        '\u{000C}'
                    } else if e == 'n' {
                        '\n'
                    } else if e == 'r' {
                        '\r'
                    } else if e == 't' {
                        '\t'
                    } else {
                        e
                    };
                    push_char(&mut str_val, decoded);
                } else {
                    return Err(self.make_err(ScannerErrKind::InvalidEscapeSequence));
                }
            } else {
                push_char(&mut str_val, c0);
            }
        }
    }

    /// Scans the rest of a keyword token whose first character has just been
    /// consumed; the lexeme must spell `null`, `true` or `false`.
    fn keyword(&mut self) -> (r: Result<Token, ScannerErr>)
        requires
            old(self).wf(),
        ensures
            final(self).wf(),
            final(self)@.source == old(self)@.source,
            final(self)@.token_start == old(self)@.token_start,
            final(self)@.line == old(self)@.line,
            match spec_scan_keyword(
                old(self)@.source,
                old(self)@.token_start,
                old(self)@.current,
                old(self)@.line,
            ) {
                SpecScanResult::Tok { t, i } => r is Ok && r->Ok_0@ == t && final(self)@.current
                    == i,
                SpecScanResult::Fail { e } => r is Err && r->Err_0@ == e,
                SpecScanResult::End { .. } => false,
            },
    {
        self.consume_alpha();
        let kw_null = ['n', 'u', 'l', 'l'];
        let kw_true = ['t', 'r', 'u', 'e'];
        let kw_false = ['f', 'a', 'l', 's', 'e'];
        proof {
            assert(kw_null@ =~= seq!['n', 'u', 'l', 'l']);
            assert(kw_true@ =~= seq!['t', 'r', 'u', 'e']);
            assert(kw_false@ =~= seq!['f', 'a', 'l', 's', 'e']);
        }
        if self.lexeme_matches(&kw_null) {
            Ok(self.make_token(TokenKind::Null))
        } else if self.lexeme_matches(&kw_true) || self.lexeme_matches(&kw_false) {
            Ok(self.make_token(TokenKind::Bool))
        } else {
            Err(self.make_err(ScannerErrKind::UnrecognisedKeyword))
        }
    }

    /// Classifies the structural character that has just been consumed.
    fn symbol(&mut self) -> (r: Result<Token, ScannerErr>)
        requires
            old(self).wf(),
            old(self)@.current >= 1,
        ensures
            final(self).wf(),
            final(self)@ == old(self)@,
            match spec_scan_symbol(
                old(self)@.source,
                old(self)@.token_start,
                old(self)@.current,
                old(self)@.line,
            ) {
                SpecScanResult::Tok { t, i } => r is Ok && r->Ok_0@ == t && final(self)@.current
                    == i,
                SpecScanResult::Fail { e } => r is Err && r->Err_0@ == e,
                SpecScanResult::End { .. } => false,
            },
    {
        let c = self.prev();
        if c == '{' {
            Ok(self.make_token(TokenKind::LCurlyBracket))
        } else if c == '}' {
            Ok(self.make_token(TokenKind::RCurlyBracket))
        } else if c == '[' {
            Ok(self.make_token(TokenKind::LBracket))
        } else if c == ']' {
            Ok(self.make_token(TokenKind::RBracket))
        } else if c == ':' {
            Ok(self.make_token(TokenKind::Colon))
        } else if c == ',' {
            Ok(self.make_token(TokenKind::Comma))
        } else {
            Err(self.make_err(ScannerErrKind::UnrecognisedSymbol))
        }
    }

    /// Produces the next token, or `None` at the end of the source, or a
    /// lexical error. Whitespace before the token is skipped, newlines
    /// incrementing the line counter.
    pub fn next_token(&mut self) -> (r: Result<Option<Token>, ScannerErr>)
        requires
            old(self).wf(),
        ensures
            final(self).wf(),
            final(self)@.source == old(self)@.source,
            match spec_next_token(old(self)@.source, old(self)@.current, old(self)@.line) {
                SpecScanResult::End { i, line } => r is Ok && r->Ok_0 is None
                    && final(self)@.current == i && final(self)@.line == line
                    && final(self)@.token_start == old(self)@.token_start,
                SpecScanResult::Tok { t, i } => r is Ok && r->Ok_0 is Some && (r->Ok_0->0)@ == t
                    && final(self)@.current == i && final(self)@.line == t.line
                    && final(self)@.token_start == spec_skip_whitespace(
                    old(self)@.source,
                    old(self)@.current,
                    old(self)@.line,
                ).0,
                SpecScanResult::Fail { e } => r is Err && r->Err_0@ == e,
            },
    {
        self.skip_whitespace();
        if self.is_at_end() {
            return Ok(None);
        }
        self.token_start = self.current;
        let c = match self.advance() {
            Ok(c) => c,
            Err(e) => {
                return Err(e);
            },
        };
        if digit_char(c) || c == '-' {
            return match self.number() {
                Ok(t) => Ok(Some(t)),
                Err(e) => Err(e),
            };
        }
        if char_is_alphabetic(c) {
            return match self.keyword() {
                Ok(t) => Ok(Some(t)),
                Err(e) => Err(e),
            };
        }
        if c == '"' {
            proof {
                assert(spec_next_token(old(self)@.source, old(self)@.current, old(self)@.line)
                    == spec_scan_string(
                    self@.source,
                    self@.token_start,
                    self@.current,
                    self@.line,
                    Seq::empty(),
                ));
            }
            proof {
                lemma_scan_string_props(
                    self@.source,
                    self@.token_start,
                    self@.current,
                    self@.line,
                    Seq::empty(),
                );
            }
            let tr = self.string();
            proof {
                match spec_next_token(old(self)@.source, old(self)@.current, old(self)@.line) {
                    SpecScanResult::Tok { t, i } => {
                        assert(tr is Ok);
                        assert(tr->Ok_0@ == t);
                        assert(self@.current == i);
                        assert(self@.line == t.line);
                        assert(self@.token_start == spec_skip_whitespace(
                            old(self)@.source,
                            old(self)@.current,
                            old(self)@.line,
                        ).0);
                    },
                    SpecScanResult::Fail { e } => {
                        assert(tr is Err);
                        assert(tr->Err_0@ == e);
                    },
                    SpecScanResult::End { .. } => {
                        assert(false);
                    },
                }
            }
            return match tr {
                Ok(t) => Ok(Some(t)),
                Err(e) => Err(e),
            };
        }
        match self.symbol() {
            Ok(t) => Ok(Some(t)),
            Err(e) => Err(e),
        }
    }
}

} // verus!

verus! {

/// Skipping whitespace stays within the source and never decreases the
/// position or the line, and raises the line at most one per character.
pub proof fn lemma_skip_whitespace_bounds(src: Seq<char>, i: nat, line: nat)
    requires
        i <= src.len(),
    ensures
        ({
            let (i2, line2) = spec_skip_whitespace(src, i, line);
            i <= i2 <= src.len() && line <= line2 && line2 - line <= i2 - i
        }),
    decreases src.len() - i,
{
    if i < src.len() && is_whitespace_char(src[i as int]) {
        if src[i as int] == '\n' {
            lemma_skip_whitespace_bounds(src, (i + 1) as nat, (line + 1) as nat);
        } else {
            lemma_skip_whitespace_bounds(src, (i + 1) as nat, line);
        }
    }
}

/// Skipping digits stays within the source and never decreases the position.
pub proof fn lemma_skip_digits_bounds(src: Seq<char>, i: nat)
    requires
        i <= src.len(),
    ensures
        i <= spec_skip_digits(src, i) <= src.len(),
    decreases src.len() - i,
{
    if i < src.len() && is_digit_char(src[i as int]) {
        lemma_skip_digits_bounds(src, (i + 1) as nat);
    }
}

/// Skipping alphabetic characters stays within the source and never
/// decreases the position.
pub proof fn lemma_skip_alpha_bounds(src: Seq<char>, i: nat)
    requires
        i <= src.len(),
    ensures
        i <= spec_skip_alpha(src, i) <= src.len(),
    decreases src.len() - i,
{
    if i < src.len() && alphabetic(src[i as int]) {
        lemma_skip_alpha_bounds(src, (i + 1) as nat);
    }
}

/// Scanning one token makes progress: a token ends strictly after the
/// position scanning began, and the end of the source is reported at the
/// end position itself.
pub proof fn lemma_next_token_progress(src: Seq<char>, i0: nat, line0: nat)
    requires
        i0 <= src.len(),
    ensures
        match spec_next_token(src, i0, line0) {
            SpecScanResult::End { i, line } => i0 <= i == src.len() && line0 <= line,
            SpecScanResult::Tok { t, i } => i0 < i <= src.len(),
            SpecScanResult::Fail { e } => true,
        },
{
    lemma_skip_whitespace_bounds(src, i0, line0);
    let (i, line) = spec_skip_whitespace(src, i0, line0);
    if i < src.len() {
        let c = src[i as int];
        let ts = i;
        if is_digit_char(c) || c == '-' {
            let j0 = (i + 1) as nat;
            lemma_skip_digits_bounds(src, j0);
            let i1 = spec_skip_digits(src, j0);
            let i2 = if i1 < src.len() && src[i1 as int] == '.' {
                lemma_skip_digits_bounds(src, (i1 + 1) as nat);
                spec_skip_digits(src, (i1 + 1) as nat)
            } else {
                i1
            };
            if i2 < src.len() && (src[i2 as int] == 'e' || src[i2 as int] == 'E') {
                let i3 = (i2 + 1) as nat;
                let i4 = if i3 < src.len() && (src[i3 as int] == '-' || src[i3 as int] == '+') {
                    (i3 + 1) as nat
                } else {
                    i3
                };
                lemma_skip_digits_bounds(src, i4);
            }
        } else if alphabetic(c) {
            lemma_skip_alpha_bounds(src, (i + 1) as nat);
        } else if c == '"' {
            lemma_scan_string_props(src, ts, (i + 1) as nat, line, Seq::empty());
        }
    }
}

} // verus!
