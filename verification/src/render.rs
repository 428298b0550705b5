//! Rendering a value tree back to JSON text, and the laws tying rendering
//! to parsing: a rendered string literal scans back to the original
//! characters, and a rendered scalar parses back to the original value.

use vstd::prelude::*;
use vstd::string::StringExecFns;
use crate::chars::{is_digit_char, is_whitespace_char, push_char, string_of_chars};
use crate::json_value::JsonValue;
use crate::parse_impl::json_value::spec_float_lexeme_ok;
use crate::scanner::{
    lexeme_of, spec_scan_number, spec_scan_string, SpecScanResult, unescaped_char,
};
use crate::token::{SpecToken, SpecTokenKind};

verus! {

/// How one character of a string is written inside a string literal: the
/// quote, the backslash and the newline must be escaped for the literal to
/// scan back; every other character stands for itself.
pub open spec fn spec_escape_char(c: char) -> Seq<char> {
    if c == '"' {
        seq!['\\', '"']
    } else if c == '\\' {
        seq!['\\', '\\']
    } else if c == '\n' {
        seq!['\\', 'n']
    } else {
        seq![c]
    }
}

/// The escaped body of a string literal.
pub open spec fn spec_escape(s: Seq<char>) -> Seq<char>
    decreases s.len(),
{
    if s.len() == 0 {
        Seq::empty()
    } else {
        spec_escape_char(s.first()) + spec_escape(s.drop_first())
    }
}

/// A number lexeme that scans back, standing alone, to one number token
/// covering the whole lexeme, and that the value tree accepts.
pub open spec fn spec_number_lexeme_wf(lex: Seq<char>) -> bool {
    &&& lex.len() > 0
    &&& (is_digit_char(lex[0]) || lex[0] == '-')
    &&& match spec_scan_number(lex, 0, 1, 1) {
        SpecScanResult::Tok { t, i } => i == lex.len() && t.lexeme == lex && t.kind
            == SpecTokenKind::Number,
        _ => false,
    }
    &&& spec_float_lexeme_ok(lex)
}

/// A valid JSON literal: every number lexeme in the tree is well-formed
/// and every object has pairwise distinct keys.
pub open spec fn spec_json_wf(v: JsonValue) -> bool
    decreases v,
{
    match v {
        JsonValue::Object(m) => (forall|i: int, j: int|
            0 <= i < j < m.entries@.len() ==> m.entries@[i].0@ != m.entries@[j].0@) && (forall|
            i: int,
        |
            0 <= i < m.entries@.len() ==> spec_json_wf(#[trigger] m.entries@[i].1)),
        JsonValue::Array(a) => forall|i: int|
            0 <= i < a@.len() ==> spec_json_wf(#[trigger] a@[i]),
        JsonValue::String(_) => true,
        JsonValue::Number(s) => spec_number_lexeme_wf(s@),
        JsonValue::Bool(_) => true,
        JsonValue::Null => true,
    }
}

/// The JSON text of a value: no whitespace, object entries in their stored
/// order, strings escaped as `spec_escape` says.
pub open spec fn spec_render(v: JsonValue) -> Seq<char>
    decreases v,
{
    match v {
        JsonValue::Null => seq!['n', 'u', 'l', 'l'],
        JsonValue::Bool(b) => if b {
            seq!['t', 'r', 'u', 'e']
        } else {
            seq!['f', 'a', 'l', 's', 'e']
        },
        JsonValue::Number(s) => s@,
        JsonValue::String(s) => seq!['"'] + spec_escape(s@) + seq!['"'],
        JsonValue::Array(a) => seq!['['] + spec_render_elements(a@) + seq![']'],
        JsonValue::Object(m) => seq!['{'] + spec_render_entries(m.entries@) + seq!['}'],
    }
}

/// The comma-separated renderings of a list of elements.
pub open spec fn spec_render_elements(a: Seq<JsonValue>) -> Seq<char>
    decreases a,
{
    if a.len() == 0 {
        Seq::empty()
    } else if a.len() == 1 {
        spec_render(a.first())
    } else {
        spec_render(a.first()) + seq![','] + spec_render_elements(a.drop_first())
    }
}

/// The comma-separated renderings of a list of object entries.
pub open spec fn spec_render_entries(entries: Seq<(String, JsonValue)>) -> Seq<char>
    decreases entries,
{
    if entries.len() == 0 {
        Seq::empty()
    } else {
        let head = seq!['"'] + spec_escape(entries.first().0@) + seq!['"', ':'] + spec_render(
            entries.first().1,
        );
        if entries.len() == 1 {
            head
        } else {
            head + seq![','] + spec_render_entries(entries.drop_first())
        }
    }
}

/// Appending one element to a rendered element list.
pub proof fn lemma_render_elements_push(a: Seq<JsonValue>, x: JsonValue)
    ensures
        spec_render_elements(a.push(x)) == if a.len() == 0 {
            spec_render(x)
        } else {
            spec_render_elements(a) + seq![','] + spec_render(x)
        },
    decreases a.len(),
{
    let ap = a.push(x);
    if a.len() == 0 {
        assert(ap.len() == 1);
        assert(ap.first() == x);
    } else {
        assert(ap.first() == a.first());
        assert(ap.drop_first() =~= a.drop_first().push(x));
        lemma_render_elements_push(a.drop_first(), x);
        if a.len() == 1 {
            assert(a.drop_first().len() == 0);
            assert(spec_render_elements(ap) == spec_render(a.first()) + seq![','] + spec_render(x));
            assert(spec_render_elements(a) == spec_render(a.first()));
        } else {
            assert(spec_render_elements(a) == spec_render(a.first()) + seq![',']
                + spec_render_elements(a.drop_first()));
            assert((spec_render(a.first()) + seq![','] + (spec_render_elements(a.drop_first())
                + seq![','] + spec_render(x))) =~= (spec_render(a.first()) + seq![',']
                + spec_render_elements(a.drop_first()) + seq![','] + spec_render(x)));
        }
    }
}

/// Appending one entry to a rendered entry list.
pub proof fn lemma_render_entries_push(entries: Seq<(String, JsonValue)>, k: String, x: JsonValue)
    ensures
        spec_render_entries(entries.push((k, x))) == ({
            let head = seq!['"'] + spec_escape(k@) + seq!['"', ':'] + spec_render(x);
            if entries.len() == 0 {
                head
            } else {
                spec_render_entries(entries) + seq![','] + head
            }
        }),
    decreases entries.len(),
{
    let ep = entries.push((k, x));
    let head = seq!['"'] + spec_escape(k@) + seq!['"', ':'] + spec_render(x);
    if entries.len() == 0 {
        assert(ep.len() == 1);
        assert(ep.first() == (k, x));
    } else {
        assert(ep.first() == entries.first());
        assert(ep.drop_first() =~= entries.drop_first().push((k, x)));
        lemma_render_entries_push(entries.drop_first(), k, x);
        let h0 = seq!['"'] + spec_escape(entries.first().0@) + seq!['"', ':'] + spec_render(
            entries.first().1,
        );
        if entries.len() == 1 {
            assert(spec_render_entries(ep) == h0 + seq![','] + head);
            assert(spec_render_entries(entries) == h0);
        } else {
            assert(spec_render_entries(entries) == h0 + seq![','] + spec_render_entries(
                entries.drop_first(),
            ));
            assert((h0 + seq![','] + (spec_render_entries(entries.drop_first()) + seq![','] + head))
                =~= (h0 + seq![','] + spec_render_entries(entries.drop_first()) + seq![','] + head));
        }
    }
}

/// Appends the escaped body of `s` to `out`.
fn render_string_body(s: &str, out: &mut String)
    ensures
        final(out)@ == old(out)@ + spec_escape(s@),
    decreases s@.len(),
{
    let v = crate::chars::chars_of(s);
    let mut k: usize = 0;
    proof {
        assert(out@ + spec_escape(s@.subrange(0, 0)) =~= out@);
    }
    #[verifier::loop_isolation(false)]
    loop
        invariant
            k <= v@.len(),
            v@ == s@,
            out@ == old(out)@ + spec_escape(s@.subrange(0, k as int)),
        decreases v@.len() - k,
    {
        if k >= v.len() {
            proof {
                assert(s@.subrange(0, s@.len() as int) =~= s@);
            }
            return ;
        }
        let c = v[k];
        if c == '"' {
            push_char(out, '\\');
            push_char(out, '"');
        } else if c == '\\' {
            push_char(out, '\\');
            push_char(out, '\\');
        } else if c == '\n' {
            push_char(out, '\\');
            push_char(out, 'n');
        } else {
            push_char(out, c);
        }
        k = k + 1;
        proof {
            lemma_escape_snoc(s@, k as int);
            assert(out@ =~= old(out)@ + spec_escape(s@.subrange(0, k as int)));
        }
    }
}

/// Escaping one more character appends its escape.
pub proof fn lemma_escape_snoc(s: Seq<char>, k: int)
    requires
        0 < k <= s.len(),
    ensures
        spec_escape(s.subrange(0, k)) == spec_escape(s.subrange(0, k - 1)) + spec_escape_char(
            s[k - 1],
        ),
    decreases k,
{
    if k == 1 {
        let p = s.subrange(0, 1);
        assert(p.len() == 1);
        assert(p.first() == s[0]);
        assert(p.drop_first() =~= Seq::<char>::empty());
        assert(spec_escape(p) == spec_escape_char(p.first()) + spec_escape(p.drop_first()));
        assert(spec_escape(Seq::<char>::empty()) =~= Seq::<char>::empty());
        assert(spec_escape(s.subrange(0, 0)) =~= Seq::<char>::empty());
        assert(spec_escape(s.subrange(0, 0)) + spec_escape_char(s[0]) =~= spec_escape_char(s[0]));
        assert(spec_escape_char(p.first()) + spec_escape(p.drop_first()) =~= spec_escape_char(
            s[0],
        ));
    } else {
        let p = s.subrange(0, k);
        let q = s.subrange(0, k - 1);
        assert(p.first() == s[0] && q.first() == s[0]);
        assert(p.drop_first() =~= s.subrange(1, s.len() as int).subrange(0, k - 1));
        assert(q.drop_first() =~= s.subrange(1, s.len() as int).subrange(0, k - 2));
        lemma_escape_snoc(s.subrange(1, s.len() as int), k - 1);
        assert(s.subrange(1, s.len() as int)[k - 2] == s[k - 1]);
        assert((spec_escape_char(s[0]) + (spec_escape(q.drop_first()) + spec_escape_char(s[k - 1])))
            =~= (spec_escape_char(s[0]) + spec_escape(q.drop_first()) + spec_escape_char(
            s[k - 1],
        )));
    }
}

/// The JSON text of a value, exactly as `spec_render` says.
pub fn render(v: &JsonValue) -> (s: String)
    ensures
        s@ == spec_render(*v),
    decreases *v,
{
    let mut out = String::new();
    render_into(v, &mut out);
    out
}

/// Appends the JSON text of a value to `out`.
#[verifier::rlimit(80)]
fn render_into(v: &JsonValue, out: &mut String)
    ensures
        final(out)@ == old(out)@ + spec_render(*v),
    decreases *v,
{
    match v {
        JsonValue::Null => {
            let kw = ['n', 'u', 'l', 'l'];
            proof {
                assert(kw@ =~= seq!['n', 'u', 'l', 'l']);
            }
            let w = string_of_chars(&kw);
            out.append(w.as_str());
        },
        JsonValue::Bool(b) => {
            let kw_true = ['t', 'r', 'u', 'e'];
            let kw_false = ['f', 'a', 'l', 's', 'e'];
            proof {
                assert(kw_true@ =~= seq!['t', 'r', 'u', 'e']);
                assert(kw_false@ =~= seq!['f', 'a', 'l', 's', 'e']);
            }
            if *b {
                let w = string_of_chars(&kw_true);
                out.append(w.as_str());
            } else {
                let w = string_of_chars(&kw_false);
                out.append(w.as_str());
            }
        },
        JsonValue::Number(s) => {
            out.append(s.as_str());
        },
        JsonValue::String(s) => {
            push_char(out, '"');
            render_string_body(s.as_str(), out);
            push_char(out, '"');
            proof {
                assert(old(out)@ + (seq!['"'] + spec_escape(s@) + seq!['"']) =~= old(out)@.push(
                    '"',
                ) + spec_escape(s@) + seq!['"']);
                assert(final(out)@ =~= old(out)@ + spec_render(*v));
            }
        },
        JsonValue::Array(a) => {
            push_char(out, '[');
            let ghost base = out@;
            let mut i: usize = 0;
            #[verifier::loop_isolation(false)]
            while i < a.len()
                invariant
                    i <= a@.len(),
                    out@ == base + spec_render_elements(a@.subrange(0, i as int)),
                decreases a@.len() - i,
            {
                if i > 0 {
                    push_char(out, ',');
                }
                let ghost before = out@;
                render_into(&a[i], out);
                proof {
                    let pre = a@.subrange(0, i as int);
                    assert(pre.push(a@[i as int]) =~= a@.subrange(0, i as int + 1));
                    lemma_render_elements_push(pre, a@[i as int]);
                    assert(out@ =~= base + spec_render_elements(a@.subrange(0, i as int + 1)));
                }
                i = i + 1;
            }
            push_char(out, ']');
            proof {
                assert(a@.subrange(0, a@.len() as int) =~= a@);
                assert(final(out)@ =~= old(out)@ + spec_render(*v));
            }
        },
        JsonValue::Object(m) => {
            push_char(out, '{');
            let ghost base = out@;
            let ghost entries = m.entries@;
            let mut i: usize = 0;
            #[verifier::loop_isolation(false)]
            while i < m.entries.len()
                invariant
                    i <= entries.len(),
                    entries == m.entries@,
                    out@ == base + spec_render_entries(entries.subrange(0, i as int)),
                decreases entries.len() - i,
            {
                if i > 0 {
                    push_char(out, ',');
                }
                let ghost before = out@;
                push_char(out, '"');
                let entry = &m.entries[i];
                render_string_body(entry.0.as_str(), out);
                push_char(out, '"');
                push_char(out, ':');
                render_into(&entry.1, out);
                proof {
                    let pre = entries.subrange(0, i as int);
                    assert(pre.push(entries[i as int]) =~= entries.subrange(0, i as int + 1));
                    lemma_render_entries_push(pre, entries[i as int].0, entries[i as int].1);
                    assert(entries[i as int] == (entries[i as int].0, entries[i as int].1));
                    assert(out@ =~= base + spec_render_entries(entries.subrange(0, i as int + 1)));
                }
                i = i + 1;
            }
            push_char(out, '}');
            proof {
                assert(entries.subrange(0, entries.len() as int) =~= entries);
                assert(final(out)@ =~= old(out)@ + spec_render(*v));
            }
        },
    }
}

} // verus!

verus! {

/// Scanning an escaped body followed by a closing quote decodes exactly
/// the characters that were escaped, and stops behind the quote.
#[verifier::rlimit(60)]
pub proof fn lemma_escape_scan(
    src: Seq<char>,
    ts: nat,
    i: nat,
    line: nat,
    acc: Seq<char>,
    s: Seq<char>,
)
    requires
        i + spec_escape(s).len() + 1 <= src.len(),
        src.subrange(i as int, i as int + spec_escape(s).len() + 1) == spec_escape(s) + seq!['"'],
    ensures
        spec_scan_string(src, ts, i, line, acc) == (SpecScanResult::Tok {
            t: SpecToken {
                kind: SpecTokenKind::Str(acc + s),
                line,
                lexeme: lexeme_of(src, ts, (i + spec_escape(s).len() + 1) as nat),
            },
            i: (i + spec_escape(s).len() + 1) as nat,
        }),
    decreases s.len(),
{
    let e = spec_escape(s);
    if s.len() == 0 {
        assert(src[i as int] == (e + seq!['"'])[0]);
        assert(src[i as int] == '"');
        assert(acc + s =~= acc);
    } else {
        let c = s.first();
        let ec = spec_escape_char(c);
        let s2 = s.drop_first();
        let e2 = spec_escape(s2);
        assert(e == ec + e2);
        let d = ec.len() as int;
        assert forall|k2: int| 0 <= k2 < e2.len() + 1 implies src[i as int + d + k2] == (e2 + seq!['"'])[k2] by {
            assert(src[i as int + d + k2] == (e + seq!['"'])[d + k2]);
            assert((e + seq!['"'])[d + k2] == (e2 + seq!['"'])[k2]);
        }
        assert(src.subrange(i as int + d, i as int + d + e2.len() as int + 1) =~= e2 + seq!['"']);
        assert(acc.push(c) + s2 =~= acc + s);
        if c == '"' || c == '\\' || c == '\n' {
            assert(ec == seq!['\\', (if c == '\n' { 'n' } else { c })]);
            assert(src[i as int] == (e + seq!['"'])[0]);
            assert(src[i as int] == '\\');
            assert(src[i as int + 1] == (e + seq!['"'])[1]);
            assert(src[i as int + 1] == (if c == '\n' { 'n' } else { c }));
            assert(unescaped_char(src[i as int + 1]) == c);
            lemma_escape_scan(src, ts, (i + 2) as nat, line, acc.push(c), s2);
        } else {
            assert(ec == seq![c]);
            assert(src[i as int] == (e + seq!['"'])[0]);
            assert(src[i as int] == c);
            lemma_escape_scan(src, ts, (i + 1) as nat, line, acc.push(c), s2);
        }
    }
}

/// String escapes round trip: the decoded value of a rendered string
/// literal is exactly the original characters, whatever they are.
pub proof fn lemma_string_escape_round_trip(s: Seq<char>)
    ensures
        ({
            let lit = seq!['"'] + spec_escape(s) + seq!['"'];
            spec_scan_string(lit, 0, 1, 1, Seq::empty()) == (SpecScanResult::Tok {
                t: SpecToken { kind: SpecTokenKind::Str(s), line: 1, lexeme: lit },
                i: lit.len() as nat,
            })
        }),
{
    let lit = seq!['"'] + spec_escape(s) + seq!['"'];
    let e = spec_escape(s);
    assert(lit.subrange(1, 1 + e.len() as int + 1) =~= e + seq!['"']);
    lemma_escape_scan(lit, 0, 1, 1, Seq::empty(), s);
    assert(Seq::<char>::empty() + s =~= s);
    assert(lexeme_of(lit, 0, (1 + e.len() + 1) as nat) =~= lit);
}

} // verus!

verus! {

use crate::scanner::{
    spec_skip_digits, spec_skip_alpha, spec_skip_whitespace, spec_next_token as scan_next,
};
use crate::chars::alphabetic;

/// A position that closes or separates values: the end of the source, a
/// comma, or a closing bracket. No token can extend across it.
pub open spec fn spec_value_boundary(src: Seq<char>, p: int) -> bool {
    p == src.len() || src[p] == ',' || src[p] == ']' || src[p] == '}'
}

/// Skipping digits inside an embedded lexeme mirrors skipping them in the
/// lexeme alone, as long as no digit follows the embedding.
pub proof fn lemma_skip_digits_embed(src: Seq<char>, p: nat, lex: Seq<char>, a: nat)
    requires
        a <= lex.len(),
        p + lex.len() <= src.len(),
        src.subrange(p as int, p as int + lex.len() as int) == lex,
        p + lex.len() == src.len() || !is_digit_char(src[p as int + lex.len() as int]),
    ensures
        spec_skip_digits(src, (p + a) as nat) == p + spec_skip_digits(lex, a),
        a <= spec_skip_digits(lex, a) <= lex.len(),
    decreases lex.len() - a,
{
    if a < lex.len() {
        assert(src[p as int + a as int] == lex[a as int]);
        if is_digit_char(lex[a as int]) {
            lemma_skip_digits_embed(src, p, lex, (a + 1) as nat);
        }
    }
}

/// A well-formed number lexeme embedded before a value boundary scans to
/// one number token covering exactly the lexeme.
pub proof fn lemma_scan_number_embed(src: Seq<char>, p: nat, lex: Seq<char>)
    requires
        spec_number_lexeme_wf(lex),
        p + lex.len() <= src.len(),
        src.subrange(p as int, p as int + lex.len() as int) == lex,
        spec_value_boundary(src, p as int + lex.len() as int),
    ensures
        spec_scan_number(src, p, (p + 1) as nat, 1) == (SpecScanResult::Tok {
            t: SpecToken { kind: SpecTokenKind::Number, line: 1, lexeme: lex },
            i: (p + lex.len()) as nat,
        }),
{
    let n = lex.len() as int;
    let q = p as int + n;
    assert(q == src.len() || (src[q] == ',' || src[q] == ']' || src[q] == '}'));
    assert(q == src.len() || !is_digit_char(src[q]));
    let i1s = spec_skip_digits(lex, 1);
    lemma_skip_digits_embed(src, p, lex, 1);
    let i1 = spec_skip_digits(src, (p + 1) as nat);
    assert(i1 == p + i1s);
    assert forall|k: int| 0 <= k < n implies src[p as int + k] == lex[k] by {
        assert(src.subrange(p as int, p as int + n)[k] == src[p as int + k]);
    }
    let i2s: nat = if i1s < lex.len() && lex[i1s as int] == '.' {
        lemma_skip_digits_embed(src, p, lex, (i1s + 1) as nat);
        spec_skip_digits(lex, (i1s + 1) as nat)
    } else {
        i1s
    };
    let i2 = if i1 < src.len() && src[i1 as int] == '.' {
        spec_skip_digits(src, (i1 + 1) as nat)
    } else {
        i1
    };
    assert(i2 == p + i2s);
    match spec_scan_number(lex, 0, 1, 1) {
        SpecScanResult::Tok { t, i } => {
            assert(i == lex.len() && t.lexeme == lex && t.kind == SpecTokenKind::Number);
            if i2s < lex.len() && (lex[i2s as int] == 'e' || lex[i2s as int] == 'E') {
                let i3s = (i2s + 1) as nat;
                let i4s: nat = if i3s < lex.len() && (lex[i3s as int] == '-' || lex[i3s as int]
                    == '+') {
                    (i3s + 1) as nat
                } else {
                    i3s
                };
                let i5s = spec_skip_digits(lex, i4s);
                lemma_skip_digits_embed(src, p, lex, i4s);
                assert(i5s != i4s);
                assert(i5s == lex.len());
                assert(src[i2 as int] == lex[i2s as int]);
                if i3s < lex.len() {
                    assert(src[p as int + i3s as int] == lex[i3s as int]);
                }
                assert(lexeme_of(src, p, (p + i5s) as nat) =~= lex);
            } else {
                assert(i2s == lex.len());
                if q < src.len() {
                    assert(!(src[q] == 'e' || src[q] == 'E'));
                    assert(!alphabetic(src[q]));
                }
                assert(lexeme_of(src, p, (p + i2s) as nat) =~= lex);
                assert(lexeme_of(lex, 0, i2s) =~= lex);
                assert(!(lexeme_of(src, p, (p + i2s) as nat) == seq!['-']));
            }
        },
        _ => {
            assert(false);
        },
    }
}

/// The first token of a rendered value: an opening bracket for the
/// composites, the whole rendering for the scalars.
pub proof fn lemma_render_first_token(v: JsonValue, src: Seq<char>, p: nat)
    requires
        spec_json_wf(v),
        p + spec_render(v).len() <= src.len(),
        src.subrange(p as int, p as int + spec_render(v).len() as int) == spec_render(v),
        spec_value_boundary(src, p as int + spec_render(v).len() as int),
    ensures
        match scan_next(src, p, 1) {
            SpecScanResult::Tok { t, i } => t.line == 1 && i <= src.len() && match v {
                JsonValue::Object(_) => t.kind == SpecTokenKind::LCurlyBracket && i == p + 1,
                JsonValue::Array(_) => t.kind == SpecTokenKind::LBracket && i == p + 1,
                JsonValue::String(s) => t.kind == SpecTokenKind::Str(s@) && i == p + spec_render(
                    v,
                ).len(),
                JsonValue::Number(s) => t.kind == SpecTokenKind::Number && t.lexeme == s@ && i == p
                    + spec_render(v).len(),
                JsonValue::Bool(_) => t.kind == SpecTokenKind::Bool && t.lexeme == spec_render(v)
                    && i == p + spec_render(v).len(),
                JsonValue::Null => t.kind == SpecTokenKind::Null && i == p + spec_render(v).len(),
            },
            _ => false,
        },
{
    let r = spec_render(v);
    let n = r.len() as int;
    assert forall|k: int| 0 <= k < n implies src[p as int + k] == r[k] by {
        assert(src.subrange(p as int, p as int + n)[k] == src[p as int + k]);
    }
    assert(src[p as int] == r[0]);
    match v {
        JsonValue::Object(_) => {
            assert(src[p as int] == '{');
            assert(spec_skip_whitespace(src, p, 1) == (p, 1nat));
            assert(lexeme_of(src, p, (p + 1) as nat) =~= seq!['{']);
        },
        JsonValue::Array(_) => {
            assert(src[p as int] == '[');
            assert(spec_skip_whitespace(src, p, 1) == (p, 1nat));
            assert(lexeme_of(src, p, (p + 1) as nat) =~= seq!['[']);
        },
        JsonValue::String(s) => {
            assert(src[p as int] == '"');
            assert(spec_skip_whitespace(src, p, 1) == (p, 1nat));
            let e = spec_escape(s@);
            assert(src.subrange(p as int + 1, p as int + 1 + e.len() as int + 1) =~= e
                + seq!['"']) by {
                assert forall|k: int| 0 <= k < e.len() + 1 implies src.subrange(
                    p as int + 1,
                    p as int + 1 + e.len() as int + 1,
                )[k] == (e + seq!['"'])[k] by {
                    assert(src[p as int + 1 + k] == r[1 + k]);
                    assert(r[1 + k] == (seq!['"'] + e + seq!['"'])[1 + k]);
                }
            }
            lemma_escape_scan(src, p, (p + 1) as nat, 1, Seq::empty(), s@);
            assert(Seq::<char>::empty() + s@ =~= s@);
        },
        JsonValue::Number(s) => {
            assert(!is_whitespace_char(src[p as int]));
            assert(spec_skip_whitespace(src, p, 1) == (p, 1nat));
            lemma_scan_number_embed(src, p, s@);
        },
        JsonValue::Bool(b) => {
            assert(!is_whitespace_char(src[p as int]));
            assert(spec_skip_whitespace(src, p, 1) == (p, 1nat));
            if b {
                assert(src[p as int] == 't' && src[p as int + 1] == 'r' && src[p as int + 2] == 'u'
                    && src[p as int + 3] == 'e');
                assert(spec_skip_alpha(src, (p + 4) as nat) == p + 4);
                assert(spec_skip_alpha(src, (p + 3) as nat) == p + 4);
                assert(spec_skip_alpha(src, (p + 2) as nat) == p + 4);
                assert(spec_skip_alpha(src, (p + 1) as nat) == p + 4);
                assert(lexeme_of(src, p, (p + 4) as nat) =~= seq!['t', 'r', 'u', 'e']);
                assert(!(lexeme_of(src, p, (p + 4) as nat) == seq!['n', 'u', 'l', 'l']));
            } else {
                assert(src[p as int] == 'f' && src[p as int + 1] == 'a' && src[p as int + 2] == 'l'
                    && src[p as int + 3] == 's' && src[p as int + 4] == 'e');
                assert(spec_skip_alpha(src, (p + 5) as nat) == p + 5);
                assert(spec_skip_alpha(src, (p + 4) as nat) == p + 5);
                assert(spec_skip_alpha(src, (p + 3) as nat) == p + 5);
                assert(spec_skip_alpha(src, (p + 2) as nat) == p + 5);
                assert(spec_skip_alpha(src, (p + 1) as nat) == p + 5);
                assert(lexeme_of(src, p, (p + 5) as nat) =~= seq!['f', 'a', 'l', 's', 'e']);
                assert(!(lexeme_of(src, p, (p + 5) as nat) == seq!['n', 'u', 'l', 'l']));
                assert(!(lexeme_of(src, p, (p + 5) as nat) == seq!['t', 'r', 'u', 'e']));
            }
        },
        JsonValue::Null => {
            assert(!is_whitespace_char(src[p as int]));
            assert(spec_skip_whitespace(src, p, 1) == (p, 1nat));
            assert(src[p as int] == 'n' && src[p as int + 1] == 'u' && src[p as int + 2] == 'l'
                && src[p as int + 3] == 'l');
            assert(spec_skip_alpha(src, (p + 4) as nat) == p + 4);
            assert(spec_skip_alpha(src, (p + 3) as nat) == p + 4);
            assert(spec_skip_alpha(src, (p + 2) as nat) == p + 4);
            assert(spec_skip_alpha(src, (p + 1) as nat) == p + 4);
            assert(lexeme_of(src, p, (p + 4) as nat) =~= seq!['n', 'u', 'l', 'l']);
        },
    }
}

/// The token at a value boundary: the end of the source, or the one
/// structural character standing there.
pub proof fn lemma_boundary_token(src: Seq<char>, q: nat)
    requires
        q <= src.len(),
        spec_value_boundary(src, q as int),
    ensures
        match scan_next(src, q, 1) {
            SpecScanResult::End { i, line } => i == q && line == 1 && q == src.len(),
            SpecScanResult::Tok { t, i } => ({
                let c = src[q as int];
                q < src.len() && i == q + 1 && t.line == 1 && t.lexeme =~= seq![c] && (c == ','
                    ==> t.kind == SpecTokenKind::Comma) && (c == ']' ==> t.kind
                    == SpecTokenKind::RBracket) && (c == '}' ==> t.kind
                    == SpecTokenKind::RCurlyBracket)
            }),
            SpecScanResult::Fail { .. } => false,
        },
{
    if q == src.len() {
        assert(spec_skip_whitespace(src, q, 1) == (q, 1nat));
    } else {
        assert(!is_whitespace_char(src[q as int]));
        assert(spec_skip_whitespace(src, q, 1) == (q, 1nat));
        assert(lexeme_of(src, q, (q + 1) as nat) =~= seq![src[q as int]]);
    }
}

} // verus!
