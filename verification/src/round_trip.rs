//! The render-parse round trip law: parsing the rendering of any valid
//! JSON literal gives back exactly that literal. The proof walks the
//! rendered text token by token: `spec_at` pins the parser state that has
//! just pulled the token beginning at a given position, and the lemmas
//! compose one rendered value, element list or entry list at a time.

use vstd::prelude::*;
use crate::json_value::{
    lemma_elements_model_is_map, spec_elements_model, spec_entries_map, JsonValue, SpecJson,
};
use crate::parse_impl::json_value::{
    spec_parse_json_elements, spec_parse_json_entries, spec_parse_json_value,
};
use crate::parser::{spec_advance, spec_parse_source, SpecParser, SpecParserErr};
use crate::render::{
    lemma_boundary_token, lemma_render_first_token, spec_escape, spec_json_wf, spec_render,
    spec_render_elements, spec_render_entries, spec_value_boundary, lemma_escape_scan,
};
use crate::scanner::{
    lemma_next_token_progress, lexeme_of, spec_next_token, spec_skip_whitespace, SpecScanResult,
};
use crate::token::{SpecToken, SpecTokenKind};

verus! {

/// The parser state that has just pulled the token beginning at `p` as its
/// lookahead — or reached the end of the source there — with the scanner
/// resting behind that token, on line 1.
pub open spec fn spec_at(src: Seq<char>, p: nat, st: SpecParser) -> bool {
    st.scanner.source == src && st.scanner.line == 1 && match spec_next_token(src, p, 1) {
        SpecScanResult::End { i, line } => st.current is None && st.scanner.current == i,
        SpecScanResult::Tok { t, i } => st.current == Some(t) && st.scanner.current == i
            && st.scanner.token_start == spec_skip_whitespace(src, p, 1).0 && t.line == 1,
        SpecScanResult::Fail { .. } => false,
    }
}

/// Entries applied to an accumulator left to right, as the entry loop
/// inserts them.
pub open spec fn spec_fold_entries(
    acc: Map<Seq<char>, SpecJson>,
    es: Seq<(String, JsonValue)>,
) -> Map<Seq<char>, SpecJson>
    decreases es.len(),
{
    if es.len() == 0 {
        acc
    } else {
        spec_fold_entries(acc.insert(es.first().0@, es.first().1.deep_view()), es.drop_first())
    }
}

/// Folding one more entry on the right inserts it last.
pub proof fn lemma_fold_entries_snoc(
    acc: Map<Seq<char>, SpecJson>,
    es: Seq<(String, JsonValue)>,
    e: (String, JsonValue),
)
    ensures
        spec_fold_entries(acc, es.push(e)) == spec_fold_entries(acc, es).insert(
            e.0@,
            e.1.deep_view(),
        ),
    decreases es.len(),
{
    let ep = es.push(e);
    let acc1 = acc.insert(ep.first().0@, ep.first().1.deep_view());
    assert(spec_fold_entries(acc, ep) == spec_fold_entries(acc1, ep.drop_first()));
    if es.len() == 0 {
        assert(ep.first() == e);
        assert(ep.drop_first() =~= Seq::<(String, JsonValue)>::empty());
        assert(spec_fold_entries(acc1, ep.drop_first()) == acc1);
        assert(spec_fold_entries(acc, es) == acc);
    } else {
        assert(ep.first() == es.first());
        assert(ep.drop_first() =~= es.drop_first().push(e));
        lemma_fold_entries_snoc(acc1, es.drop_first(), e);
        assert(spec_fold_entries(acc, es) == spec_fold_entries(acc1, es.drop_first()));
    }
}

/// The left fold of the entry loop denotes the entry-list map.
pub proof fn lemma_fold_entries_is_map(es: Seq<(String, JsonValue)>)
    ensures
        spec_fold_entries(Map::empty(), es) == spec_entries_map(es),
    decreases es.len(),
{
    if es.len() > 0 {
        lemma_fold_entries_is_map(es.drop_last());
        assert(es.drop_last().push(es.last()) =~= es);
        lemma_fold_entries_snoc(Map::empty(), es.drop_last(), es.last());
    }
}

/// Decomposing a rendered element list: the head's rendering sits first,
/// and behind a comma the rest's rendering follows.
pub proof fn lemma_elements_head(a: Seq<JsonValue>, src: Seq<char>, p: nat)
    requires
        a.len() >= 1,
        p + spec_render_elements(a).len() <= src.len(),
        src.subrange(p as int, p as int + spec_render_elements(a).len() as int)
            == spec_render_elements(a),
    ensures
        spec_render(a.first()).len() <= spec_render_elements(a).len(),
        src.subrange(p as int, p as int + spec_render(a.first()).len() as int) == spec_render(
            a.first(),
        ),
        a.len() == 1 ==> spec_render_elements(a).len() == spec_render(a.first()).len(),
        a.len() > 1 ==> spec_render_elements(a).len() == spec_render(a.first()).len() + 1
            + spec_render_elements(a.drop_first()).len() && src[p as int + spec_render(
            a.first(),
        ).len() as int] == ',' && src.subrange(
            p as int + spec_render(a.first()).len() as int + 1,
            p as int + spec_render_elements(a).len() as int,
        ) == spec_render_elements(a.drop_first()),
{
    let re = spec_render_elements(a);
    let r0 = spec_render(a.first());
    assert forall|k: int| 0 <= k < re.len() implies src[p as int + k] == re[k] by {
        assert(src.subrange(p as int, p as int + re.len() as int)[k] == src[p as int + k]);
    }
    if a.len() == 1 {
        assert(re == r0);
        assert(src.subrange(p as int, p as int + r0.len() as int) =~= r0);
    } else {
        let rest = spec_render_elements(a.drop_first());
        assert(re == r0 + seq![','] + rest);
        assert forall|k: int| 0 <= k < r0.len() implies src[p as int + k] == r0[k] by {
            assert(re[k] == (r0 + seq![','] + rest)[k]);
        }
        assert(src.subrange(p as int, p as int + r0.len() as int) =~= r0);
        assert(re[r0.len() as int] == ',');
        assert forall|k: int| 0 <= k < rest.len() implies src[p as int + r0.len() as int + 1 + k]
            == rest[k] by {
            assert(re[r0.len() as int + 1 + k] == (r0 + seq![','] + rest)[r0.len() as int + 1 + k]);
        }
        assert(src.subrange(
            p as int + r0.len() as int + 1,
            p as int + re.len() as int,
        ) =~= rest);
    }
}

/// Decomposing a rendered entry list: the head's key literal, a colon and
/// the head's value sit first, and behind a comma the rest follows.
pub proof fn lemma_entries_head(es: Seq<(String, JsonValue)>, src: Seq<char>, p: nat)
    requires
        es.len() >= 1,
        p + spec_render_entries(es).len() <= src.len(),
        src.subrange(p as int, p as int + spec_render_entries(es).len() as int)
            == spec_render_entries(es),
    ensures
        ({
            let klen = spec_escape(es.first().0@).len() + 2;
            let r0 = spec_render(es.first().1);
            let head = klen + 1 + r0.len();
            &&& head <= spec_render_entries(es).len()
            &&& src[p as int] == '"'
            &&& src.subrange(p as int + 1, p as int + klen as int) == spec_escape(es.first().0@)
                + seq!['"']
            &&& src[p as int + klen as int] == ':'
            &&& src.subrange(
                p as int + klen as int + 1,
                p as int + klen as int + 1 + r0.len() as int,
            ) == r0
            &&& (es.len() == 1 ==> spec_render_entries(es).len() == head)
            &&& (es.len() > 1 ==> spec_render_entries(es).len() == head + 1
                + spec_render_entries(es.drop_first()).len() && src[p as int + head as int] == ','
                && src.subrange(
                p as int + head as int + 1,
                p as int + spec_render_entries(es).len() as int,
            ) == spec_render_entries(es.drop_first()))
        }),
{
    let re = spec_render_entries(es);
    let e0 = es.first();
    let ek = spec_escape(e0.0@);
    let klen = ek.len() + 2;
    let r0 = spec_render(e0.1);
    let h = seq!['"'] + ek + seq!['"', ':'] + r0;
    assert forall|k: int| 0 <= k < re.len() implies src[p as int + k] == re[k] by {
        assert(src.subrange(p as int, p as int + re.len() as int)[k] == src[p as int + k]);
    }
    if es.len() == 1 {
        assert(re == h);
    } else {
        let rest = spec_render_entries(es.drop_first());
        assert(re == h + seq![','] + rest);
        assert forall|k: int| 0 <= k < h.len() implies re[k] == h[k] by {
            assert(re[k] == (h + seq![','] + rest)[k]);
        }
        assert(re[h.len() as int] == ',');
        assert forall|k: int| 0 <= k < rest.len() implies src[p as int + h.len() as int + 1 + k]
            == rest[k] by {
            assert(re[h.len() as int + 1 + k] == (h + seq![','] + rest)[h.len() as int + 1 + k]);
        }
        assert(src.subrange(
            p as int + h.len() as int + 1,
            p as int + re.len() as int,
        ) =~= rest);
    }
    assert(src[p as int] == h[0]);
    assert forall|k: int| 0 <= k < ek.len() + 1 implies src[p as int + 1 + k] == (ek
        + seq!['"'])[k] by {
        assert(re[1 + k] == h[1 + k]);
        assert(h[1 + k] == (seq!['"'] + ek + seq!['"', ':'] + r0)[1 + k]);
    }
    assert(src.subrange(p as int + 1, p as int + klen as int) =~= ek + seq!['"']);
    assert(src[p as int + klen as int] == h[klen as int]);
    assert(h[klen as int] == ':');
    assert forall|k: int| 0 <= k < r0.len() implies src[p as int + klen as int + 1 + k]
        == r0[k] by {
        assert(re[klen as int + 1 + k] == h[klen as int + 1 + k]);
        assert(h[klen as int + 1 + k] == (seq!['"'] + ek + seq!['"', ':'] + r0)[klen as int + 1
            + k]);
    }
    assert(src.subrange(
        p as int + klen as int + 1,
        p as int + klen as int + 1 + r0.len() as int,
    ) =~= r0);
}

} // verus!

verus! {

use crate::chars::{is_whitespace_char, is_digit_char, alphabetic};

/// The token at a colon position.
pub proof fn lemma_colon_token(src: Seq<char>, q: nat)
    requires
        q < src.len(),
        src[q as int] == ':',
    ensures
        spec_next_token(src, q, 1) == (SpecScanResult::Tok {
            t: SpecToken { kind: SpecTokenKind::Colon, line: 1, lexeme: seq![':'] },
            i: (q + 1) as nat,
        }),
{
    assert(!is_whitespace_char(src[q as int]));
    assert(spec_skip_whitespace(src, q, 1) == (q, 1nat));
    assert(lexeme_of(src, q, (q + 1) as nat) =~= seq![':']);
}

/// The first token of a rendered entry list: the head's key literal as one
/// string token.
pub proof fn lemma_entries_key_token(es: Seq<(String, JsonValue)>, src: Seq<char>, p: nat)
    requires
        es.len() >= 1,
        p + spec_render_entries(es).len() <= src.len(),
        src.subrange(p as int, p as int + spec_render_entries(es).len() as int)
            == spec_render_entries(es),
    ensures
        ({
            let klen = spec_escape(es.first().0@).len() + 2;
            spec_next_token(src, p, 1) == (SpecScanResult::Tok {
                t: SpecToken {
                    kind: SpecTokenKind::Str(es.first().0@),
                    line: 1,
                    lexeme: lexeme_of(src, p, (p + klen) as nat),
                },
                i: (p + klen) as nat,
            })
        }),
{
    lemma_entries_head(es, src, p);
    assert(src[p as int] == '"');
    assert(!is_whitespace_char('"') && !is_digit_char('"') && !alphabetic('"'));
    assert(spec_skip_whitespace(src, p, 1) == (p, 1nat));
    lemma_escape_scan(src, p, (p + 1) as nat, 1, Seq::empty(), es.first().0@);
    assert(Seq::<char>::empty() + es.first().0@ =~= es.first().0@);
}

/// Parsing the rendering of one valid value from a state whose lookahead
/// is its first token yields exactly that value and leaves the cursor at
/// the boundary behind it.
#[verifier::rlimit(100)]
#[verifier::spinoff_prover]
pub proof fn lemma_parse_rendered_value(v: JsonValue, src: Seq<char>, p: nat, st: SpecParser)
    requires
        spec_json_wf(v),
        p + spec_render(v).len() <= src.len(),
        src.subrange(p as int, p as int + spec_render(v).len() as int) == spec_render(v),
        spec_value_boundary(src, p as int + spec_render(v).len() as int),
        spec_at(src, p, st),
    ensures
        spec_parse_json_value(st) is Ok,
        spec_parse_json_value(st)->Ok_0.0 == v.deep_view(),
        spec_at(src, (p + spec_render(v).len()) as nat, spec_parse_json_value(st)->Ok_0.1),
    decreases v,
{
    let r = spec_render(v);
    let q = (p + r.len()) as nat;
    lemma_render_first_token(v, src, p);
    match spec_next_token(src, p, 1) {
        SpecScanResult::Tok { t: t0, i: i0 } => {
            match v {
                JsonValue::Null => {
                    lemma_boundary_token(src, q);
                },
                JsonValue::Bool(b) => {
                    lemma_boundary_token(src, q);
                    if b {
                        assert(t0.lexeme == seq!['t', 'r', 'u', 'e']);
                    } else {
                        assert(t0.lexeme == seq!['f', 'a', 'l', 's', 'e']);
                        assert(t0.lexeme.len() == 5);
                        assert(!(t0.lexeme == seq!['t', 'r', 'u', 'e']));
                    }
                },
                JsonValue::Number(_) => {
                    lemma_boundary_token(src, q);
                },
                JsonValue::String(_) => {
                    lemma_boundary_token(src, q);
                },
                JsonValue::Array(arr) => {
                    let a = arr@;
                    let re = spec_render_elements(a);
                    assert(r == seq!['['] + re + seq![']']);
                    assert forall|k: int| 0 <= k < r.len() implies src[p as int + k] == r[k] by {
                        assert(src.subrange(p as int, p as int + r.len() as int)[k] == src[p as int
                            + k]);
                    }
                    assert(i0 == p + 1);
                    lemma_next_token_progress(src, (p + 1) as nat, 1);
                    if a.len() == 0 {
                        assert(re =~= Seq::<char>::empty());
                        assert(src[p as int + 1] == r[1]);
                        assert(r[1] == ']');
                        lemma_boundary_token(src, (p + 1) as nat);
                        lemma_boundary_token(src, (p + 2) as nat);
                        assert(spec_elements_model(a) =~= Seq::<SpecJson>::empty());
                    } else {
                        assert forall|k: int| 0 <= k < re.len() implies src[p as int + 1 + k]
                            == re[k] by {
                            assert(r[1 + k] == (seq!['['] + re + seq![']'])[1 + k]);
                        }
                        assert(src.subrange(p as int + 1, p as int + 1 + re.len() as int) =~= re);
                        assert(src[p as int + 1 + re.len() as int] == r[1 + re.len() as int]);
                        assert(r[1 + re.len() as int] == ']');
                        lemma_elements_head(a, src, (p + 1) as nat);
                        lemma_render_first_token(a.first(), src, (p + 1) as nat);
                        let st1 = spec_advance(st).1;
                        lemma_parse_rendered_elements(
                            a,
                            src,
                            (p + 1) as nat,
                            st1,
                            Seq::empty(),
                            false,
                        );
                        lemma_elements_model_is_map(a);
                        assert(Seq::<SpecJson>::empty() + spec_elements_model(a)
                            =~= spec_elements_model(a));
                    }
                },
                JsonValue::Object(m) => {
                    let es = m.entries@;
                    let ree = spec_render_entries(es);
                    assert(r == seq!['{'] + ree + seq!['}']);
                    assert forall|k: int| 0 <= k < r.len() implies src[p as int + k] == r[k] by {
                        assert(src.subrange(p as int, p as int + r.len() as int)[k] == src[p as int
                            + k]);
                    }
                    assert(i0 == p + 1);
                    lemma_next_token_progress(src, (p + 1) as nat, 1);
                    if es.len() == 0 {
                        assert(ree =~= Seq::<char>::empty());
                        assert(src[p as int + 1] == r[1]);
                        assert(r[1] == '}');
                        lemma_boundary_token(src, (p + 1) as nat);
                        lemma_boundary_token(src, (p + 2) as nat);
                        assert(spec_entries_map(es) =~= Map::<Seq<char>, SpecJson>::empty());
                    } else {
                        assert forall|k: int| 0 <= k < ree.len() implies src[p as int + 1 + k]
                            == ree[k] by {
                            assert(r[1 + k] == (seq!['{'] + ree + seq!['}'])[1 + k]);
                        }
                        assert(src.subrange(p as int + 1, p as int + 1 + ree.len() as int) =~= ree);
                        assert(src[p as int + 1 + ree.len() as int] == r[1 + ree.len() as int]);
                        assert(r[1 + ree.len() as int] == '}');
                        lemma_entries_key_token(es, src, (p + 1) as nat);
                        let st1 = spec_advance(st).1;
                        lemma_parse_rendered_entries(
                            es,
                            src,
                            (p + 1) as nat,
                            st1,
                            Map::empty(),
                            false,
                        );
                        lemma_fold_entries_is_map(es);
                    }
                },
            }
        },
        _ => {
            assert(false);
        },
    }
}

/// Parsing a rendered, comma-separated element list from the first
/// element's first token accumulates exactly the elements' models and
/// leaves the cursor behind the closing bracket.
#[verifier::rlimit(100)]
#[verifier::spinoff_prover]
pub proof fn lemma_parse_rendered_elements(
    a: Seq<JsonValue>,
    src: Seq<char>,
    p: nat,
    st: SpecParser,
    acc: Seq<SpecJson>,
    hc: bool,
)
    requires
        a.len() >= 1,
        forall|i: int| 0 <= i < a.len() ==> spec_json_wf(#[trigger] a[i]),
        p + spec_render_elements(a).len() + 1 <= src.len(),
        src.subrange(p as int, p as int + spec_render_elements(a).len() as int)
            == spec_render_elements(a),
        src[p as int + spec_render_elements(a).len() as int] == ']',
        spec_value_boundary(src, p as int + spec_render_elements(a).len() as int + 1),
        spec_at(src, p, st),
    ensures
        spec_parse_json_elements(st, acc, hc) is Ok,
        spec_parse_json_elements(st, acc, hc)->Ok_0.0 == acc + spec_elements_model(a),
        spec_at(
            src,
            (p + spec_render_elements(a).len() + 1) as nat,
            spec_parse_json_elements(st, acc, hc)->Ok_0.1,
        ),
    decreases a,
{
    let re = spec_render_elements(a);
    let a0 = a.first();
    let r0 = spec_render(a0);
    let q0 = (p + r0.len()) as nat;
    lemma_elements_head(a, src, p);
    if a.len() == 1 {
        assert(src[q0 as int] == ']');
    } else {
        assert(src[q0 as int] == ',');
    }
    lemma_render_first_token(a0, src, p);
    lemma_parse_rendered_value(a0, src, p, st);
    let m0 = spec_parse_json_value(st)->Ok_0.0;
    let st1 = spec_parse_json_value(st)->Ok_0.1;
    lemma_boundary_token(src, q0);
    lemma_elements_model_is_map(a);
    if a.len() == 1 {
        lemma_boundary_token(src, (q0 + 1) as nat);
        assert(acc.push(m0) =~= acc + spec_elements_model(a));
    } else {
        let p2 = (q0 + 1) as nat;
        let rest = a.drop_first();
        lemma_elements_head(rest, src, p2);
        if rest.len() == 1 {
            assert(src[p2 as int + spec_render(rest.first()).len() as int] == ']');
        } else {
            assert(src[p2 as int + spec_render(rest.first()).len() as int] == ',');
        }
        lemma_render_first_token(rest.first(), src, p2);
        lemma_next_token_progress(src, p2, 1);
        let st2 = spec_advance(st1).1;
        lemma_parse_rendered_elements(rest, src, p2, st2, acc.push(m0), true);
        lemma_elements_model_is_map(rest);
        assert(acc.push(m0) + spec_elements_model(rest) =~= acc + spec_elements_model(a)) by {
            assert(forall|k: int|
                0 <= k < rest.len() ==> rest[k] == a[k + 1]);
        }
    }
}

/// Parsing a rendered, comma-separated entry list from the first key's
/// token folds exactly the entries into the accumulator and leaves the
/// cursor behind the closing brace.
#[verifier::rlimit(100)]
#[verifier::spinoff_prover]
pub proof fn lemma_parse_rendered_entries(
    es: Seq<(String, JsonValue)>,
    src: Seq<char>,
    p: nat,
    st: SpecParser,
    acc: Map<Seq<char>, SpecJson>,
    hc: bool,
)
    requires
        es.len() >= 1,
        forall|i: int| 0 <= i < es.len() ==> spec_json_wf(#[trigger] es[i].1),
        p + spec_render_entries(es).len() + 1 <= src.len(),
        src.subrange(p as int, p as int + spec_render_entries(es).len() as int)
            == spec_render_entries(es),
        src[p as int + spec_render_entries(es).len() as int] == '}',
        spec_value_boundary(src, p as int + spec_render_entries(es).len() as int + 1),
        spec_at(src, p, st),
    ensures
        spec_parse_json_entries(st, acc, hc) is Ok,
        spec_parse_json_entries(st, acc, hc)->Ok_0.0 == spec_fold_entries(acc, es),
        spec_at(
            src,
            (p + spec_render_entries(es).len() + 1) as nat,
            spec_parse_json_entries(st, acc, hc)->Ok_0.1,
        ),
    decreases es,
{
    let ree = spec_render_entries(es);
    let e0 = es.first();
    let klen = (spec_escape(e0.0@).len() + 2) as nat;
    let r0 = spec_render(e0.1);
    let pv = (p + klen + 1) as nat;
    let q0 = (pv + r0.len()) as nat;
    lemma_entries_head(es, src, p);
    lemma_entries_key_token(es, src, p);
    lemma_colon_token(src, (p + klen) as nat);
    if es.len() == 1 {
        assert(src[q0 as int] == '}');
    } else {
        assert(src[q0 as int] == ',');
    }
    lemma_render_first_token(e0.1, src, pv);
    lemma_next_token_progress(src, pv, 1);
    let st1 = spec_advance(st).1;
    let st2 = spec_advance(st1).1;
    lemma_parse_rendered_value(e0.1, src, pv, st2);
    let m0 = spec_parse_json_value(st2)->Ok_0.0;
    let st3 = spec_parse_json_value(st2)->Ok_0.1;
    lemma_boundary_token(src, q0);
    if es.len() == 1 {
        lemma_boundary_token(src, (q0 + 1) as nat);
        assert(es.drop_first() =~= Seq::<(String, JsonValue)>::empty());
        assert(spec_fold_entries(acc, es) == spec_fold_entries(
            acc.insert(e0.0@, e0.1.deep_view()),
            es.drop_first(),
        ));
        assert(spec_fold_entries(acc.insert(e0.0@, e0.1.deep_view()), es.drop_first())
            == acc.insert(e0.0@, e0.1.deep_view()));
    } else {
        let p2 = (q0 + 1) as nat;
        let rest = es.drop_first();
        lemma_entries_head(rest, src, p2);
        lemma_entries_key_token(rest, src, p2);
        lemma_next_token_progress(src, p2, 1);
        let st4 = spec_advance(st3).1;
        lemma_parse_rendered_entries(rest, src, p2, st4, acc.insert(e0.0@, m0), true);
        assert(spec_fold_entries(acc, es) == spec_fold_entries(
            acc.insert(e0.0@, e0.1.deep_view()),
            rest,
        ));
    }
}

/// The render-parse round trip: parsing the rendering of any valid JSON
/// literal yields exactly that literal's model.
pub proof fn lemma_render_parse(v: JsonValue)
    requires
        spec_json_wf(v),
    ensures
        spec_parse_source::<JsonValue>(spec_render(v)) == Ok::<SpecJson, SpecParserErr>(
            v.deep_view(),
        ),
{
    let src = spec_render(v);
    assert(src.subrange(0, src.len() as int) =~= src);
    lemma_render_first_token(v, src, 0);
    match spec_next_token(src, 0, 1) {
        SpecScanResult::Tok { t: t0, i: i0 } => {
            let st0 = SpecParser {
                scanner: crate::scanner::SpecScanner {
                    source: src,
                    token_start: spec_skip_whitespace(src, 0, 1).0,
                    current: i0,
                    line: t0.line,
                },
                prev: None,
                current: Some(t0),
            };
            assert(spec_at(src, 0, st0));
            lemma_parse_rendered_value(v, src, 0, st0);
            let st1 = spec_parse_json_value(st0)->Ok_0.1;
            assert(spec_skip_whitespace(src, src.len() as nat, 1) == (src.len() as nat, 1nat));
            assert(st1.current is None);
        },
        _ => {
            assert(false);
        },
    }
}

} // verus!
