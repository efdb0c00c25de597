//! A JSON codec for flat records whose members are all strings.
//!
//! The request and response payloads of the operations in this crate are flat
//! records of string fields. A record is written as one JSON object without
//! surrounding whitespace, its members in a fixed order; reading accepts
//! exactly that shape back. Member names and values are JSON strings in which
//! `"` and `\` are escaped with a backslash and control characters are written
//! as `\u00` followed by two uppercase hexadecimal digits.

use vstd::prelude::*;
use vstd::string::StrSliceExecFns;
use crate::percent::{hex_char, hex_digit, hex_value, is_hex_char, push_char};

verus! {

/// How one character appears inside a JSON string literal.
pub open spec fn escaped_char(c: char) -> Seq<char> {
    if c == '"' {
        seq!['\\', '"']
    } else if c == '\\' {
        seq!['\\', '\\']
    } else if (c as u32) < 0x20 {
        seq!['\\', 'u', '0', '0', hex_char((c as u32 / 16) as u8), hex_char((c as u32 % 16) as u8)]
    } else {
        seq![c]
    }
}

/// The body of a JSON string literal for the given text.
pub open spec fn escaped(s: Seq<char>) -> Seq<char>
    decreases s.len(),
{
    if s.len() == 0 {
        Seq::empty()
    } else {
        escaped_char(s[0]) + escaped(s.drop_first())
    }
}

/// A complete JSON string literal: the escaped text between double quotes.
pub open spec fn quoted(s: Seq<char>) -> Seq<char> {
    seq!['"'] + escaped(s) + seq!['"']
}

/// One object member: a quoted name, a colon, a quoted value.
pub open spec fn pair_json(k: Seq<char>, v: Seq<char>) -> Seq<char> {
    quoted(k) + seq![':'] + quoted(v)
}

/// The members of an object, separated by commas.
pub open spec fn pairs_json(ps: Seq<(Seq<char>, Seq<char>)>) -> Seq<char>
    decreases ps.len(),
{
    if ps.len() == 0 {
        Seq::empty()
    } else if ps.len() == 1 {
        pair_json(ps[0].0, ps[0].1)
    } else {
        pair_json(ps[0].0, ps[0].1) + seq![','] + pairs_json(ps.drop_first())
    }
}

/// A whole record: its members between braces.
pub open spec fn record_json(ps: Seq<(Seq<char>, Seq<char>)>) -> Seq<char> {
    seq!['{'] + pairs_json(ps) + seq!['}']
}

/// Reads a string literal from just after its opening quote: the decoded
/// content together with what follows the closing quote, or nothing when the
/// input is not a string literal in the shape this codec writes.
pub open spec fn scan_string(cs: Seq<char>) -> Option<(Seq<char>, Seq<char>)>
    decreases cs.len(),
{
    if cs.len() == 0 {
        None
    } else if cs[0] == '"' {
        Some((Seq::empty(), cs.drop_first()))
    } else if cs[0] == '\\' {
        if cs.len() >= 2 && (cs[1] == '"' || cs[1] == '\\') {
            match scan_string(cs.subrange(2, cs.len() as int)) {
                Some(p) => Some((seq![cs[1]] + p.0, p.1)),
                None => None,
            }
        } else if cs.len() >= 6 && cs[1] == 'u' && cs[2] == '0' && cs[3] == '0' && is_hex_char(
            cs[4],
        ) && is_hex_char(cs[5]) {
            match scan_string(cs.subrange(6, cs.len() as int)) {
                Some(p) => Some(
                    (seq![((hex_value(cs[4]) * 16 + hex_value(cs[5])) as u8) as char] + p.0, p.1),
                ),
                None => None,
            }
        } else {
            None
        }
    } else {
        match scan_string(cs.drop_first()) {
            Some(p) => Some((seq![cs[0]] + p.0, p.1)),
            None => None,
        }
    }
}

/// The unconsumed remainder a successful string scan leaves is strictly
/// shorter than its input.
pub proof fn lemma_scan_string_shrinks(cs: Seq<char>)
    ensures
        scan_string(cs) matches Some(p) ==> p.1.len() < cs.len(),
    decreases cs.len(),
{
    if cs.len() == 0 {
    } else if cs[0] == '"' {
    } else if cs[0] == '\\' {
        if cs.len() >= 2 && (cs[1] == '"' || cs[1] == '\\') {
            lemma_scan_string_shrinks(cs.subrange(2, cs.len() as int));
        } else if cs.len() >= 6 && cs[1] == 'u' && cs[2] == '0' && cs[3] == '0' && is_hex_char(
            cs[4],
        ) && is_hex_char(cs[5]) {
            lemma_scan_string_shrinks(cs.subrange(6, cs.len() as int));
        }
    } else {
        lemma_scan_string_shrinks(cs.drop_first());
    }
}

/// Reads the members of an object from just after the opening brace up to and
/// including the closing brace: the members together with what follows the
/// brace, or nothing when the input is not in the shape this codec writes.
/// At least one member must be present.
pub open spec fn scan_pairs(cs: Seq<char>) -> Option<
    (Seq<(Seq<char>, Seq<char>)>, Seq<char>),
>
    decreases cs.len(),
{
    if cs.len() >= 1 && cs[0] == '"' {
        match scan_string(cs.drop_first()) {
            Some(kp) => {
                let k = kp.0;
                let rest1 = kp.1;
                if rest1.len() >= 2 && rest1[0] == ':' && rest1[1] == '"' {
                    match scan_string(rest1.subrange(2, rest1.len() as int)) {
                        Some(vp) => {
                            let v = vp.0;
                            let rest2 = vp.1;
                            if rest2.len() >= 1 && rest2[0] == ',' {
                                proof {
                                    lemma_scan_string_shrinks(cs.drop_first());
                                    lemma_scan_string_shrinks(rest1.subrange(2, rest1.len() as int));
                                }
                                match scan_pairs(rest2.drop_first()) {
                                    Some(pp) => Some((seq![(k, v)] + pp.0, pp.1)),
                                    None => None,
                                }
                            } else if rest2.len() >= 1 && rest2[0] == '}' {
                                Some((seq![(k, v)], rest2.drop_first()))
                            } else {
                                None
                            }
                        },
                        None => None,
                    }
                } else {
                    None
                }
            },
            None => None,
        }
    } else {
        None
    }
}

/// The record a piece of text holds, when it is exactly one object in the
/// shape this codec writes.
pub open spec fn record_of(cs: Seq<char>) -> Option<Seq<(Seq<char>, Seq<char>)>> {
    if cs.len() >= 2 && cs[0] == '{' {
        if cs[1] == '}' {
            if cs.len() == 2 {
                Some(Seq::empty())
            } else {
                None
            }
        } else {
            match scan_pairs(cs.subrange(1, cs.len() as int)) {
                Some(pp) => if pp.1.len() == 0 {
                    Some(pp.0)
                } else {
                    None
                },
                None => None,
            }
        }
    } else {
        None
    }
}

/// Escaping distributes over concatenation.
pub proof fn lemma_escaped_concat(a: Seq<char>, b: Seq<char>)
    ensures
        escaped(a + b) == escaped(a) + escaped(b),
    decreases a.len(),
{
    if a.len() == 0 {
        assert(a + b =~= b);
        assert(escaped(a) + escaped(b) =~= escaped(b));
    } else {
        assert((a + b).drop_first() =~= a.drop_first() + b);
        lemma_escaped_concat(a.drop_first(), b);
        assert(escaped(a + b) =~= escaped(a) + escaped(b));
    }
}

/// Scanning a string literal written by this codec yields the original text
/// and leaves exactly what followed the literal.
pub proof fn lemma_scan_escaped(s: Seq<char>, rest: Seq<char>)
    ensures
        scan_string(escaped(s) + seq!['"'] + rest) == Some((s, rest)),
    decreases s.len(),
{
    if s.len() == 0 {
        let cs = escaped(s) + seq!['"'] + rest;
        assert(cs =~= seq!['"'] + rest);
        assert(cs[0] == '"');
        assert(cs.drop_first() =~= rest);
        assert(Seq::<char>::empty() =~= s);
    } else {
        let c = s[0];
        let tail = s.drop_first();
        let cs = escaped(s) + seq!['"'] + rest;
        assert(escaped(s) == escaped_char(c) + escaped(tail));
        let inner = escaped(tail) + seq!['"'] + rest;
        lemma_scan_escaped(tail, rest);
        if c == '"' {
            assert(cs =~= seq!['\\', '"'] + inner);
            assert(cs.subrange(2, cs.len() as int) =~= inner);
            assert(seq![c] + tail =~= s);
        } else if c == '\\' {
            assert(cs =~= seq!['\\', '\\'] + inner);
            assert(cs.subrange(2, cs.len() as int) =~= inner);
            assert(seq![c] + tail =~= s);
        } else if (c as u32) < 0x20 {
            let u = c as u32;
            let d1 = hex_char((u / 16) as u8);
            let d2 = hex_char((u % 16) as u8);
            crate::percent::lemma_hex_char_value((u / 16) as u8);
            crate::percent::lemma_hex_char_value((u % 16) as u8);
            assert(cs =~= seq!['\\', 'u', '0', '0', d1, d2] + inner);
            assert(cs.subrange(6, cs.len() as int) =~= inner);
            assert(d1 != '"' && d2 != '"');
            assert(hex_value(d1) == u / 16 && hex_value(d2) == u % 16);
            assert(hex_value(d1) * 16 + hex_value(d2) == u) by (nonlinear_arith)
                requires
                    hex_value(d1) == u / 16,
                    hex_value(d2) == u % 16,
                    u < 0x20,
            ;
            assert(((hex_value(cs[4]) * 16 + hex_value(cs[5])) as u8) as char == c) by {
                let b = u as u8;
                assert(b as u32 == u);
                let c2 = b as char;
                assert(c2 as u32 == u);
                vstd::utf8::char_u32_cast(c, u);
                vstd::utf8::char_u32_cast(c2, u);
            };
            assert(seq![c] + tail =~= s);
        } else {
            assert(cs[0] == c);
            assert(cs.drop_first() =~= inner);
            assert(seq![c] + tail =~= s);
        }
    }
}

/// Scanning the members written for a non-empty record yields those members
/// and consumes the closing brace.
pub proof fn lemma_scan_pairs_json(ps: Seq<(Seq<char>, Seq<char>)>)
    requires
        ps.len() >= 1,
    ensures
        scan_pairs(pairs_json(ps) + seq!['}']) == Some((ps, Seq::<char>::empty())),
    decreases ps.len(),
{
    let k = ps[0].0;
    let v = ps[0].1;
    let cs = pairs_json(ps) + seq!['}'];
    if ps.len() == 1 {
        assert(cs =~= seq!['"'] + (escaped(k) + seq!['"'] + (seq![':', '"'] + (escaped(v)
            + seq!['"'] + seq!['}']))));
        assert(cs[0] == '"');
        lemma_scan_escaped(k, seq![':', '"'] + (escaped(v) + seq!['"'] + seq!['}']));
        assert(cs.drop_first() =~= escaped(k) + seq!['"'] + (seq![':', '"'] + (escaped(v)
            + seq!['"'] + seq!['}'])));
        let rest1 = seq![':', '"'] + (escaped(v) + seq!['"'] + seq!['}']);
        assert(rest1[0] == ':' && rest1[1] == '"');
        lemma_scan_escaped(v, seq!['}']);
        assert(rest1.subrange(2, rest1.len() as int) =~= escaped(v) + seq!['"'] + seq!['}']);
        let rest2 = seq!['}'];
        assert(rest2[0] == '}');
        assert(rest2.drop_first() =~= Seq::<char>::empty());
        assert(seq![(k, v)] =~= ps);
    } else {
        let tail = ps.drop_first();
        lemma_scan_pairs_json(tail);
        let after = seq![','] + (pairs_json(tail) + seq!['}']);
        assert(cs =~= seq!['"'] + (escaped(k) + seq!['"'] + (seq![':', '"'] + (escaped(v)
            + seq!['"'] + after))));
        assert(cs[0] == '"');
        lemma_scan_escaped(k, seq![':', '"'] + (escaped(v) + seq!['"'] + after));
        assert(cs.drop_first() =~= escaped(k) + seq!['"'] + (seq![':', '"'] + (escaped(v)
            + seq!['"'] + after)));
        let rest1 = seq![':', '"'] + (escaped(v) + seq!['"'] + after);
        assert(rest1[0] == ':' && rest1[1] == '"');
        lemma_scan_escaped(v, after);
        assert(rest1.subrange(2, rest1.len() as int) =~= escaped(v) + seq!['"'] + after);
        let rest2 = after;
        assert(rest2[0] == ',');
        assert(rest2.drop_first() =~= pairs_json(tail) + seq!['}']);
        assert(seq![(k, v)] + tail =~= ps);
    }
}

/// Writing the members of a record one more member at the end.
pub proof fn lemma_pairs_json_snoc(ps: Seq<(Seq<char>, Seq<char>)>, p: (Seq<char>, Seq<char>))
    requires
        ps.len() >= 1,
    ensures
        pairs_json(ps.push(p)) == pairs_json(ps) + seq![','] + pair_json(p.0, p.1),
    decreases ps.len(),
{
    if ps.len() == 1 {
        assert(ps.push(p).drop_first() =~= seq![p]);
        assert(pairs_json(seq![p]) == pair_json(p.0, p.1));
        assert(pairs_json(ps.push(p)) =~= pairs_json(ps) + seq![','] + pair_json(p.0, p.1));
    } else {
        lemma_pairs_json_snoc(ps.drop_first(), p);
        assert(ps.push(p).drop_first() =~= ps.drop_first().push(p));
        assert(pairs_json(ps.push(p)) =~= pairs_json(ps) + seq![','] + pair_json(p.0, p.1));
    }
}

/// A record written by this codec and read back yields the original members:
/// the codec round-trips.
pub proof fn lemma_record_roundtrip(ps: Seq<(Seq<char>, Seq<char>)>)
    ensures
        record_of(record_json(ps)) == Some(ps),
{
    let cs = record_json(ps);
    if ps.len() == 0 {
        assert(cs =~= seq!['{', '}']);
        assert(Seq::<(Seq<char>, Seq<char>)>::empty() =~= ps);
    } else {
        lemma_scan_pairs_json(ps);
        assert(pairs_json(ps)[0] == '"');
        assert(cs.len() >= 2 && cs[0] == '{');
        assert(cs[1] == pairs_json(ps)[0]);
        assert(cs.subrange(1, cs.len() as int) =~= pairs_json(ps) + seq!['}']);
    }
}

fn is_hex(c: char) -> (r: bool)
    ensures
        r == is_hex_char(c),
{
    let u = c as u32;
    (0x30 <= u && u <= 0x39) || (0x41 <= u && u <= 0x46)
}

fn hex_val(c: char) -> (r: u8)
    requires
        is_hex_char(c),
    ensures
        r == hex_value(c),
        r < 16,
{
    let u = c as u32;
    if u <= 0x39 {
        (u - 0x30) as u8
    } else {
        (u - 0x37) as u8
    }
}

/// Append a JSON string literal holding the given text.
fn append_quoted(out: &mut String, s: &str)
    ensures
        final(out)@ == old(out)@ + quoted(s@),
{
    push_char(out, '"');
    let n = s.unicode_len();
    let mut i: usize = 0;
    while i < n
        invariant
            i <= n,
            n == s@.len(),
            out@ == old(out)@ + seq!['"'] + escaped(s@.take(i as int)),
        decreases n - i,
    {
        let c = s.get_char(i);
        let u = c as u32;
        if c == '"' {
            push_char(out, '\\');
            push_char(out, '"');
        } else if c == '\\' {
            push_char(out, '\\');
            push_char(out, '\\');
        } else if u < 0x20 {
            push_char(out, '\\');
            push_char(out, 'u');
            push_char(out, '0');
            push_char(out, '0');
            push_char(out, hex_digit((u / 16) as u8));
            push_char(out, hex_digit((u % 16) as u8));
        } else {
            push_char(out, c);
        }
        proof {
            assert(s@.take(i + 1) =~= s@.take(i as int) + seq![c]);
            lemma_escaped_concat(s@.take(i as int), seq![c]);
            assert(seq![c].drop_first() =~= Seq::<char>::empty());
            reveal_with_fuel(escaped, 2);
            assert(escaped(seq![c]) =~= escaped_char(c));
            assert(out@ =~= old(out)@ + seq!['"'] + escaped(s@.take(i + 1)));
        }
        i = i + 1;
    }
    push_char(out, '"');
    proof {
        assert(s@.take(n as int) =~= s@);
        assert(out@ =~= old(out)@ + quoted(s@));
    }
}

/// Write a record of named string members as one JSON object, members in the
/// given order.
pub fn json_of_pairs(pairs: &Vec<(String, String)>) -> (r: String)
    ensures
        r@ == record_json(pairs.deep_view()),
{
    let ghost dv = pairs.deep_view();
    let mut out = String::new();
    push_char(&mut out, '{');
    let mut i: usize = 0;
    while i < pairs.len()
        invariant
            i <= pairs@.len(),
            dv == pairs.deep_view(),
            dv.len() == pairs@.len(),
            out@ == seq!['{'] + pairs_json(dv.take(i as int)),
        decreases pairs@.len() - i,
    {
        let ghost before = out@;
        if i > 0 {
            push_char(&mut out, ',');
        }
        append_quoted(&mut out, pairs[i].0.as_str());
        push_char(&mut out, ':');
        append_quoted(&mut out, pairs[i].1.as_str());
        proof {
            let p = dv[i as int];
            assert(p == (pairs@[i as int].0@, pairs@[i as int].1@));
            assert(dv.take(i + 1) =~= dv.take(i as int).push(p));
            if i == 0 {
                assert(dv.take(0int) =~= Seq::<(Seq<char>, Seq<char>)>::empty());
                assert(dv.take(1int) =~= seq![p]);
                assert(pairs_json(seq![p]) == pair_json(p.0, p.1));
                assert(out@ =~= seq!['{'] + pairs_json(dv.take(i + 1)));
            } else {
                lemma_pairs_json_snoc(dv.take(i as int), p);
                assert(out@ =~= seq!['{'] + pairs_json(dv.take(i + 1)));
            }
        }
        i = i + 1;
    }
    push_char(&mut out, '}');
    proof {
        assert(dv.take(dv.len() as int) =~= dv);
        assert(out@ =~= record_json(dv));
    }
    out
}

fn str_chars(s: &str) -> (r: Vec<char>)
    ensures
        r@ == s@,
{
    let n = s.unicode_len();
    let mut v: Vec<char> = Vec::new();
    let mut i: usize = 0;
    while i < n
        invariant
            i <= n,
            n == s@.len(),
            v@ == s@.take(i as int),
        decreases n - i,
    {
        let c = s.get_char(i);
        v.push(c);
        proof {
            assert(s@.take(i + 1) =~= s@.take(i as int).push(s@[i as int]));
        }
        i = i + 1;
    }
    proof {
        assert(s@.take(n as int) =~= s@);
    }
    v
}

/// Read a string literal out of `v` from just after its opening quote at
/// `start`: the decoded content and the position after the closing quote.
fn scan_string_at(v: &Vec<char>, start: usize) -> (r: Option<(String, usize)>)
    requires
        start <= v@.len(),
    ensures
        (match r {
            Option::None => scan_string(v@.subrange(start as int, v@.len() as int)) is None,
            Option::Some(p) => start < p.1 <= v@.len() && scan_string(
                v@.subrange(start as int, v@.len() as int),
            ) == Some((p.0@, v@.subrange(p.1 as int, v@.len() as int))),
        }),
{
    let ghost s0 = v@.subrange(start as int, v@.len() as int);
    let mut acc = String::new();
    let mut j = start;
    loop
        invariant
            start <= j <= v@.len(),
            s0 == v@.subrange(start as int, v@.len() as int),
            (match scan_string(v@.subrange(j as int, v@.len() as int)) {
                Option::None => scan_string(s0) is None,
                Option::Some(q) => scan_string(s0) == Some((acc@ + q.0, q.1)),
            }),
        decreases v@.len() - j,
    {
        let ghost sj = v@.subrange(j as int, v@.len() as int);
        if j == v.len() {
            return None;
        }
        let c = v[j];
        assert(sj[0] == c);
        if c == '"' {
            proof {
                assert(sj.drop_first() =~= v@.subrange(j + 1, v@.len() as int));
                assert(acc@ + Seq::<char>::empty() =~= acc@);
            }
            return Some((acc, j + 1));
        }
        if c == '\\' {
            if v.len() - j > 1 && (v[j + 1] == '"' || v[j + 1] == '\\') {
                let e = v[j + 1];
                proof {
                    assert(sj.len() >= 2 && sj[1] == e);
                    assert(sj.subrange(2, sj.len() as int) =~= v@.subrange(
                        j + 2,
                        v@.len() as int,
                    ));
                    let sj2 = v@.subrange(j + 2, v@.len() as int);
                    match scan_string(sj2) {
                        Option::None => {},
                        Option::Some(q) => {
                            assert(acc@ + (seq![e] + q.0) =~= acc@.push(e) + q.0);
                        },
                    }
                }
                push_char(&mut acc, e);
                j = j + 2;
            } else if v.len() - j > 5 && v[j + 1] == 'u' && v[j + 2] == '0' && v[j + 3] == '0'
                && is_hex(v[j + 4]) && is_hex(v[j + 5]) {
                let b: u8 = hex_val(v[j + 4]) * 16 + hex_val(v[j + 5]);
                let c2 = b as char;
                proof {
                    assert(sj.len() >= 6);
                    assert(sj[1] == 'u' && sj[2] == '0' && sj[3] == '0');
                    assert(sj[4] == v@[j + 4] && sj[5] == v@[j + 5]);
                    assert(sj.subrange(6, sj.len() as int) =~= v@.subrange(
                        j + 6,
                        v@.len() as int,
                    ));
                    let sj6 = v@.subrange(j + 6, v@.len() as int);
                    match scan_string(sj6) {
                        Option::None => {},
                        Option::Some(q) => {
                            assert(acc@ + (seq![c2] + q.0) =~= acc@.push(c2) + q.0);
                        },
                    }
                }
                push_char(&mut acc, c2);
                j = j + 6;
            } else {
                proof {
                    assert(j + 1 < v@.len() ==> sj.len() >= 2 && sj[1] == v@[j + 1]);
                    assert(scan_string(sj) is None);
                }
                return None;
            }
        } else {
            proof {
                assert(sj.drop_first() =~= v@.subrange(j + 1, v@.len() as int));
                let sj1 = v@.subrange(j + 1, v@.len() as int);
                match scan_string(sj1) {
                    Option::None => {},
                    Option::Some(q) => {
                        assert(acc@ + (seq![c] + q.0) =~= acc@.push(c) + q.0);
                    },
                }
            }
            push_char(&mut acc, c);
            j = j + 1;
        }
    }
}

/// Whether two pieces of text are the same sequence of characters.
pub fn str_eq(a: &str, b: &str) -> (r: bool)
    ensures
        r == (a@ == b@),
{
    let na = a.unicode_len();
    let nb = b.unicode_len();
    if na != nb {
        return false;
    }
    let mut i: usize = 0;
    while i < na
        invariant
            i <= na,
            na == a@.len(),
            na == b@.len(),
            forall|t: int| 0 <= t < i ==> a@[t] == b@[t],
        decreases na - i,
    {
        if a.get_char(i) != b.get_char(i) {
            return false;
        }
        i = i + 1;
    }
    proof {
        assert(a@ =~= b@);
    }
    true
}

/// Read a piece of text as one record written by this codec: its members in
/// order, or nothing when the text is not in that shape.
pub fn parse_record(s: &str) -> (r: Option<Vec<(String, String)>>)
    ensures
        (match r {
            Option::Some(ps) => record_of(s@) == Some(ps.deep_view()),
            Option::None => record_of(s@) is None,
        }),
{
    let v = str_chars(s);
    let n = v.len();
    if n < 2 {
        return None;
    }
    if v[0] != '{' {
        return None;
    }
    if v[1] == '}' {
        if n == 2 {
            let empty: Vec<(String, String)> = Vec::new();
            proof {
                assert(empty.deep_view() =~= Seq::<(Seq<char>, Seq<char>)>::empty());
            }
            return Some(empty);
        } else {
            return None;
        }
    }
    let mut acc: Vec<(String, String)> = Vec::new();
    let mut j: usize = 1;
    proof {
        assert(v@.subrange(1, v@.len() as int) == v@.subrange(j as int, v@.len() as int));
        assert(acc.deep_view() =~= Seq::<(Seq<char>, Seq<char>)>::empty());
    }
    loop
        invariant
            1 <= j <= v@.len(),
            v@ == s@,
            v@.len() == n,
            2 <= n,
            v@[0] == '{',
            v@[1] != '}',
            (match scan_pairs(v@.subrange(j as int, v@.len() as int)) {
                Option::None => record_of(s@) is None,
                Option::Some(pp) => if pp.1.len() == 0 {
                    record_of(s@) == Some(acc.deep_view() + pp.0)
                } else {
                    record_of(s@) is None
                },
            }),
        decreases v@.len() - j,
    {
        let ghost sj = v@.subrange(j as int, v@.len() as int);
        if j == v.len() || v[j] != '"' {
            proof {
                assert(scan_pairs(sj) is None);
            }
            return None;
        }
        assert(sj[0] == '"');
        proof {
            assert(sj.drop_first() =~= v@.subrange(j + 1, v@.len() as int));
        }
        let kres = scan_string_at(&v, j + 1);
        if kres.is_none() {
            return None;
        }
        let (k, j2) = kres.unwrap();
        let ghost rest1 = v@.subrange(j2 as int, v@.len() as int);
        if !(v.len() - j2 > 1 && v[j2] == ':' && v[j2 + 1] == '"') {
            proof {
                assert(j2 < v@.len() ==> rest1[0] == v@[j2 as int]);
                assert(j2 + 1 < v@.len() ==> rest1[1] == v@[j2 + 1]);
                assert(scan_pairs(sj) is None);
            }
            return None;
        }
        assert(rest1.len() >= 2 && rest1[0] == ':' && rest1[1] == '"');
        proof {
            assert(rest1.subrange(2, rest1.len() as int) =~= v@.subrange(j2 + 2, v@.len() as int));
        }
        let vres = scan_string_at(&v, j2 + 2);
        if vres.is_none() {
            return None;
        }
        let (val, j3) = vres.unwrap();
        let ghost rest2 = v@.subrange(j3 as int, v@.len() as int);
        let ghost accdv = acc.deep_view();
        if j3 < v.len() && v[j3] == ',' {
            proof {
                assert(rest2[0] == ',');
                assert(rest2.drop_first() =~= v@.subrange(j3 + 1, v@.len() as int));
            }
            acc.push((k, val));
            proof {
                assert(acc.deep_view() =~= accdv.push((k@, val@)));
                let sjn = v@.subrange(j3 + 1, v@.len() as int);
                match scan_pairs(sjn) {
                    Option::None => {},
                    Option::Some(pp) => {
                        assert(accdv + (seq![(k@, val@)] + pp.0) =~= accdv.push((k@, val@))
                            + pp.0);
                    },
                }
            }
            j = j3 + 1;
        } else if j3 < v.len() && v[j3] == '}' {
            proof {
                assert(rest2[0] == '}');
                assert(rest2.drop_first() =~= v@.subrange(j3 + 1, v@.len() as int));
            }
            if v.len() - j3 == 1 {
                acc.push((k, val));
                proof {
                    assert(v@.subrange(j3 + 1, v@.len() as int).len() == 0);
                    assert(acc.deep_view() =~= accdv.push((k@, val@)));
                    assert(accdv + seq![(k@, val@)] =~= accdv.push((k@, val@)));
                }
                return Some(acc);
            } else {
                proof {
                    assert(v@.subrange(j3 + 1, v@.len() as int).len() > 0);
                }
                return None;
            }
        } else {
            proof {
                assert(j3 < v@.len() ==> rest2[0] == v@[j3 as int]);
                assert(scan_pairs(sj) is None);
            }
            return None;
        }
    }
}

} // verus!
