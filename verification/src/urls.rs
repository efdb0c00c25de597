//! Query-string construction.
//!
//! A query is built from named filter values: a filter whose value is the
//! empty string is left out entirely (empty means "not set", not "match
//! empty"), the others appear in their given order as `name=value` pairs
//! joined with `&`, both sides percent-encoded.

use vstd::prelude::*;
use vstd::string::StringExecFns;
use vstd::utf8::encode_utf8;
use crate::percent::{encode_path, percent_encoded, push_char};

verus! {

/// The percent-encoding of a piece of text, by way of its UTF-8 bytes.
pub open spec fn path_encoded(s: Seq<char>) -> Seq<char> {
    percent_encoded(encode_utf8(s))
}

/// The filters that remain once every empty value is dropped, in order.
pub open spec fn retained(qs: Seq<(Seq<char>, Seq<char>)>) -> Seq<(Seq<char>, Seq<char>)>
    decreases qs.len(),
{
    if qs.len() == 0 {
        Seq::empty()
    } else if qs[0].1.len() == 0 {
        retained(qs.drop_first())
    } else {
        seq![qs[0]] + retained(qs.drop_first())
    }
}

/// How many pairs carry the given name.
pub open spec fn key_count(qs: Seq<(Seq<char>, Seq<char>)>, k: Seq<char>) -> int
    decreases qs.len(),
{
    if qs.len() == 0 {
        0
    } else {
        (if qs[0].0 == k {
            1int
        } else {
            0int
        }) + key_count(qs.drop_first(), k)
    }
}

/// Dropping empty values, one filter appended at the end.
pub proof fn lemma_retained_snoc(qs: Seq<(Seq<char>, Seq<char>)>, p: (Seq<char>, Seq<char>))
    ensures
        retained(qs.push(p)) == retained(qs) + (if p.1.len() == 0 {
            Seq::<(Seq<char>, Seq<char>)>::empty()
        } else {
            seq![p]
        }),
    decreases qs.len(),
{
    if qs.len() == 0 {
        reveal_with_fuel(retained, 2);
        assert(qs.push(p).drop_first() =~= Seq::<(Seq<char>, Seq<char>)>::empty());
        assert(retained(qs.push(p)) =~= retained(qs) + (if p.1.len() == 0 {
            Seq::<(Seq<char>, Seq<char>)>::empty()
        } else {
            seq![p]
        }));
    } else {
        assert(qs.push(p).drop_first() =~= qs.drop_first().push(p));
        lemma_retained_snoc(qs.drop_first(), p);
        assert(retained(qs.push(p)) =~= retained(qs) + (if p.1.len() == 0 {
            Seq::<(Seq<char>, Seq<char>)>::empty()
        } else {
            seq![p]
        }));
    }
}

/// Every retained filter has a non-empty value.
pub proof fn lemma_retained_nonempty(qs: Seq<(Seq<char>, Seq<char>)>)
    ensures
        forall|i: int|
            0 <= i < retained(qs).len() ==> (#[trigger] retained(qs)[i]).1.len() > 0,
    decreases qs.len(),
{
    if qs.len() == 0 {
    } else {
        lemma_retained_nonempty(qs.drop_first());
        let r = retained(qs);
        assert forall|i: int| 0 <= i < r.len() implies (#[trigger] r[i]).1.len() > 0 by {
            if qs[0].1.len() == 0 {
                assert(r[i] == retained(qs.drop_first())[i]);
            } else {
                if i == 0 {
                    assert(r[i] == qs[0]);
                } else {
                    assert(r[i] == retained(qs.drop_first())[i - 1]);
                }
            }
        }
    }
}

/// A name that no filter carries does not appear among the retained pairs.
pub proof fn lemma_retained_no_key(qs: Seq<(Seq<char>, Seq<char>)>, k: Seq<char>)
    requires
        forall|j: int| 0 <= j < qs.len() ==> (#[trigger] qs[j]).0 != k,
    ensures
        key_count(retained(qs), k) == 0,
        forall|i: int| 0 <= i < retained(qs).len() ==> (#[trigger] retained(qs)[i]).0 != k,
    decreases qs.len(),
{
    if qs.len() == 0 {
    } else {
        assert(forall|j: int|
            0 <= j < qs.drop_first().len() ==> (#[trigger] qs.drop_first()[j]).0 != k);
        lemma_retained_no_key(qs.drop_first(), k);
        if qs[0].1.len() != 0 {
            let r = retained(qs);
            assert(r[0] == qs[0]);
            assert(r.drop_first() =~= retained(qs.drop_first()));
        }
    }
}

/// For a name carried by exactly one filter: an empty value omits the pair
/// entirely, a non-empty value keeps exactly one pair, carrying that value.
pub proof fn lemma_retained_key(qs: Seq<(Seq<char>, Seq<char>)>, t: int, k: Seq<char>)
    requires
        0 <= t < qs.len(),
        qs[t].0 == k,
        forall|j: int| 0 <= j < qs.len() && j != t ==> (#[trigger] qs[j]).0 != k,
    ensures
        qs[t].1.len() == 0 ==> key_count(retained(qs), k) == 0,
        qs[t].1.len() > 0 ==> key_count(retained(qs), k) == 1,
        forall|i: int|
            0 <= i < retained(qs).len() && (#[trigger] retained(qs)[i]).0 == k ==> retained(
                qs,
            )[i] == qs[t],
    decreases qs.len(),
{
    let rest = qs.drop_first();
    let r = retained(qs);
    if t == 0 {
        assert(forall|j: int| 0 <= j < rest.len() ==> (#[trigger] rest[j]).0 != k);
        lemma_retained_no_key(rest, k);
        if qs[0].1.len() == 0 {
            assert(r == retained(rest));
        } else {
            assert(r[0] == qs[0]);
            assert(r.drop_first() =~= retained(rest));
            assert(key_count(r, k) == 1 + key_count(retained(rest), k));
            assert(forall|i: int|
                1 <= i < r.len() ==> (#[trigger] r[i]) == retained(rest)[i - 1]);
        }
    } else {
        assert(rest[t - 1] == qs[t]);
        assert(forall|j: int| 0 <= j < rest.len() && j != t - 1 ==> (#[trigger] rest[j]).0 != k);
        lemma_retained_key(rest, t - 1, k);
        if qs[0].1.len() == 0 {
            assert(r == retained(rest));
        } else {
            assert(r[0] == qs[0]);
            assert(qs[0].0 != k);
            assert(r.drop_first() =~= retained(rest));
            assert(key_count(r, k) == key_count(retained(rest), k));
            assert(forall|i: int|
                1 <= i < r.len() ==> (#[trigger] r[i]) == retained(rest)[i - 1]);
        }
    }
}

/// The query string for a list of name-value pairs: `name=value`, both
/// percent-encoded, joined with `&`, in the given order.
pub open spec fn query_encoded(ps: Seq<(Seq<char>, Seq<char>)>) -> Seq<char>
    decreases ps.len(),
{
    if ps.len() == 0 {
        Seq::empty()
    } else if ps.len() == 1 {
        path_encoded(ps[0].0) + seq!['='] + path_encoded(ps[0].1)
    } else {
        path_encoded(ps[0].0) + seq!['='] + path_encoded(ps[0].1) + seq!['&'] + query_encoded(
            ps.drop_first(),
        )
    }
}

/// The query string for the pairs with one more pair at the end.
pub proof fn lemma_query_encoded_snoc(ps: Seq<(Seq<char>, Seq<char>)>, p: (Seq<char>, Seq<char>))
    requires
        ps.len() >= 1,
    ensures
        query_encoded(ps.push(p)) == query_encoded(ps) + seq!['&'] + path_encoded(p.0)
            + seq!['='] + path_encoded(p.1),
    decreases ps.len(),
{
    if ps.len() == 1 {
        assert(ps.push(p).drop_first() =~= seq![p]);
        assert(query_encoded(seq![p]) == path_encoded(p.0) + seq!['='] + path_encoded(p.1));
        assert(query_encoded(ps.push(p)) =~= query_encoded(ps) + seq!['&'] + path_encoded(p.0)
            + seq!['='] + path_encoded(p.1));
    } else {
        lemma_query_encoded_snoc(ps.drop_first(), p);
        assert(ps.push(p).drop_first() =~= ps.drop_first().push(p));
        assert(query_encoded(ps.push(p)) =~= query_encoded(ps) + seq!['&'] + path_encoded(p.0)
            + seq!['='] + path_encoded(p.1));
    }
}

/// Write the query string for the given name-value pairs.
pub fn encode_query(pairs: &Vec<(String, String)>) -> (r: String)
    ensures
        r@ == query_encoded(pairs.deep_view()),
{
    let ghost dv = pairs.deep_view();
    let mut out = String::new();
    let mut i: usize = 0;
    while i < pairs.len()
        invariant
            i <= pairs@.len(),
            dv == pairs.deep_view(),
            dv.len() == pairs@.len(),
            out@ == query_encoded(dv.take(i as int)),
        decreases pairs@.len() - i,
    {
        if i > 0 {
            push_char(&mut out, '&');
        }
        let ek = encode_path(pairs[i].0.as_str());
        out.append(ek.as_str());
        push_char(&mut out, '=');
        let ev = encode_path(pairs[i].1.as_str());
        out.append(ev.as_str());
        proof {
            let p = dv[i as int];
            assert(p == (pairs@[i as int].0@, pairs@[i as int].1@));
            assert(dv.take(i + 1) =~= dv.take(i as int).push(p));
            if i == 0 {
                assert(dv.take(1int) =~= seq![p]);
                assert(out@ =~= query_encoded(dv.take(i + 1)));
            } else {
                lemma_query_encoded_snoc(dv.take(i as int), p);
                assert(out@ =~= query_encoded(dv.take(i + 1)));
            }
        }
        i = i + 1;
    }
    proof {
        assert(dv.take(dv.len() as int) =~= dv);
    }
    out
}

} // verus!
