//! The lexicographic order of texts, and sorting without duplicates.

use vstd::prelude::*;
use crate::text::texts;

verus! {

/// `a` comes before `b` in the lexicographic order of their characters'
/// code points: the order in which strings compare.
pub open spec fn lex_lt(a: Seq<char>, b: Seq<char>) -> bool
    decreases a.len(),
{
    if b.len() == 0 {
        false
    } else if a.len() == 0 {
        true
    } else if a[0] != b[0] {
        (a[0] as u32) < (b[0] as u32)
    } else {
        lex_lt(a.skip(1), b.skip(1))
    }
}

/// No text comes before itself.
pub proof fn lemma_lex_irreflexive(a: Seq<char>)
    ensures
        !lex_lt(a, a),
    decreases a.len(),
{
    if a.len() > 0 {
        lemma_lex_irreflexive(a.skip(1));
    }
}

/// The order is transitive.
pub proof fn lemma_lex_transitive(a: Seq<char>, b: Seq<char>, c: Seq<char>)
    requires
        lex_lt(a, b),
        lex_lt(b, c),
    ensures
        lex_lt(a, c),
    decreases a.len(),
{
    if a.len() > 0 && b.len() > 0 && c.len() > 0 {
        if a[0] == b[0] && b[0] == c[0] {
            lemma_lex_transitive(a.skip(1), b.skip(1), c.skip(1));
        }
    }
}

/// Of two different texts one comes before the other.
pub proof fn lemma_lex_total(a: Seq<char>, b: Seq<char>)
    requires
        !lex_lt(a, b),
        !lex_lt(b, a),
    ensures
        a == b,
    decreases a.len(),
{
    if a.len() == 0 || b.len() == 0 {
        assert(a =~= b);
    } else {
        assert(a[0] == b[0]) by {
            let u = a[0] as u32;
            let v = b[0] as u32;
            vstd::utf8::char_u32_cast(a[0], u);
            vstd::utf8::char_u32_cast(b[0], v);
        }
        lemma_lex_total(a.skip(1), b.skip(1));
        assert(a =~= seq![a[0]] + a.skip(1));
        assert(b =~= seq![b[0]] + b.skip(1));
    }
}

/// Dropping a common prefix does not change the order.
pub proof fn lemma_lex_skip(a: Seq<char>, b: Seq<char>, i: int)
    requires
        0 <= i <= a.len(),
        i <= b.len(),
        a.take(i) == b.take(i),
    ensures
        lex_lt(a, b) == lex_lt(a.skip(i), b.skip(i)),
    decreases i,
{
    if i == 0 {
        assert(a.skip(0) =~= a);
        assert(b.skip(0) =~= b);
    } else {
        assert(a[0] == a.take(i)[0]);
        assert(b[0] == b.take(i)[0]);
        let x = a.skip(1);
        let y = b.skip(1);
        assert(x.take(i - 1) =~= a.take(i).skip(1));
        assert(y.take(i - 1) =~= b.take(i).skip(1));
        lemma_lex_skip(x, y, i - 1);
        assert(x.skip(i - 1) =~= a.skip(i));
        assert(y.skip(i - 1) =~= b.skip(i));
    }
}

/// Whether `a` comes before `b`.
pub fn less(a: &Vec<char>, b: &Vec<char>) -> (r: bool)
    ensures
        r == lex_lt(a@, b@),
{
    let mut i: usize = 0;
    assert(a@.take(0) =~= b@.take(0));
    while i < a.len() && i < b.len()
        invariant
            i <= a.len(),
            i <= b.len(),
            a@.take(i as int) == b@.take(i as int),
        decreases a.len() - i,
    {
        proof {
            lemma_lex_skip(a@, b@, i as int);
        }
        if a[i] != b[i] {
            return (a[i] as u32) < (b[i] as u32);
        }
        assert(a@.take(i + 1) =~= a@.take(i as int).push(a@[i as int]));
        assert(b@.take(i + 1) =~= b@.take(i as int).push(b@[i as int]));
        i += 1;
    }
    proof {
        lemma_lex_skip(a@, b@, i as int);
    }
    a.len() < b.len()
}

/// Each text comes before every later one.
pub open spec fn ascending(s: Seq<Seq<char>>) -> bool {
    forall|i: int, j: int| 0 <= i < j < s.len() ==> lex_lt(#[trigger] s[i], #[trigger] s[j])
}

/// `out` holds the texts of `input`, each once, in ascending order.
pub open spec fn sorted_set_of(out: Seq<Seq<char>>, input: Seq<Seq<char>>) -> bool {
    &&& ascending(out)
    &&& forall|x: Seq<char>| out.contains(x) <==> input.contains(x)
}

/// Two ascending sequences with the same members are the same sequence.
pub proof fn lemma_sorted_set_unique(a: Seq<Seq<char>>, b: Seq<Seq<char>>)
    requires
        ascending(a),
        ascending(b),
        forall|x: Seq<char>| a.contains(x) <==> b.contains(x),
    ensures
        a == b,
    decreases a.len(),
{
    if a.len() == 0 {
        if b.len() > 0 {
            assert(b.contains(b[0]));
        }
        assert(a =~= b);
    } else if b.len() == 0 {
        assert(a.contains(a[0]));
    } else {
        let x = a.last();
        let y = b.last();
        assert(a.contains(x));
        assert(b.contains(y));
        let i = choose|i: int| 0 <= i < b.len() && b[i] == x;
        let j = choose|j: int| 0 <= j < a.len() && a[j] == y;
        if lex_lt(x, y) {
            if j < a.len() - 1 {
                lemma_lex_transitive(x, y, x);
            }
            lemma_lex_irreflexive(x);
        } else if lex_lt(y, x) {
            if i < b.len() - 1 {
                lemma_lex_transitive(y, x, y);
            }
            lemma_lex_irreflexive(y);
        }
        lemma_lex_total(x, y);
        let a0 = a.drop_last();
        let b0 = b.drop_last();
        assert forall|z: Seq<char>| a0.contains(z) <==> b0.contains(z) by {
            if a0.contains(z) {
                let k = choose|k: int| 0 <= k < a0.len() && a0[k] == z;
                assert(a[k] == z);
                assert(lex_lt(z, x));
                assert(a.contains(z));
                let m = choose|m: int| 0 <= m < b.len() && b[m] == z;
                if m == b.len() - 1 {
                    lemma_lex_irreflexive(x);
                }
                assert(b0[m] == z);
            }
            if b0.contains(z) {
                let k = choose|k: int| 0 <= k < b0.len() && b0[k] == z;
                assert(b[k] == z);
                assert(lex_lt(z, y));
                assert(b.contains(z));
                let m = choose|m: int| 0 <= m < a.len() && a[m] == z;
                if m == a.len() - 1 {
                    lemma_lex_irreflexive(x);
                }
                assert(a0[m] == z);
            }
        }
        assert(ascending(a0)) by {
            assert forall|p: int, q: int| 0 <= p < q < a0.len() implies lex_lt(
                #[trigger] a0[p],
                #[trigger] a0[q],
            ) by {
                assert(a0[p] == a[p] && a0[q] == a[q]);
            }
        }
        assert(ascending(b0)) by {
            assert forall|p: int, q: int| 0 <= p < q < b0.len() implies lex_lt(
                #[trigger] b0[p],
                #[trigger] b0[q],
            ) by {
                assert(b0[p] == b[p] && b0[q] == b[q]);
            }
        }
        lemma_sorted_set_unique(a0, b0);
        assert(a =~= a0.push(x));
        assert(b =~= b0.push(y));
    }
}

/// The texts of `items`, each once, in ascending order.
pub fn sort_dedup(items: &Vec<Vec<char>>) -> (r: Vec<Vec<char>>)
    ensures
        sorted_set_of(texts(r@), texts(items@)),
{
    let mut out: Vec<Vec<char>> = Vec::new();
    let mut i: usize = 0;
    let ghost input = texts(items@);
    while i < items.len()
        invariant
            i <= items.len(),
            input == texts(items@),
            ascending(texts(out@)),
            forall|x: Seq<char>| texts(out@).contains(x) <==> input.take(i as int).contains(x),
        decreases items.len() - i,
    {
        let item = &items[i];
        let ghost cur = input.take(i as int);
        let ghost next = input.take(i + 1);
        let ghost x = item@;
        let ghost before = texts(out@);
        let mut p: usize = 0;
        while p < out.len() && less(&out[p], item)
            invariant
                p <= out.len(),
                x == item@,
                before == texts(out@),
                forall|k: int| 0 <= k < p ==> lex_lt(#[trigger] before[k], x),
            decreases out.len() - p,
        {
            assert(before[p as int] == out@[p as int]@);
            p += 1;
        }
        let same = p < out.len() && !less(item, &out[p]);
        proof {
            assert(next =~= cur.push(x));
            if p < out.len() {
                assert(before[p as int] == out@[p as int]@);
            }
            if same {
                lemma_lex_total(x, before[p as int]);
                assert(before.contains(x));
                assert forall|y: Seq<char>| before.contains(y) <==> next.contains(
                    y,
                ) by {
                    if next.contains(y) {
                        let k = choose|k: int|
                            0 <= k < next.len() && next[k] == y;
                        if k < i {
                            assert(cur[k] == y);
                        }
                    }
                    if before.contains(y) {
                        let k = choose|k: int|
                            0 <= k < cur.len() && cur[k] == y;
                        assert(next[k] == y);
                    }
                }
            }
        }
        if !same {
            out.insert(p, slice_all(item));
            proof {
                let after = texts(out@);
                assert(after =~= before.insert(p as int, x));
                assert forall|a: int, b: int| 0 <= a < b < after.len() implies lex_lt(
                    #[trigger] after[a],
                    #[trigger] after[b],
                ) by {
                    if b < p {
                        assert(after[a] == before[a] && after[b] == before[b]);
                    } else if b == p {
                        assert(after[a] == before[a]);
                    } else if a < p {
                        assert(after[a] == before[a] && after[b] == before[b - 1]);
                    } else if a == p {
                        assert(after[b] == before[b - 1]);
                        assert(lex_lt(x, before[p as int]));
                        if b - 1 > p {
                            lemma_lex_transitive(x, before[p as int], before[b - 1]);
                        }
                    } else {
                        assert(after[a] == before[a - 1] && after[b] == before[b - 1]);
                    }
                }
                assert forall|y: Seq<char>| after.contains(y) <==> next.contains(
                    y,
                ) by {
                    if after.contains(y) {
                        let k = choose|k: int| 0 <= k < after.len() && after[k] == y;
                        if k < p {
                            assert(before[k] == y);
                        } else if k > p {
                            assert(before[k - 1] == y);
                        }
                        if k != p {
                            assert(before.contains(y));
                            let m = choose|m: int|
                                0 <= m < cur.len() && cur[m]
                                    == y;
                            assert(next[m] == y);
                        } else {
                            assert(next[i as int] == y);
                        }
                    }
                    if next.contains(y) {
                        let k = choose|k: int|
                            0 <= k < next.len() && next[k] == y;
                        if k < i {
                            assert(cur[k] == y);
                            assert(before.contains(y));
                            let m = choose|m: int| 0 <= m < before.len() && before[m] == y;
                            if m < p {
                                assert(after[m] == y);
                            } else {
                                assert(after[m + 1] == y);
                            }
                        } else {
                            assert(after[p as int] == y);
                        }
                    }
                }
            }
        }
        i += 1;
    }
    assert(input.take(items.len() as int) =~= input);
    out
}

/// A copy of `s`.
pub fn slice_all(s: &Vec<char>) -> (r: Vec<char>)
    ensures
        r@ == s@,
{
    let r = crate::text::slice(s, 0, s.len());
    assert(s@.subrange(0, s.len() as int) =~= s@);
    r
}

} // verus!
