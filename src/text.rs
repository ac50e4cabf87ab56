//! Texts in their natural order (the order of `str`: by character code, a
//! proper prefix first), and sorted sets of texts kept in a `Vec`.
use vstd::prelude::*;

verus! {

/// `a` comes strictly before `b`.
pub open spec fn text_lt(a: Seq<char>, b: Seq<char>) -> bool
    decreases a.len(),
{
    if a.len() == 0 {
        b.len() > 0
    } else if b.len() == 0 {
        false
    } else if a[0] != b[0] {
        a[0] < b[0]
    } else {
        text_lt(a.drop_first(), b.drop_first())
    }
}

/// Every text comes strictly before every later one.
pub open spec fn strictly_sorted(s: Seq<Seq<char>>) -> bool {
    forall|i: int, j: int| 0 <= i < j < s.len() ==> text_lt(#[trigger] s[i], #[trigger] s[j])
}

/// The texts that a vector of strings holds.
pub open spec fn texts(v: Seq<String>) -> Seq<Seq<char>> {
    v.map_values(|s: String| s@)
}

pub proof fn lemma_lt_irreflexive(a: Seq<char>)
    ensures
        !text_lt(a, a),
    decreases a.len(),
{
    if a.len() > 0 {
        lemma_lt_irreflexive(a.drop_first());
    }
}

pub proof fn lemma_lt_transitive(a: Seq<char>, b: Seq<char>, c: Seq<char>)
    requires
        text_lt(a, b),
        text_lt(b, c),
    ensures
        text_lt(a, c),
    decreases a.len(),
{
    if a.len() > 0 && b.len() > 0 && c.len() > 0 {
        if a[0] == b[0] && b[0] == c[0] {
            lemma_lt_transitive(a.drop_first(), b.drop_first(), c.drop_first());
        }
    }
}

pub proof fn lemma_lt_total(a: Seq<char>, b: Seq<char>)
    requires
        a != b,
    ensures
        text_lt(a, b) || text_lt(b, a),
    decreases a.len(),
{
    if a.len() > 0 && b.len() > 0 && a[0] == b[0] {
        if a.drop_first() == b.drop_first() {
            assert(a =~= seq![a[0]] + a.drop_first());
            assert(b =~= seq![b[0]] + b.drop_first());
        }
        lemma_lt_total(a.drop_first(), b.drop_first());
    } else if a.len() > 0 && b.len() > 0 {
    } else if a.len() == 0 && b.len() == 0 {
        assert(a =~= b);
    }
}

/// Whether `a[k..]` comes strictly before `b[k..]`.
fn text_less_from(a: &str, b: &str, k: usize) -> (r: bool)
    requires
        k <= a@.len(),
        k <= b@.len(),
    ensures
        r == text_lt(a@.subrange(k as int, a@.len() as int), b@.subrange(k as int, b@.len() as int)),
    decreases a@.len() - k,
{
    let ghost sa = a@.subrange(k as int, a@.len() as int);
    let ghost sb = b@.subrange(k as int, b@.len() as int);
    let na = a.unicode_len();
    let nb = b.unicode_len();
    if k == na {
        k < nb
    } else if k == nb {
        false
    } else {
        let ca = a.get_char(k);
        let cb = b.get_char(k);
        assert(sa[0] == ca && sb[0] == cb);
        if ca != cb {
            ca < cb
        } else {
            assert(sa.drop_first() =~= a@.subrange(k + 1, a@.len() as int));
            assert(sb.drop_first() =~= b@.subrange(k + 1, b@.len() as int));
            text_less_from(a, b, k + 1)
        }
    }
}

/// Whether `a` comes strictly before `b`.
pub fn text_less(a: &str, b: &str) -> (r: bool)
    ensures
        r == text_lt(a@, b@),
{
    assert(a@.subrange(0, a@.len() as int) =~= a@);
    assert(b@.subrange(0, b@.len() as int) =~= b@);
    text_less_from(a, b, 0)
}

/// Adds `s` to a strictly sorted vector of texts, keeping it strictly sorted;
/// a text that is already there is not added twice.
pub fn insert_sorted(v: &mut Vec<String>, s: &str)
    requires
        strictly_sorted(texts(old(v)@)),
    ensures
        strictly_sorted(texts(final(v)@)),
        texts(final(v)@).to_set() == texts(old(v)@).to_set().insert(s@),
{
    let mut i: usize = 0;
    while i < v.len() && text_less(v[i].as_str(), s)
        invariant
            i <= v@.len(),
            *v == *old(v),
            forall|k: int| 0 <= k < i ==> text_lt(#[trigger] texts(v@)[k], s@),
        decreases v@.len() - i,
    {
        i = i + 1;
    }
    let ghost before = texts(v@);
    if i < v.len() && !text_less(s, v[i].as_str()) {
        proof {
            let w = before[i as int];
            assert(w == v@[i as int]@);
            if w != s@ {
                lemma_lt_total(w, s@);
            }
            assert(w == s@);
            assert(before.to_set() =~= before.to_set().insert(s@));
        }
        return;
    }
    proof {
        if i < v@.len() {
            let w = before[i as int];
            assert(w == v@[i as int]@);
            assert(!text_lt(w, s@));
            assert(text_lt(s@, w));
        }
    }
    v.insert(i, String::from_str(s));
    proof {
        let after = texts(v@);
        assert forall|k: int| 0 <= k < after.len() implies after[k] == (if k < i {
            before[k]
        } else if k == i {
            s@
        } else {
            before[k - 1]
        }) by {}
        assert forall|p: int, q: int| 0 <= p < q < after.len() implies text_lt(
            #[trigger] after[p],
            #[trigger] after[q],
        ) by {
            if q < i {
                assert(text_lt(before[p], before[q]));
            } else if q == i {
                assert(text_lt(before[p], s@));
            } else if p < i {
                assert(text_lt(before[p], s@));
                assert(text_lt(s@, before[i as int]));
                if q - 1 > i {
                    assert(text_lt(before[i as int], before[q - 1]));
                    lemma_lt_transitive(s@, before[i as int], before[q - 1]);
                }
                lemma_lt_transitive(before[p], s@, before[q - 1]);
            } else if p == i {
                if q - 1 > i {
                    assert(text_lt(before[i as int], before[q - 1]));
                    lemma_lt_transitive(s@, before[i as int], before[q - 1]);
                }
            } else {
                assert(text_lt(before[p - 1], before[q - 1]));
            }
        }
        assert forall|t: Seq<char>| after.to_set().contains(t) <==> before.to_set().insert(
            s@,
        ).contains(t) by {
            if after.to_set().contains(t) {
                let k = choose|k: int| 0 <= k < after.len() && after[k] == t;
                if k > i {
                    assert(before[k - 1] == t);
                }
            }
            if before.to_set().contains(t) && t != s@ {
                let k = choose|k: int| 0 <= k < before.len() && before[k] == t;
                if k < i {
                    assert(after[k] == t);
                } else {
                    assert(after[k + 1] == t);
                }
            }
            if t == s@ {
                assert(after[i as int] == t);
            }
        }
        assert(after.to_set() =~= before.to_set().insert(s@));
    }
}

} // verus!
