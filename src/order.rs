//! The order of texts (character by character, by code point, a prefix
//! first; the order `String` has) and sorted sequences of distinct texts.

use vstd::prelude::*;
use vstd::string::*;
use crate::text::texts;

verus! {

/// `a` comes before `b`.
pub open spec fn text_lt(a: Seq<char>, b: Seq<char>) -> bool
    decreases a.len(),
{
    if a.len() == 0 {
        b.len() > 0
    } else if b.len() == 0 {
        false
    } else if a[0] < b[0] {
        true
    } else if a[0] > b[0] {
        false
    } else {
        text_lt(a.drop_first(), b.drop_first())
    }
}

/// Each text comes strictly before every later one.
pub open spec fn strictly_sorted(s: Seq<Seq<char>>) -> bool {
    forall|i: int, j: int| 0 <= i < j < s.len() ==> text_lt(#[trigger] s[i], #[trigger] s[j])
}

/// No text comes before itself.
pub proof fn lemma_lt_irreflexive(a: Seq<char>)
    ensures
        !text_lt(a, a),
    decreases a.len(),
{
    if a.len() > 0 {
        lemma_lt_irreflexive(a.drop_first());
    }
}

/// The order is transitive.
pub proof fn lemma_lt_transitive(a: Seq<char>, b: Seq<char>, c: Seq<char>)
    requires
        text_lt(a, b),
        text_lt(b, c),
    ensures
        text_lt(a, c),
    decreases a.len(),
{
    if a.len() > 0 && b.len() > 0 && c.len() > 0 {
        if a[0] == b[0] && b[0] == c[0] {
            lemma_lt_transitive(a.drop_first(), b.drop_first(), c.drop_first());
        }
    }
}

/// Of two different texts, one comes before the other.
pub proof fn lemma_lt_total(a: Seq<char>, b: Seq<char>)
    requires
        a != b,
    ensures
        text_lt(a, b) || text_lt(b, a),
    decreases a.len(),
{
    if a.len() > 0 && b.len() > 0 && a[0] == b[0] {
        assert(a[0] == b[0]);
        if a.drop_first() == b.drop_first() {
            assert(a =~= seq![a[0]] + a.drop_first());
            assert(b =~= seq![b[0]] + b.drop_first());
        }
        lemma_lt_total(a.drop_first(), b.drop_first());
    } else if a.len() == 0 && b.len() == 0 {
        assert(a =~= b);
    }
}

/// Two strictly sorted sequences holding the same texts are equal.
pub proof fn lemma_sorted_unique(s1: Seq<Seq<char>>, s2: Seq<Seq<char>>)
    requires
        strictly_sorted(s1),
        strictly_sorted(s2),
        s1.to_set() == s2.to_set(),
    ensures
        s1 == s2,
    decreases s1.len(),
{
    if s1.len() == 0 {
        if s2.len() > 0 {
            assert(s2.to_set().contains(s2[0]));
        }
        assert(s1 =~= s2);
    } else {
        assert(s1.to_set().contains(s1[0]));
        assert(s2.contains(s1[0]));
        let a = s1[0];
        let b = s2[0];
        let j = choose|j: int| 0 <= j < s2.len() && s2[j] == a;
        assert(s2.to_set().contains(b));
        assert(s1.contains(b));
        let k = choose|k: int| 0 <= k < s1.len() && s1[k] == b;
        if a != b {
            assert(j > 0 && k > 0);
            assert(text_lt(b, a));
            assert(text_lt(a, b));
            lemma_lt_transitive(a, b, a);
            lemma_lt_irreflexive(a);
        }
        let t1 = s1.drop_first();
        let t2 = s2.drop_first();
        assert(strictly_sorted(t1)) by {
            assert forall|x: int, y: int| 0 <= x < y < t1.len() implies text_lt(#[trigger] t1[x], #[trigger] t1[y]) by {
                assert(t1[x] == s1[x + 1] && t1[y] == s1[y + 1]);
            }
        }
        assert(strictly_sorted(t2)) by {
            assert forall|x: int, y: int| 0 <= x < y < t2.len() implies text_lt(#[trigger] t2[x], #[trigger] t2[y]) by {
                assert(t2[x] == s2[x + 1] && t2[y] == s2[y + 1]);
            }
        }
        assert(t1.to_set() =~= t2.to_set()) by {
            assert forall|x: Seq<char>| t1.to_set().contains(x) <==> t2.to_set().contains(x) by {
                if t1.contains(x) {
                    let p = choose|p: int| 0 <= p < t1.len() && t1[p] == x;
                    assert(s1[p + 1] == x);
                    assert(text_lt(a, x));
                    assert(s2.to_set().contains(x));
                    let q = choose|q: int| 0 <= q < s2.len() && s2[q] == x;
                    if q == 0 {
                        lemma_lt_irreflexive(a);
                    }
                    assert(t2[q - 1] == x);
                }
                if t2.contains(x) {
                    let p = choose|p: int| 0 <= p < t2.len() && t2[p] == x;
                    assert(s2[p + 1] == x);
                    assert(text_lt(b, x));
                    assert(s1.to_set().contains(x));
                    let q = choose|q: int| 0 <= q < s1.len() && s1[q] == x;
                    if q == 0 {
                        lemma_lt_irreflexive(b);
                    }
                    assert(t1[q - 1] == x);
                }
            }
        }
        lemma_sorted_unique(t1, t2);
        assert(s1 =~= seq![a] + t1);
        assert(s2 =~= seq![b] + t2);
    }
}

/// Whether `a` comes before `b`.
pub fn text_less(a: &str, b: &str) -> (r: bool)
    ensures
        r == text_lt(a@, b@),
{
    let n = a.unicode_len();
    let m = b.unicode_len();
    let mut i: usize = 0;
    assert(a@.skip(0) =~= a@ && b@.skip(0) =~= b@);
    while i < n && i < m
        invariant
            i <= n,
            i <= m,
            n == a@.len(),
            m == b@.len(),
            text_lt(a@, b@) == text_lt(a@.skip(i as int), b@.skip(i as int)),
        decreases n - i,
    {
        let x = a.get_char(i);
        let y = b.get_char(i);
        assert(a@.skip(i as int)[0] == x && b@.skip(i as int)[0] == y);
        if x < y {
            return true;
        }
        if x > y {
            return false;
        }
        assert(a@.skip(i as int).drop_first() =~= a@.skip(i + 1));
        assert(b@.skip(i as int).drop_first() =~= b@.skip(i + 1));
        i += 1;
    }
    i == n && i < m
}

/// Adds `c` to a strictly sorted vector of texts, in its place; a text
/// already present is not added again.
pub fn insert_sorted(v: &mut Vec<String>, c: String)
    requires
        strictly_sorted(texts(old(v)@)),
    ensures
        strictly_sorted(texts(final(v)@)),
        texts(final(v)@).to_set() == texts(old(v)@).to_set().insert(c@),
{
    let ghost old_t = texts(v@);
    let mut k: usize = 0;
    while k < v.len() && text_less(v[k].as_str(), c.as_str())
        invariant
            k <= v.len(),
            texts(v@) == old_t,
            forall|j: int| 0 <= j < k ==> text_lt(#[trigger] old_t[j], c@),
        decreases v.len() - k,
    {
        k += 1;
    }
    if k < v.len() && v[k] == c {
        assert(old_t.to_set().insert(c@) =~= old_t.to_set()) by {
            assert(old_t[k as int] == c@);
        }
        return;
    }
    proof {
        if k < v.len() {
            assert(old_t[k as int] != c@);
            lemma_lt_total(old_t[k as int], c@);
        }
    }
    v.insert(k, c);
    proof {
        let t = texts(v@);
        assert(t =~= old_t.insert(k as int, c@));
        assert forall|i: int, j: int| 0 <= i < j < t.len() implies text_lt(#[trigger] t[i], #[trigger] t[j]) by {
            if j < k {
                assert(t[i] == old_t[i] && t[j] == old_t[j]);
            } else if j == k {
                assert(t[i] == old_t[i]);
            } else if i < k {
                assert(t[i] == old_t[i] && t[j] == old_t[j - 1]);
                assert(text_lt(old_t[i], c@));
                lemma_lt_transitive(old_t[i], c@, old_t[k as int]);
                if j - 1 > k {
                    lemma_lt_transitive(old_t[i], old_t[k as int], old_t[j - 1]);
                }
            } else if i == k {
                assert(t[j] == old_t[j - 1]);
                if j - 1 > k {
                    lemma_lt_transitive(c@, old_t[k as int], old_t[j - 1]);
                }
            } else {
                assert(t[i] == old_t[i - 1] && t[j] == old_t[j - 1]);
            }
        }
        assert(t.to_set() =~= old_t.to_set().insert(c@)) by {
            assert forall|x: Seq<char>| t.contains(x) <==> old_t.contains(x) || x == c@ by {
                if t.contains(x) {
                    let p = choose|p: int| 0 <= p < t.len() && t[p] == x;
                    if p < k {
                        assert(old_t[p] == x);
                    } else if p > k {
                        assert(old_t[p - 1] == x);
                    }
                }
                if old_t.contains(x) {
                    let p = choose|p: int| 0 <= p < old_t.len() && old_t[p] == x;
                    if p < k {
                        assert(t[p] == x);
                    } else {
                        assert(t[p + 1] == x);
                    }
                }
                if x == c@ {
                    assert(t[k as int] == x);
                }
            }
        }
    }
}

} // verus!
