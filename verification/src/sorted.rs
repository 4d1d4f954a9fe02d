//! Ordered sets of strings.
//!
//! Strings are ordered as `String`'s `Ord` orders them: lexicographically by
//! character (UTF-8 preserves the order of code points).  An ordered set is a
//! strictly increasing vector, so each set of strings has exactly one.
use vstd::prelude::*;

use crate::text::chars_of;

verus! {

/// `a` sorts strictly before `b`.
pub open spec fn lex_lt(a: Seq<char>, b: Seq<char>) -> bool
    decreases a.len(),
{
    if a.len() == 0 {
        b.len() > 0
    } else if b.len() == 0 {
        false
    } else if a[0] < b[0] {
        true
    } else if a[0] == b[0] {
        lex_lt(a.drop_first(), b.drop_first())
    } else {
        false
    }
}

/// Each element sorts strictly before every later one.
pub open spec fn strictly_sorted(q: Seq<Seq<char>>) -> bool {
    forall|i: int, j: int| 0 <= i < j < q.len() ==> lex_lt(#[trigger] q[i], #[trigger] q[j])
}

/// The elements of the finite set `s`, in increasing order.
pub open spec fn sorted_of(s: Set<Seq<char>>) -> Seq<Seq<char>> {
    choose|q: Seq<Seq<char>>| strictly_sorted(q) && q.to_set() == s
}

/// No string sorts before itself.
pub proof fn lemma_lex_irreflexive(a: Seq<char>)
    ensures
        !lex_lt(a, a),
    decreases a.len(),
{
    if a.len() > 0 {
        lemma_lex_irreflexive(a.drop_first());
    }
}

/// The order is transitive.
pub proof fn lemma_lex_transitive(a: Seq<char>, b: Seq<char>, c: Seq<char>)
    requires
        lex_lt(a, b),
        lex_lt(b, c),
    ensures
        lex_lt(a, c),
    decreases a.len(),
{
    if a.len() > 0 && b.len() > 0 && c.len() > 0 && a[0] == b[0] && b[0] == c[0] {
        lemma_lex_transitive(a.drop_first(), b.drop_first(), c.drop_first());
    }
}

/// Of two different strings, one sorts before the other.
pub proof fn lemma_lex_total(a: Seq<char>, b: Seq<char>)
    requires
        a != b,
    ensures
        lex_lt(a, b) || lex_lt(b, a),
    decreases a.len(),
{
    if a.len() > 0 && b.len() > 0 && a[0] == b[0] {
        if a.drop_first() == b.drop_first() {
            assert(a =~= seq![a[0]] + a.drop_first());
            assert(b =~= seq![b[0]] + b.drop_first());
        }
        lemma_lex_total(a.drop_first(), b.drop_first());
    } else if a.len() == 0 && b.len() == 0 {
        assert(a =~= b);
    }
}

/// The order is asymmetric.
pub proof fn lemma_lex_asymmetric(a: Seq<char>, b: Seq<char>)
    requires
        lex_lt(a, b),
    ensures
        !lex_lt(b, a),
{
    if lex_lt(b, a) {
        lemma_lex_transitive(a, b, a);
        lemma_lex_irreflexive(a);
    }
}

/// A strictly sorted sequence holds no element twice.
pub proof fn lemma_sorted_no_dup(q: Seq<Seq<char>>)
    requires
        strictly_sorted(q),
    ensures
        q.no_duplicates(),
{
    assert forall|i: int, j: int| 0 <= i < q.len() && 0 <= j < q.len() && i != j implies q[i]
        != q[j] by {
        if i < j {
            assert(lex_lt(q[i], q[j]));
            if q[i] == q[j] {
                lemma_lex_irreflexive(q[i]);
            }
        } else {
            assert(lex_lt(q[j], q[i]));
            if q[i] == q[j] {
                lemma_lex_irreflexive(q[i]);
            }
        }
    }
}

/// Two strictly sorted sequences with the same elements are equal.
pub proof fn lemma_sorted_unique(a: Seq<Seq<char>>, b: Seq<Seq<char>>)
    requires
        strictly_sorted(a),
        strictly_sorted(b),
        a.to_set() == b.to_set(),
    ensures
        a == b,
    decreases a.len(),
{
    if a.len() == 0 {
        if b.len() > 0 {
            assert(b.to_set().contains(b[0]));
        }
        assert(a =~= b);
    } else {
        assert(a.to_set().contains(a[0]));
        if b.len() == 0 {
            assert(false);
        }
        assert(b.to_set().contains(a[0]));
        let k = choose|k: int| 0 <= k < b.len() && b[k] == a[0];
        assert(b.to_set().contains(b[0]));
        let m = choose|m: int| 0 <= m < a.len() && a[m] == b[0];
        if k > 0 {
            assert(lex_lt(b[0], b[k]));
            if m == 0 {
                lemma_lex_irreflexive(b[0]);
            } else {
                assert(lex_lt(a[0], a[m]));
                lemma_lex_asymmetric(a[0], b[0]);
            }
        }
        assert(b[0] == a[0]);
        let a1 = a.drop_first();
        let b1 = b.drop_first();
        lemma_sorted_no_dup(a);
        lemma_sorted_no_dup(b);
        assert forall|x: Seq<char>| a1.to_set().contains(x) <==> b1.to_set().contains(x) by {
            if a1.to_set().contains(x) {
                let i = choose|i: int| 0 <= i < a1.len() && a1[i] == x;
                assert(a[i + 1] == x);
                assert(a.to_set().contains(x));
                let j = choose|j: int| 0 <= j < b.len() && b[j] == x;
                if j == 0 {
                    assert(a[0] == a[i + 1]);
                }
                assert(b1[j - 1] == x);
            }
            if b1.to_set().contains(x) {
                let i = choose|i: int| 0 <= i < b1.len() && b1[i] == x;
                assert(b[i + 1] == x);
                assert(b.to_set().contains(x));
                let j = choose|j: int| 0 <= j < a.len() && a[j] == x;
                if j == 0 {
                    assert(b[0] == b[i + 1]);
                }
                assert(a1[j - 1] == x);
            }
        }
        assert(a1.to_set() =~= b1.to_set());
        lemma_sorted_unique(a1, b1);
        assert(a =~= seq![a[0]] + a1);
        assert(b =~= seq![b[0]] + b1);
    }
}

/// A strictly sorted sequence is the ordered form of its own elements.
pub proof fn lemma_sorted_of(q: Seq<Seq<char>>)
    requires
        strictly_sorted(q),
    ensures
        sorted_of(q.to_set()) == q,
{
    let s = q.to_set();
    assert(strictly_sorted(q) && q.to_set() == s);
    let r = sorted_of(s);
    lemma_sorted_unique(q, r);
}

/// `a` sorts strictly before `b`.
pub fn str_lt(a: &str, b: &str) -> (r: bool)
    ensures
        r == lex_lt(a@, b@),
{
    let ac = chars_of(a);
    let bc = chars_of(b);
    let mut i: usize = 0;
    assert(ac@.skip(0) =~= ac@);
    assert(bc@.skip(0) =~= bc@);
    while i < ac.len() && i < bc.len()
        invariant
            ac@ == a@,
            bc@ == b@,
            i <= ac@.len(),
            i <= bc@.len(),
            forall|j: int| 0 <= j < i ==> ac@[j] == bc@[j],
            lex_lt(ac@, bc@) == lex_lt(ac@.skip(i as int), bc@.skip(i as int)),
        decreases ac@.len() - i,
    {
        assert(ac@.skip(i as int)[0] == ac@[i as int]);
        assert(bc@.skip(i as int)[0] == bc@[i as int]);
        assert(ac@.skip(i as int).len() > 0 && bc@.skip(i as int).len() > 0);
        if ac[i] < bc[i] {
            assert(lex_lt(ac@.skip(i as int), bc@.skip(i as int)));
            return true;
        }
        if ac[i] > bc[i] {
            assert(!lex_lt(ac@.skip(i as int), bc@.skip(i as int)));
            return false;
        }
        assert(ac@.skip(i as int).drop_first() =~= ac@.skip(i + 1));
        assert(bc@.skip(i as int).drop_first() =~= bc@.skip(i + 1));
        i = i + 1;
    }
    assert(ac@.skip(i as int).len() == ac@.len() - i);
    assert(bc@.skip(i as int).len() == bc@.len() - i);
    i < bc.len()
}

/// Adds `k` to the ordered set `v`.
pub fn insert_sorted(v: &mut Vec<String>, k: &String)
    requires
        strictly_sorted(old(v).deep_view()),
    ensures
        strictly_sorted(final(v).deep_view()),
        final(v).deep_view().to_set() == old(v).deep_view().to_set().insert(k@),
{
    let ghost old_q = v.deep_view();
    let mut i: usize = 0;
    while i < v.len() && str_lt(v[i].as_str(), k.as_str())
        invariant
            v.deep_view() == old_q,
            i <= v@.len(),
            forall|j: int| 0 <= j < i ==> lex_lt(#[trigger] old_q[j], k@),
        decreases v@.len() - i,
    {
        assert(v.deep_view()[i as int] == v@[i as int]@);
        i = i + 1;
    }
    assert(i < v@.len() ==> old_q[i as int] == v@[i as int]@);
    if i < v.len() && !str_lt(k.as_str(), v[i].as_str()) {
        // v[i] is neither smaller nor larger: it is k.
        assert(old_q[i as int] == v@[i as int]@);
        proof {
            if old_q[i as int] != k@ {
                lemma_lex_total(old_q[i as int], k@);
            }
        }
        assert(old_q[i as int] == k@);
        assert(old_q.to_set().contains(old_q[i as int]));
        assert(old_q.to_set().insert(k@) =~= old_q.to_set());
        return;
    }
    let ghost before = v.deep_view();
    v.insert(i, k.clone());
    let ghost q = v.deep_view();
    assert(q =~= old_q.take(i as int).push(k@) + old_q.skip(i as int)) by {
        assert forall|j: int| 0 <= j < q.len() implies q[j] == (old_q.take(i as int).push(k@)
            + old_q.skip(i as int))[j] by {
            assert(q[j] == v@[j]@);
        }
    }
    assert forall|a: int, b: int| 0 <= a < b < q.len() implies lex_lt(#[trigger] q[a], #[trigger] q[b]) by {
        if a < i && b < i {
            assert(lex_lt(old_q[a], old_q[b]));
        } else if a < i && b == i {
        } else if a < i && b > i {
            assert(lex_lt(old_q[a], old_q[b - 1]));
        } else if a == i {
            // k sorts before old_q[i], which sorts before the later ones.
            assert(i < old_q.len());
            assert(old_q[i as int] == before[i as int]);
            if b > i + 1 {
                assert(lex_lt(old_q[i as int], old_q[b - 1]));
                lemma_lex_transitive(k@, old_q[i as int], old_q[b - 1]);
            }
        } else {
            assert(lex_lt(old_q[a - 1], old_q[b - 1]));
        }
    }
    assert(q.to_set() =~= old_q.to_set().insert(k@)) by {
        assert forall|x: Seq<char>| q.to_set().contains(x) implies old_q.to_set().insert(k@).contains(x) by {
            let j = choose|j: int| 0 <= j < q.len() && q[j] == x;
            if j < i {
                assert(old_q[j] == x);
            } else if j > i {
                assert(old_q[j - 1] == x);
            }
        }
        assert forall|x: Seq<char>| old_q.to_set().insert(k@).contains(x) implies q.to_set().contains(x) by {
            if x == k@ {
                assert(q[i as int] == x);
            } else {
                let j = choose|j: int| 0 <= j < old_q.len() && old_q[j] == x;
                if j < i {
                    assert(q[j] == x);
                } else {
                    assert(q[j + 1] == x);
                }
            }
        }
    }
}

} // verus!
