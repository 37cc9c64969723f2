//! Character-level helpers on strings: equality and lexicographic order.
use vstd::prelude::*;

verus! {

/// Whether `a` orders strictly before `b`, comparing characters one by one
/// by code point; a proper prefix orders before the longer string.
pub open spec fn lex_lt(a: Seq<char>, b: Seq<char>) -> bool
    decreases a.len(),
{
    if b.len() == 0 {
        false
    } else if a.len() == 0 {
        true
    } else if a[0] != b[0] {
        (a[0] as int) < (b[0] as int)
    } else {
        lex_lt(a.drop_first(), b.drop_first())
    }
}

/// Whether two strings hold the same characters.
pub fn text_eq(a: &str, b: &str) -> (r: bool)
    ensures
        r == (a@ == b@),
{
    let n = a.unicode_len();
    let m = b.unicode_len();
    if n != m {
        return false;
    }
    let mut i: usize = 0;
    while i < n
        invariant
            n == a@.len(),
            m == b@.len(),
            n == m,
            i <= n,
            forall|j: int| 0 <= j < i ==> a@[j] == b@[j],
        decreases n - i,
    {
        if a.get_char(i) != b.get_char(i) {
            return false;
        }
        i = i + 1;
    }
    assert(a@ =~= b@);
    true
}

/// No string orders before itself.
pub proof fn lemma_lex_irreflexive(a: Seq<char>)
    ensures
        !lex_lt(a, a),
    decreases a.len(),
{
    if a.len() > 0 {
        lemma_lex_irreflexive(a.drop_first());
    }
}

/// The order is transitive.
pub proof fn lemma_lex_transitive(a: Seq<char>, b: Seq<char>, c: Seq<char>)
    requires
        lex_lt(a, b),
        lex_lt(b, c),
    ensures
        lex_lt(a, c),
    decreases a.len(),
{
    if a.len() > 0 && b.len() > 0 && c.len() > 0 && a[0] == b[0] && b[0] == c[0] {
        lemma_lex_transitive(a.drop_first(), b.drop_first(), c.drop_first());
    }
}

/// Any two different strings are ordered one way or the other.
pub proof fn lemma_lex_total(a: Seq<char>, b: Seq<char>)
    requires
        a != b,
    ensures
        lex_lt(a, b) || lex_lt(b, a),
    decreases a.len(),
{
    if a.len() > 0 && b.len() > 0 && a[0] == b[0] {
        if a.drop_first() == b.drop_first() {
            assert(a =~= seq![a[0]] + a.drop_first());
            assert(b =~= seq![b[0]] + b.drop_first());
        }
        lemma_lex_total(a.drop_first(), b.drop_first());
    } else if a.len() > 0 && b.len() > 0 {
        assert((a[0] as int) != (b[0] as int));
    } else if a.len() == 0 && b.len() == 0 {
        assert(a =~= b);
    }
}

/// The order is asymmetric.
pub proof fn lemma_lex_asymmetric(a: Seq<char>, b: Seq<char>)
    requires
        lex_lt(a, b),
    ensures
        !lex_lt(b, a),
{
    if lex_lt(b, a) {
        lemma_lex_transitive(a, b, a);
        lemma_lex_irreflexive(a);
    }
}

/// Whether `a` orders strictly before `b`, by `lex_lt`.
pub fn text_lt(a: &str, b: &str) -> (r: bool)
    ensures
        r == lex_lt(a@, b@),
{
    let n = a.unicode_len();
    let m = b.unicode_len();
    let mut i: usize = 0;
    assert(a@.skip(0) =~= a@);
    assert(b@.skip(0) =~= b@);
    while i < n && i < m
        invariant
            n == a@.len(),
            m == b@.len(),
            i <= n,
            i <= m,
            lex_lt(a@, b@) == lex_lt(a@.skip(i as int), b@.skip(i as int)),
        decreases n - i,
    {
        let ca = a.get_char(i);
        let cb = b.get_char(i);
        assert(a@.skip(i as int)[0] == ca);
        assert(b@.skip(i as int)[0] == cb);
        if ca != cb {
            return (ca as u32) < (cb as u32);
        }
        assert(a@.skip(i as int).drop_first() =~= a@.skip(i + 1));
        assert(b@.skip(i as int).drop_first() =~= b@.skip(i + 1));
        i = i + 1;
    }
    i < m
}

/// Whether some string of `v` holds the characters `x`.
pub open spec fn has_text(v: Seq<String>, x: Seq<char>) -> bool {
    exists|i: int| 0 <= i < v.len() && (#[trigger] v[i])@ == x
}

/// Whether the strings of `v` stand in strictly increasing order.
pub open spec fn strictly_sorted(v: Seq<String>) -> bool {
    forall|i: int, j: int| 0 <= i < j < v.len() ==> lex_lt((#[trigger] v[i])@, (#[trigger] v[j])@)
}

/// Adds `s` to a strictly increasing vector of strings, keeping it so; a
/// string already present is not added twice.
pub fn insert_sorted(v: &mut Vec<String>, s: String)
    requires
        strictly_sorted(old(v)@),
    ensures
        strictly_sorted(final(v)@),
        forall|x: Seq<char>| has_text(final(v)@, x) <==> (has_text(old(v)@, x) || x == s@),
{
    let n = v.len();
    let mut p: usize = 0;
    while p < n && text_lt(v[p].as_str(), s.as_str())
        invariant
            n == v@.len(),
            p <= n,
            forall|i: int| 0 <= i < p ==> lex_lt((#[trigger] v@[i])@, s@),
        decreases n - p,
    {
        p = p + 1;
    }
    if p < n && v[p] == s {
        assert(has_text(v@, s@)) by {
            assert(v@[p as int]@ == s@);
        }
        return;
    }
    let ghost before = v@;
    let ghost text = s@;
    proof {
        if p < n {
            lemma_lex_total(before[p as int]@, s@);
        }
    }
    v.insert(p, s);
    assert(v@[p as int]@ == text);
    assert forall|i: int, j: int| 0 <= i < j < v@.len() implies lex_lt(
        (#[trigger] v@[i])@,
        (#[trigger] v@[j])@,
    ) by {
        if j < p {
            assert(v@[i] == before[i] && v@[j] == before[j]);
        } else if j == p {
            assert(v@[i] == before[i]);
        } else if i == p {
            assert(v@[j] == before[j - 1]);
            if j - 1 > p {
                assert(lex_lt(before[p as int]@, before[j - 1]@));
                lemma_lex_transitive(s@, before[p as int]@, before[j - 1]@);
            }
        } else if i < p {
            assert(v@[i] == before[i] && v@[j] == before[j - 1]);
            if p < n {
                lemma_lex_transitive(before[i]@, s@, before[p as int]@);
                if j - 1 > p {
                    lemma_lex_transitive(before[i]@, before[p as int]@, before[j - 1]@);
                }
            }
        } else {
            assert(v@[i] == before[i - 1] && v@[j] == before[j - 1]);
        }
    }
    assert forall|x: Seq<char>| has_text(v@, x) <==> (has_text(before, x) || x == s@) by {
        if has_text(v@, x) {
            let i = choose|i: int| 0 <= i < v@.len() && (#[trigger] v@[i])@ == x;
            if i < p {
                assert(before[i] == v@[i]);
            } else if i > p {
                assert(before[i - 1] == v@[i]);
            } else {
                assert(v@[i]@ == s@);
            }
        }
        if has_text(before, x) {
            let i = choose|i: int| 0 <= i < before.len() && (#[trigger] before[i])@ == x;
            if i < p {
                assert(v@[i] == before[i]);
            } else {
                assert(v@[i + 1] == before[i]);
            }
        }
        if x == s@ {
            assert(v@[p as int]@ == x);
        }
    }
}

} // verus!
