use vstd::prelude::*;

use crate::text::chars_of;

verus! {

/// `a` sorts strictly before `b` when compared character by character by
/// code point, a proper prefix sorting first (the order of `str`).
pub open spec fn seq_lt(a: Seq<char>, b: Seq<char>) -> bool
    decreases a.len(),
{
    if a.len() == 0 {
        b.len() > 0
    } else if b.len() == 0 {
        false
    } else if a[0] != b[0] {
        (a[0] as int) < (b[0] as int)
    } else {
        seq_lt(a.skip(1), b.skip(1))
    }
}

/// No sequence sorts before itself.
pub proof fn lemma_seq_lt_irreflexive(a: Seq<char>)
    ensures
        !seq_lt(a, a),
    decreases a.len(),
{
    if a.len() > 0 {
        lemma_seq_lt_irreflexive(a.skip(1));
    }
}

/// Of two different sequences exactly one sorts first.
pub proof fn lemma_seq_lt_total(a: Seq<char>, b: Seq<char>)
    ensures
        a != b ==> (seq_lt(a, b) || seq_lt(b, a)),
        !(seq_lt(a, b) && seq_lt(b, a)),
    decreases a.len(),
{
    if a.len() > 0 && b.len() > 0 {
        lemma_seq_lt_total(a.skip(1), b.skip(1));
        if a[0] == b[0] && a != b {
            assert(a.skip(1) != b.skip(1)) by {
                if a.skip(1) == b.skip(1) {
                    assert(a =~= seq![a[0]] + a.skip(1));
                    assert(b =~= seq![b[0]] + b.skip(1));
                }
            }
        }
    } else if a.len() == 0 && b.len() == 0 {
        assert(a =~= b);
    }
}

/// Sorting first is transitive.
pub proof fn lemma_seq_lt_transitive(a: Seq<char>, b: Seq<char>, c: Seq<char>)
    requires
        seq_lt(a, b),
        seq_lt(b, c),
    ensures
        seq_lt(a, c),
    decreases a.len(),
{
    if a.len() > 0 && b.len() > 0 && c.len() > 0 {
        if a[0] == b[0] && b[0] == c[0] {
            lemma_seq_lt_transitive(a.skip(1), b.skip(1), c.skip(1));
        }
    }
}

/// Comparing past a common prefix gives the same answer.
proof fn lemma_seq_lt_common_prefix(a: Seq<char>, b: Seq<char>, i: int)
    requires
        0 <= i <= a.len(),
        i <= b.len(),
        a.take(i) == b.take(i),
    ensures
        seq_lt(a, b) == seq_lt(a.skip(i), b.skip(i)),
    decreases i,
{
    if i > 0 {
        assert(a[0] == a.take(i)[0]);
        assert(b[0] == b.take(i)[0]);
        assert(a.skip(1).take(i - 1) =~= a.take(i).skip(1));
        assert(b.skip(1).take(i - 1) =~= b.take(i).skip(1));
        lemma_seq_lt_common_prefix(a.skip(1), b.skip(1), i - 1);
        assert(a.skip(1).skip(i - 1) =~= a.skip(i));
        assert(b.skip(1).skip(i - 1) =~= b.skip(i));
    } else {
        assert(a.skip(0) =~= a);
        assert(b.skip(0) =~= b);
    }
}

/// The order compares by code point at the first difference, and a
/// proper prefix sorts first.
pub proof fn law_seq_lt_meaning(a: char, b: char, prefix: Seq<char>, tail: Seq<char>, rest1: Seq<char>, rest2: Seq<char>)
    ensures
        seq_lt(prefix + seq![a] + rest1, prefix + seq![b] + rest2) <==> (a == b && seq_lt(rest1, rest2))
            || (a as int) < (b as int),
        tail.len() > 0 ==> seq_lt(prefix, prefix + tail),
        !seq_lt(prefix + tail, prefix),
    decreases prefix.len(),
{
    if prefix.len() > 0 {
        let p1 = prefix.skip(1);
        law_seq_lt_meaning(a, b, p1, tail, rest1, rest2);
        assert((prefix + seq![a] + rest1).skip(1) =~= p1 + seq![a] + rest1);
        assert((prefix + seq![b] + rest2).skip(1) =~= p1 + seq![b] + rest2);
        assert((prefix + tail).skip(1) =~= p1 + tail);
    } else {
        assert(prefix + seq![a] + rest1 =~= seq![a] + rest1);
        assert(prefix + seq![b] + rest2 =~= seq![b] + rest2);
        assert((seq![a] + rest1).skip(1) =~= rest1);
        assert((seq![b] + rest2).skip(1) =~= rest2);
        assert(prefix + tail =~= tail);
    }
}

/// Whether `a` sorts strictly before `b`.
pub fn str_lt(a: &str, b: &str) -> (r: bool)
    ensures
        r == seq_lt(a@, b@),
{
    let av = chars_of(a);
    let bv = chars_of(b);
    let n = av.len();
    let m = bv.len();
    let mut i: usize = 0;
    while i < n && i < m && av[i] == bv[i]
        invariant
            av@ == a@,
            bv@ == b@,
            n == a@.len(),
            m == b@.len(),
            i <= n,
            i <= m,
            a@.take(i as int) == b@.take(i as int),
        decreases n - i,
    {
        assert(a@.take(i + 1) =~= a@.take(i as int).push(a@[i as int]));
        assert(b@.take(i + 1) =~= b@.take(i as int).push(b@[i as int]));
        i = i + 1;
    }
    proof {
        lemma_seq_lt_common_prefix(a@, b@, i as int);
    }
    if i == n {
        i < m
    } else if i == m {
        false
    } else {
        av[i] < bv[i]
    }
}

} // verus!
