//! Sorting of names and of keyed deck entries, in the order in which
//! Rust sorts strings: code point by code point.
use vstd::prelude::*;
use crate::text::{lex_le, lex_le_from, str_eq, str_le};

verus! {

broadcast use vstd::seq_lib::group_to_multiset_ensures;

proof fn lemma_lex_total_from(a: Seq<char>, b: Seq<char>, i: int)
    requires
        0 <= i,
    ensures
        lex_le_from(a, b, i) || lex_le_from(b, a, i),
    decreases a.len() - i,
{
    if i < a.len() && i < b.len() {
        if a[i] == b[i] {
            lemma_lex_total_from(a, b, i + 1);
        } else {
            assert((a[i] as int) != (b[i] as int));
        }
    }
}

proof fn lemma_lex_trans_from(a: Seq<char>, b: Seq<char>, c: Seq<char>, i: int)
    requires
        0 <= i,
        lex_le_from(a, b, i),
        lex_le_from(b, c, i),
    ensures
        lex_le_from(a, c, i),
    decreases a.len() - i,
{
    if i < a.len() && i < b.len() && i < c.len() && a[i] == b[i] && b[i] == c[i] {
        lemma_lex_trans_from(a, b, c, i + 1);
    }
}

proof fn lemma_lex_antisym_from(a: Seq<char>, b: Seq<char>, i: int)
    requires
        0 <= i <= a.len(),
        i <= b.len(),
        lex_le_from(a, b, i),
        lex_le_from(b, a, i),
        a.subrange(0, i) == b.subrange(0, i),
    ensures
        a == b,
    decreases a.len() - i,
{
    if i < a.len() {
        assert(a.subrange(0, i + 1) =~= a.subrange(0, i).push(a[i]));
        assert(b.subrange(0, i + 1) =~= b.subrange(0, i).push(b[i]));
        lemma_lex_antisym_from(a, b, i + 1);
    } else {
        assert(a =~= a.subrange(0, i));
        assert(b =~= b.subrange(0, i));
    }
}

/// Any two names are ordered one way or the other.
pub proof fn lemma_lex_total(a: Seq<char>, b: Seq<char>)
    ensures
        lex_le(a, b) || lex_le(b, a),
{
    lemma_lex_total_from(a, b, 0);
}

/// The name order is transitive.
pub proof fn lemma_lex_trans(a: Seq<char>, b: Seq<char>, c: Seq<char>)
    requires
        lex_le(a, b),
        lex_le(b, c),
    ensures
        lex_le(a, c),
{
    lemma_lex_trans_from(a, b, c, 0);
}

/// Two names that are each ordered no later than the other are equal.
pub proof fn lemma_lex_antisym(a: Seq<char>, b: Seq<char>)
    requires
        lex_le(a, b),
        lex_le(b, a),
    ensures
        a == b,
{
    assert(a.subrange(0, 0) =~= b.subrange(0, 0));
    lemma_lex_antisym_from(a, b, 0);
}

/// A list of names in code-point order.
pub open spec fn names_sorted(s: Seq<String>) -> bool {
    forall|i: int, j: int| 0 <= i < j < s.len() ==> lex_le(#[trigger] s[i]@, #[trigger] s[j]@)
}

/// Insert a name into a sorted list, keeping it sorted.
pub fn insert_name_sorted(v: &mut Vec<String>, name: String)
    requires
        names_sorted(old(v)@),
    ensures
        names_sorted(final(v)@),
        final(v)@.to_multiset() == old(v)@.to_multiset().insert(name),
        final(v)@.len() == old(v)@.len() + 1,
        exists|pos: int| 0 <= pos <= old(v)@.len() && final(v)@ == old(v)@.insert(pos, name),
{
    let n = v.len();
    let mut i: usize = 0;
    let mut found = false;
    while i < n && !found
        invariant
            n == v@.len(),
            i <= n,
            forall|k: int| 0 <= k < i ==> lex_le(#[trigger] v@[k]@, name@),
            found ==> i < n && !lex_le(v@[i as int]@, name@),
        decreases n - i + if found { 0int } else { 1int },
    {
        if !str_le(v[i].as_str(), name.as_str()) {
            found = true;
        } else {
            i = i + 1;
        }
    }
    let ghost old_v = v@;
    proof {
        if i < n {
            lemma_lex_total(name@, old_v[i as int]@);
        }
        assert forall|k: int| i <= k < n implies lex_le(name@, #[trigger] old_v[k]@) by {
            if k > i {
                lemma_lex_trans(name@, old_v[i as int]@, old_v[k]@);
            }
        }
    }
    v.insert(i, name);
    proof {
        assert(v@ == old_v.insert(i as int, name));
        assert forall|a: int, b: int| 0 <= a < b < v@.len() implies lex_le(
            #[trigger] v@[a]@,
            #[trigger] v@[b]@,
        ) by {
            if a < i && b == i {
            } else if a < i && b > i {
                lemma_lex_trans(old_v[a]@, name@, old_v[b - 1]@);
            } else if a == i {
            } else if a > i {
                assert(v@[a] == old_v[a - 1]);
                assert(v@[b] == old_v[b - 1]);
            }
        }
    }
}

/// The order of deck entries: by key, then by deck index.
pub open spec fn entry_le(a: (String, usize), b: (String, usize)) -> bool {
    if a.0@ == b.0@ {
        a.1 <= b.1
    } else {
        lex_le(a.0@, b.0@)
    }
}

/// A list of deck entries in key order, ties in deck order.
pub open spec fn entries_sorted(s: Seq<(String, usize)>) -> bool {
    forall|i: int, j: int| 0 <= i < j < s.len() ==> entry_le(#[trigger] s[i], #[trigger] s[j])
}

proof fn lemma_entry_total(a: (String, usize), b: (String, usize))
    ensures
        entry_le(a, b) || entry_le(b, a),
{
    lemma_lex_total(a.0@, b.0@);
}

proof fn lemma_entry_trans(a: (String, usize), b: (String, usize), c: (String, usize))
    requires
        entry_le(a, b),
        entry_le(b, c),
    ensures
        entry_le(a, c),
{
    if a.0@ != b.0@ && b.0@ != c.0@ {
        lemma_lex_trans(a.0@, b.0@, c.0@);
        if a.0@ == c.0@ {
            lemma_lex_antisym(a.0@, b.0@);
        }
    } else if a.0@ != b.0@ || b.0@ != c.0@ {
        if a.0@ == c.0@ {
            lemma_lex_antisym(a.0@, b.0@);
        }
    }
}

fn entry_le_exec(a: &(String, usize), b: &(String, usize)) -> (r: bool)
    ensures
        r == entry_le(*a, *b),
{
    if str_eq(a.0.as_str(), b.0.as_str()) {
        a.1 <= b.1
    } else {
        str_le(a.0.as_str(), b.0.as_str())
    }
}

/// Insert a deck entry into a sorted list, keeping it sorted.
pub fn insert_entry_sorted(v: &mut Vec<(String, usize)>, e: (String, usize))
    requires
        entries_sorted(old(v)@),
    ensures
        entries_sorted(final(v)@),
        final(v)@.to_multiset() == old(v)@.to_multiset().insert(e),
        final(v)@.len() == old(v)@.len() + 1,
        exists|pos: int| 0 <= pos <= old(v)@.len() && final(v)@ == old(v)@.insert(pos, e),
{
    let n = v.len();
    let mut i: usize = 0;
    let mut found = false;
    while i < n && !found
        invariant
            n == v@.len(),
            i <= n,
            forall|k: int| 0 <= k < i ==> entry_le(#[trigger] v@[k], e),
            found ==> i < n && !entry_le(v@[i as int], e),
        decreases n - i + if found { 0int } else { 1int },
    {
        if !entry_le_exec(&v[i], &e) {
            found = true;
        } else {
            i = i + 1;
        }
    }
    let ghost old_v = v@;
    proof {
        if i < n {
            lemma_entry_total(e, old_v[i as int]);
        }
        assert forall|k: int| i <= k < n implies entry_le(e, #[trigger] old_v[k]) by {
            if k > i {
                lemma_entry_trans(e, old_v[i as int], old_v[k]);
            }
        }
    }
    v.insert(i, e);
    proof {
        assert(v@ == old_v.insert(i as int, e));
        assert forall|a: int, b: int| 0 <= a < b < v@.len() implies entry_le(
            #[trigger] v@[a],
            #[trigger] v@[b],
        ) by {
            if a < i && b == i {
            } else if a < i && b > i {
                lemma_entry_trans(old_v[a], e, old_v[b - 1]);
            } else if a == i {
            } else if a > i {
                assert(v@[a] == old_v[a - 1]);
                assert(v@[b] == old_v[b - 1]);
            }
        }
    }
}

} // verus!
