//! Name-keyed tables, the shape of every map in the runtime state: a vector
//! of pairs scanned left to right, written through a replace-or-append
//! update.

use vstd::prelude::*;
use crate::text::str_eq;

verus! {

/// The first value stored under key `k`, scanning left to right.
pub open spec fn tbl_get<V>(s: Seq<(String, V)>, k: Seq<char>) -> Option<V>
    decreases s.len(),
{
    if s.len() == 0 {
        None
    } else if s[0].0@ == k {
        Some(s[0].1)
    } else {
        tbl_get(s.drop_first(), k)
    }
}

proof fn lemma_tbl_get_first<V>(s: Seq<(String, V)>, k: Seq<char>, i: int)
    requires
        0 <= i < s.len(),
        s[i].0@ == k,
        forall|j: int| 0 <= j < i ==> s[j].0@ != k,
    ensures
        tbl_get(s, k) == Some(s[i].1),
    decreases i,
{
    if i > 0 {
        lemma_tbl_get_first(s.drop_first(), k, i - 1);
    }
}

proof fn lemma_tbl_get_none<V>(s: Seq<(String, V)>, k: Seq<char>)
    requires
        forall|j: int| 0 <= j < s.len() ==> s[j].0@ != k,
    ensures
        tbl_get(s, k) is None,
    decreases s.len(),
{
    if s.len() > 0 {
        lemma_tbl_get_none(s.drop_first(), k);
    }
}

proof fn lemma_tbl_get_update<V>(s: Seq<(String, V)>, i: int, x: (String, V), k2: Seq<char>)
    requires
        0 <= i < s.len(),
        x.0@ == s[i].0@,
        k2 != s[i].0@,
    ensures
        tbl_get(s.update(i, x), k2) == tbl_get(s, k2),
    decreases i,
{
    if i == 0 {
        assert(s.update(0, x).drop_first() =~= s.drop_first());
    } else {
        if s[0].0@ == k2 {
        } else {
            assert(s.update(i, x).drop_first() =~= s.drop_first().update(i - 1, x));
            lemma_tbl_get_update(s.drop_first(), i - 1, x, k2);
        }
    }
}

proof fn lemma_tbl_get_push<V>(s: Seq<(String, V)>, x: (String, V), k2: Seq<char>)
    ensures
        tbl_get(s, k2) is Some ==> tbl_get(s.push(x), k2) == tbl_get(s, k2),
        tbl_get(s, k2) is None && x.0@ == k2 ==> tbl_get(s.push(x), k2) == Some(x.1),
        tbl_get(s, k2) is None && x.0@ != k2 ==> tbl_get(s.push(x), k2) is None,
    decreases s.len(),
{
    if s.len() == 0 {
        assert(s.push(x)[0] == x);
        assert(s.push(x).drop_first() =~= Seq::<(String, V)>::empty());
        assert(tbl_get(Seq::<(String, V)>::empty(), k2) is None);
        if x.0@ == k2 {
            assert(tbl_get(s.push(x), k2) == Some(x.1));
        } else {
            assert(tbl_get(s.push(x), k2) == tbl_get(s.push(x).drop_first(), k2));
        }
    } else {
        assert(s.push(x)[0] == s[0]);
        assert(s.push(x).drop_first() =~= s.drop_first().push(x));
        lemma_tbl_get_push(s.drop_first(), x, k2);
        if s[0].0@ == k2 {
            assert(tbl_get(s, k2) == Some(s[0].1));
        } else {
            assert(tbl_get(s, k2) == tbl_get(s.drop_first(), k2));
            assert(tbl_get(s.push(x), k2) == tbl_get(s.drop_first().push(x), k2));
        }
    }
}

/// No two entries share a key.
pub open spec fn tbl_distinct<V>(s: Seq<(String, V)>) -> bool {
    forall|i: int, j: int| 0 <= i < j < s.len() ==> s[i].0@ != s[j].0@
}

proof fn lemma_tbl_get_some_of_key<V>(s: Seq<(String, V)>, k: Seq<char>)
    requires
        exists|j: int| 0 <= j < s.len() && s[j].0@ == k,
    ensures
        tbl_get(s, k) is Some,
    decreases s.len(),
{
    if s[0].0@ != k {
        let j = choose|j: int| 0 <= j < s.len() && s[j].0@ == k;
        assert(s.drop_first()[j - 1].0@ == k);
        lemma_tbl_get_some_of_key(s.drop_first(), k);
    }
}

/// The position of the first entry keyed `k`, if any.
pub fn table_index<V>(t: &Vec<(String, V)>, k: &str) -> (r: Option<usize>)
    ensures
        match r {
            Some(i) => 0 <= i < t@.len() && t@[i as int].0@ == k@ && tbl_get(t@, k@) == Some(
                t@[i as int].1,
            ) && forall|j: int| 0 <= j < i ==> t@[j].0@ != k@,
            None => tbl_get(t@, k@) is None,
        },
{
    let n: usize = t.len();
    let mut i: usize = 0;
    while i < n
        invariant
            n == t@.len(),
            i <= n,
            forall|j: int| 0 <= j < i ==> t@[j].0@ != k@,
        decreases n - i,
    {
        if str_eq(t[i].0.as_str(), k) {
            proof {
                lemma_tbl_get_first(t@, k@, i as int);
            }
            return Some(i);
        }
        i = i + 1;
    }
    proof {
        lemma_tbl_get_none(t@, k@);
    }
    None
}

/// Reads the value stored under `k`.
pub fn table_get_copy<V: Copy>(t: &Vec<(String, V)>, k: &str) -> (r: Option<V>)
    ensures
        r == tbl_get(t@, k@),
{
    match table_index(t, k) {
        Some(i) => Some(t[i].1),
        None => None,
    }
}

/// Stores `v` under `k`, replacing the first entry of that key or
/// appending a new one.  Every other key keeps its value.
pub fn table_set<V>(t: &mut Vec<(String, V)>, k: &str, v: V)
    ensures
        tbl_get(final(t)@, k@) == Some(v),
        forall|k2: Seq<char>| k2 != k@ ==> tbl_get(final(t)@, k2) == tbl_get(old(t)@, k2),
        final(t)@.len() == old(t)@.len() || final(t)@.len() == old(t)@.len() + 1,
        tbl_distinct(old(t)@) ==> tbl_distinct(final(t)@),
{
    let idx = table_index(t, k);
    match idx {
        Some(i) => {
            let ghost s0 = t@;
            let key: String = k.to_owned();
            t[i] = (key, v);
            proof {
                assert(t@ =~= s0.update(i as int, t@[i as int]));
                lemma_tbl_get_first(t@, k@, i as int);
                assert forall|k2: Seq<char>| k2 != k@ implies tbl_get(t@, k2) == tbl_get(s0, k2) by {
                    lemma_tbl_get_update(s0, i as int, t@[i as int], k2);
                }
                assert(forall|j: int| 0 <= j < t@.len() ==> t@[j].0@ == s0[j].0@);
            }
        },
        None => {
            let ghost s0 = t@;
            let key: String = k.to_owned();
            t.push((key, v));
            proof {
                assert forall|k2: Seq<char>| k2 != k@ implies tbl_get(t@, k2) == tbl_get(s0, k2) by {
                    lemma_tbl_get_push(s0, t@.last(), k2);
                }
                lemma_tbl_get_push(s0, t@.last(), k@);
                assert forall|j: int| 0 <= j < s0.len() implies s0[j].0@ != k@ by {
                    if s0[j].0@ == k@ {
                        lemma_tbl_get_some_of_key(s0, k@);
                    }
                }
                assert(forall|j: int| 0 <= j < s0.len() ==> t@[j] == s0[j]);
            }
        },
    }
}

/// The table without any entry keyed `k`, in order.
pub open spec fn tbl_remove<V>(s: Seq<(String, V)>, k: Seq<char>) -> Seq<(String, V)>
    decreases s.len(),
{
    if s.len() == 0 {
        s
    } else {
        let prefix = tbl_remove(s.drop_last(), k);
        if s.last().0@ == k {
            prefix
        } else {
            prefix.push(s.last())
        }
    }
}

proof fn lemma_tbl_remove_get<V>(s: Seq<(String, V)>, k: Seq<char>, k2: Seq<char>)
    ensures
        tbl_get(tbl_remove(s, k), k) is None,
        k2 != k ==> tbl_get(tbl_remove(s, k), k2) == tbl_get(s, k2),
    decreases s.len(),
{
    if s.len() > 0 {
        lemma_tbl_remove_get(s.drop_last(), k, k2);
        lemma_tbl_remove_get(s.drop_last(), k, k);
        assert(s =~= s.drop_last().push(s.last()));
        lemma_tbl_get_push(s.drop_last(), s.last(), k2);
        lemma_tbl_get_push(s.drop_last(), s.last(), k);
        if s.last().0@ != k {
            lemma_tbl_get_push(tbl_remove(s.drop_last(), k), s.last(), k2);
            lemma_tbl_get_push(tbl_remove(s.drop_last(), k), s.last(), k);
        }
    }
}

/// Removes every entry keyed `k`; every other key keeps its value.
pub fn table_remove<V>(t: &mut Vec<(String, V)>, k: &str)
    ensures
        final(t)@ == tbl_remove(old(t)@, k@),
        tbl_get(final(t)@, k@) is None,
        forall|k2: Seq<char>| k2 != k@ ==> tbl_get(final(t)@, k2) == tbl_get(old(t)@, k2),
{
    let ghost s0 = t@;
    let mut src: Vec<(String, V)> = Vec::new();
    core::mem::swap(t, &mut src);
    let mut out: Vec<(String, V)> = Vec::new();
    let ghost mut i: int = 0;
    while src.len() > 0
        invariant
            0 <= i <= s0.len(),
            src@ == s0.skip(i),
            out@ == tbl_remove(s0.take(i), k@),
        decreases src@.len(),
    {
        proof {
            assert(s0.take(i + 1).drop_last() =~= s0.take(i));
            assert(s0.take(i + 1).last() == s0[i]);
            assert(src@[0] == s0[i]);
        }
        let entry = src.remove(0);
        let keep: bool = !str_eq(entry.0.as_str(), k);
        if keep {
            out.push(entry);
        }
        proof {
            assert(src@ =~= s0.skip(i + 1));
            i = i + 1;
        }
    }
    proof {
        assert(s0.take(i) =~= s0);
        lemma_tbl_remove_get(s0, k@, k@);
    }
    *t = out;
    proof {
        assert forall|k2: Seq<char>| k2 != k@ implies tbl_get(t@, k2) == tbl_get(s0, k2) by {
            lemma_tbl_remove_get(s0, k@, k2);
        }
    }
}

/// Whether one of the names equals `k`.
pub fn names_has(v: &Vec<String>, k: &str) -> (r: bool)
    ensures
        r == exists|i: int| 0 <= i < v@.len() && v@[i]@ == k@,
{
    let n: usize = v.len();
    let mut i: usize = 0;
    while i < n
        invariant
            n == v@.len(),
            i <= n,
            forall|j: int| 0 <= j < i ==> v@[j]@ != k@,
        decreases n - i,
    {
        if str_eq(v[i].as_str(), k) {
            return true;
        }
        i = i + 1;
    }
    false
}

} // verus!
