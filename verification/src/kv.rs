//! Ordered association lists with string keys: the entry and action tables
//! of menu-entry files. Lookup takes the first binding; the tables this
//! library builds keep their keys unique.

use vstd::prelude::*;
use vstd::string::StringExecFns;
use crate::text;

verus! {

/// First value bound to `k`, scanning from the front.
pub open spec fn kv_lookup<V>(s: Seq<(String, V)>, k: Seq<char>) -> Option<V>
    decreases s.len(),
{
    if s.len() == 0 {
        None
    } else if s[0].0@ == k {
        Some(s[0].1)
    } else {
        kv_lookup(s.drop_first(), k)
    }
}

pub open spec fn kv_contains<V>(s: Seq<(String, V)>, k: Seq<char>) -> bool {
    kv_lookup(s, k) is Some
}

/// No key occurs twice.
pub open spec fn kv_unique<V>(s: Seq<(String, V)>) -> bool {
    forall|i: int, j: int| 0 <= i < j < s.len() ==> s[i].0@ != s[j].0@
}

pub proof fn lemma_kv_lookup_at<V>(s: Seq<(String, V)>, k: Seq<char>, i: int)
    requires
        0 <= i < s.len(),
        s[i].0@ == k,
        forall|j: int| 0 <= j < i ==> s[j].0@ != k,
    ensures
        kv_lookup(s, k) == Some(s[i].1),
    decreases s.len(),
{
    if i > 0 {
        lemma_kv_lookup_at(s.drop_first(), k, i - 1);
    }
}

pub proof fn lemma_kv_lookup_none<V>(s: Seq<(String, V)>, k: Seq<char>)
    requires
        forall|j: int| 0 <= j < s.len() ==> s[j].0@ != k,
    ensures
        kv_lookup(s, k) is None,
    decreases s.len(),
{
    if s.len() > 0 {
        lemma_kv_lookup_none(s.drop_first(), k);
    }
}

/// An absent key is absent at every position.
pub proof fn lemma_kv_lookup_none_all<V>(s: Seq<(String, V)>, k: Seq<char>)
    requires
        kv_lookup(s, k) is None,
    ensures
        forall|j: int| 0 <= j < s.len() ==> s[j].0@ != k,
    decreases s.len(),
{
    if s.len() > 0 {
        lemma_kv_lookup_none_all(s.drop_first(), k);
        assert forall|j: int| 0 <= j < s.len() implies s[j].0@ != k by {
            if j > 0 {
                assert(s.drop_first()[j - 1] == s[j]);
            }
        }
    }
}

pub proof fn lemma_kv_update<V>(s: Seq<(String, V)>, i: int, pair: (String, V), k2: Seq<char>)
    requires
        0 <= i < s.len(),
        s[i].0@ == pair.0@,
        forall|j: int| 0 <= j < i ==> s[j].0@ != pair.0@,
    ensures
        kv_lookup(s.update(i, pair), pair.0@) == Some(pair.1),
        k2 != pair.0@ ==> kv_lookup(s.update(i, pair), k2) == kv_lookup(s, k2),
    decreases s.len(),
{
    let t = s.update(i, pair);
    if i == 0 {
        assert(t[0] == pair);
        assert(t.drop_first() =~= s.drop_first());
    } else {
        assert(t[0] == s[0]);
        assert(t.drop_first() =~= s.drop_first().update(i - 1, pair));
        lemma_kv_update(s.drop_first(), i - 1, pair, k2);
    }
}

pub proof fn lemma_kv_push<V>(s: Seq<(String, V)>, pair: (String, V), k2: Seq<char>)
    ensures
        kv_lookup(s, pair.0@) is None ==> kv_lookup(s.push(pair), pair.0@) == Some(pair.1),
        k2 != pair.0@ ==> kv_lookup(s.push(pair), k2) == kv_lookup(s, k2),
    decreases s.len(),
{
    let t = s.push(pair);
    if s.len() == 0 {
        assert(t[0] == pair);
        assert(t.drop_first() =~= Seq::<(String, V)>::empty());
    } else {
        assert(t[0] == s[0]);
        assert(t.drop_first() =~= s.drop_first().push(pair));
        lemma_kv_push(s.drop_first(), pair, k2);
    }
}

/// Index of the binding of `key`, if there is one.
pub fn kv_find<V>(s: &Vec<(String, V)>, key: &str) -> (r: Option<usize>)
    ensures
        match r {
            Some(i) => i < s@.len() && s@[i as int].0@ == key@ && (forall|j: int|
                0 <= j < i ==> s@[j].0@ != key@) && kv_lookup(s@, key@) == Some(s@[i as int].1),
            None => kv_lookup(s@, key@) is None,
        },
{
    let n = s.len();
    let mut i: usize = 0;
    while i < n
        invariant
            i <= n,
            n == s@.len(),
            forall|j: int| 0 <= j < i ==> s@[j].0@ != key@,
        decreases n - i,
    {
        let p = &s[i];
        if text::string_eq(&p.0, key) {
            proof {
                lemma_kv_lookup_at(s@, key@, i as int);
            }
            return Some(i);
        }
        i += 1;
    }
    proof {
        lemma_kv_lookup_none(s@, key@);
    }
    None
}

/// Borrow the value bound to `key`, if any.
pub fn kv_get<'a, V>(s: &'a Vec<(String, V)>, key: &str) -> (r: Option<&'a V>)
    ensures
        match r {
            Some(v) => kv_lookup(s@, key@) == Some(*v),
            None => kv_lookup(s@, key@) is None,
        },
{
    match kv_find(s, key) {
        Some(i) => Some(&s[i].1),
        None => None,
    }
}

/// Bind `key` to `val`, replacing an existing binding in place or appending
/// a new one; every other key keeps its value, and unique keys stay unique.
pub fn kv_set<V>(s: &mut Vec<(String, V)>, key: &str, val: V)
    ensures
        kv_lookup(final(s)@, key@) == Some(val),
        forall|k2: Seq<char>| k2 != key@ ==> kv_lookup(final(s)@, k2) == kv_lookup(old(s)@, k2),
        kv_unique(old(s)@) ==> kv_unique(final(s)@),
        final(s)@.len() <= old(s)@.len() + 1,
{
    let ks = String::from_str(key);
    match kv_find(s, key) {
        Some(i) => {
            let elem = &mut s[i];
            *elem = (ks, val);
            proof {
                assert forall|k2: Seq<char>| k2 != key@ implies kv_lookup(final(s)@, k2)
                    == kv_lookup(old(s)@, k2) by {
                    lemma_kv_update(old(s)@, i as int, (ks, val), k2);
                }
                lemma_kv_update(old(s)@, i as int, (ks, val), key@);
                assert(kv_unique(old(s)@) ==> kv_unique(final(s)@)) by {
                    if kv_unique(old(s)@) {
                        assert(forall|j: int|
                            0 <= j < final(s)@.len() ==> final(s)@[j].0@ == old(s)@[j].0@);
                    }
                }
            }
        },
        None => {
            proof {
                lemma_kv_lookup_none_all(s@, key@);
            }
            let ghost pre = s@;
            s.push((ks, val));
            proof {
                assert forall|k2: Seq<char>| k2 != key@ implies kv_lookup(final(s)@, k2)
                    == kv_lookup(old(s)@, k2) by {
                    lemma_kv_push(pre, (ks, val), k2);
                }
                lemma_kv_push(pre, (ks, val), key@);
                assert(kv_unique(old(s)@) ==> kv_unique(final(s)@)) by {
                    if kv_unique(pre) {
                        assert forall|i: int, j: int|
                            0 <= i < j < final(s)@.len() implies final(s)@[i].0@
                            != final(s)@[j].0@ by {
                            if j < pre.len() {
                            } else {
                                assert(final(s)@[j].0@ == key@);
                                assert(pre[i].0@ != key@);
                            }
                        }
                    }
                }
            }
        },
    }
}

} // verus!
