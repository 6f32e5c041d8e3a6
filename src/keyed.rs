use vstd::prelude::*;

use crate::cid::ConnectionId;

verus! {

/// `s` holds an entry under key `k`.
pub open spec fn has_key<X>(s: Seq<(ConnectionId, X)>, k: ConnectionId) -> bool {
    exists|i: int| 0 <= i < s.len() && (#[trigger] s[i]).0 == k
}

/// No two entries of `s` share a key.
pub open spec fn keys_unique<X>(s: Seq<(ConnectionId, X)>) -> bool {
    forall|i: int, j: int|
        0 <= i < s.len() && 0 <= j < s.len() && (#[trigger] s[i]).0 == (#[trigger] s[j]).0 ==> i == j
}

/// The position of the entry under key `k`; meaningful where `has_key(s, k)`.
pub open spec fn index_of<X>(s: Seq<(ConnectionId, X)>, k: ConnectionId) -> int {
    choose|i: int| 0 <= i < s.len() && (#[trigger] s[i]).0 == k
}

pub proof fn lemma_index_of<X>(s: Seq<(ConnectionId, X)>, k: ConnectionId, i: int)
    requires
        keys_unique(s),
        0 <= i < s.len(),
        s[i].0 == k,
    ensures
        index_of(s, k) == i,
{
    let j = index_of(s, k);
    assert(0 <= j < s.len() && s[j].0 == k);
}

pub proof fn lemma_has_index<X>(s: Seq<(ConnectionId, X)>, k: ConnectionId)
    requires
        has_key(s, k),
    ensures
        0 <= index_of(s, k) < s.len(),
        s[index_of(s, k)].0 == k,
{
}

pub proof fn lemma_push<X>(s: Seq<(ConnectionId, X)>, e: (ConnectionId, X))
    requires
        keys_unique(s),
        !has_key(s, e.0),
    ensures
        keys_unique(s.push(e)),
        forall|q: ConnectionId| #[trigger] has_key(s.push(e), q) <==> (has_key(s, q) || q == e.0),
{
    let t = s.push(e);
    assert forall|q: ConnectionId| has_key(t, q) <==> (has_key(s, q) || q == e.0) by {
        if has_key(s, q) {
            let i = choose|i: int| 0 <= i < s.len() && (#[trigger] s[i]).0 == q;
            assert(t[i] == s[i]);
        }
        if q == e.0 {
            assert(t[s.len() as int] == e);
        }
        if has_key(t, q) {
            let i = choose|i: int| 0 <= i < t.len() && (#[trigger] t[i]).0 == q;
            if i < s.len() {
                assert(t[i] == s[i]);
            }
        }
    }
    assert forall|i: int, j: int|
        0 <= i < t.len() && 0 <= j < t.len() && (#[trigger] t[i]).0 == (#[trigger] t[j]).0 implies i == j by {
        if i < s.len() {
            assert(t[i] == s[i]);
        }
        if j < s.len() {
            assert(t[j] == s[j]);
        }
    }
}

pub proof fn lemma_remove<X>(s: Seq<(ConnectionId, X)>, i: int)
    requires
        keys_unique(s),
        0 <= i < s.len(),
    ensures
        keys_unique(s.remove(i)),
        forall|q: ConnectionId| #[trigger] has_key(s.remove(i), q) <==> (has_key(s, q) && q != s[i].0),
{
    let t = s.remove(i);
    assert forall|q: ConnectionId| has_key(t, q) <==> (has_key(s, q) && q != s[i].0) by {
        if has_key(t, q) {
            let j = choose|j: int| 0 <= j < t.len() && (#[trigger] t[j]).0 == q;
            if j < i {
                assert(t[j] == s[j]);
            } else {
                assert(t[j] == s[j + 1]);
            }
        }
        if has_key(s, q) && q != s[i].0 {
            let j = choose|j: int| 0 <= j < s.len() && (#[trigger] s[j]).0 == q;
            if j < i {
                assert(t[j] == s[j]);
            } else {
                assert(t[j - 1] == s[j]);
            }
        }
    }
    assert forall|a: int, b: int|
        0 <= a < t.len() && 0 <= b < t.len() && (#[trigger] t[a]).0 == (#[trigger] t[b]).0 implies a == b by {
        let a2 = if a < i { a } else { a + 1 };
        let b2 = if b < i { b } else { b + 1 };
        assert(t[a] == s[a2]);
        assert(t[b] == s[b2]);
    }
}

/// Whether `v` holds an entry under key `k`.
pub fn contains_key<X>(v: &Vec<(ConnectionId, X)>, k: &ConnectionId) -> (r: bool)
    ensures
        r == has_key(v@, *k),
{
    match find_key(v, k) {
        Some(_) => true,
        None => false,
    }
}

/// The position of the entry under key `k` in `v`, if there is one.
pub fn find_key<X>(v: &Vec<(ConnectionId, X)>, k: &ConnectionId) -> (r: Option<usize>)
    ensures
        match r {
            Some(i) => i < v@.len() && v@[i as int].0 == *k,
            None => !has_key(v@, *k),
        },
{
    let mut i: usize = 0;
    while i < v.len()
        invariant
            i <= v@.len(),
            forall|j: int| 0 <= j < i ==> (#[trigger] v@[j]).0 != *k,
        decreases v@.len() - i,
    {
        if v[i].0 == *k {
            return Some(i);
        }
        i = i + 1;
    }
    None
}

} // verus!
