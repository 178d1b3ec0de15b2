//! Searching a sequence for the first element with a property.

use vstd::prelude::*;

verus! {

/// The index of the first element of `s` for which `p` holds, or the length
/// of `s` when there is none.
pub open spec fn first_where<T>(s: Seq<T>, p: spec_fn(T) -> bool) -> int
    decreases s.len(),
{
    if s.len() == 0 {
        0
    } else if p(s[0]) {
        0
    } else {
        1 + first_where(s.drop_first(), p)
    }
}

pub proof fn lemma_first_where<T>(s: Seq<T>, p: spec_fn(T) -> bool)
    ensures
        0 <= first_where(s, p) <= s.len(),
        forall|j: int| 0 <= j < first_where(s, p) ==> !p(#[trigger] s[j]),
        first_where(s, p) < s.len() ==> p(s[first_where(s, p)]),
    decreases s.len(),
{
    if s.len() > 0 && !p(s[0]) {
        let rest = s.drop_first();
        lemma_first_where(rest, p);
        assert forall|j: int| 0 <= j < first_where(s, p) implies !p(#[trigger] s[j]) by {
            if j > 0 {
                assert(s[j] == rest[j - 1]);
            }
        }
        if first_where(s, p) < s.len() {
            assert(s[first_where(s, p)] == rest[first_where(rest, p)]);
        }
    }
}

/// An index that no earlier match precedes, and that matches unless it is
/// the length, is the first match.
pub proof fn lemma_first_where_is<T>(s: Seq<T>, p: spec_fn(T) -> bool, i: int)
    requires
        0 <= i <= s.len(),
        forall|j: int| 0 <= j < i ==> !p(#[trigger] s[j]),
        i < s.len() ==> p(s[i]),
    ensures
        first_where(s, p) == i,
{
    lemma_first_where(s, p);
    let f = first_where(s, p);
    if f < i {
        assert(!p(s[f]));
    } else if i < f {
        assert(p(s[i]));
    }
}

/// The index of the first element of `s` equal to `x`, or the length of `s`
/// when there is none.
pub open spec fn first_of<T>(s: Seq<T>, x: T) -> int
    decreases s.len(),
{
    if s.len() == 0 {
        0
    } else if s[0] == x {
        0
    } else {
        1 + first_of(s.drop_first(), x)
    }
}

/// An index that no earlier occurrence precedes, and that holds `x` unless
/// it is the length, is the first occurrence.
pub proof fn lemma_first_of_is<T>(s: Seq<T>, x: T, i: int)
    requires
        0 <= i <= s.len(),
        forall|j: int| 0 <= j < i ==> s[j] != x,
        i < s.len() ==> s[i] == x,
    ensures
        first_of(s, x) == i,
    decreases i,
{
    if i > 0 {
        let rest = s.drop_first();
        assert forall|j: int| 0 <= j < i - 1 implies rest[j] != x by {
            assert(rest[j] == s[j + 1]);
        }
        lemma_first_of_is(rest, x, i - 1);
    }
}

pub proof fn lemma_first_of<T>(s: Seq<T>, x: T)
    ensures
        0 <= first_of(s, x) <= s.len(),
        forall|j: int| 0 <= j < first_of(s, x) ==> s[j] != x,
        first_of(s, x) < s.len() ==> s[first_of(s, x)] == x,
    decreases s.len(),
{
    if s.len() > 0 && s[0] != x {
        let rest = s.drop_first();
        lemma_first_of(rest, x);
        assert forall|j: int| 0 <= j < first_of(s, x) implies s[j] != x by {
            if j > 0 {
                assert(s[j] == rest[j - 1]);
            }
        }
        if first_of(s, x) < s.len() {
            assert(s[first_of(s, x)] == rest[first_of(rest, x)]);
        }
    }
}

/// The index of the first pair of `s` whose first part is `key`, or the
/// length of `s` when there is none.
pub open spec fn key_pos<K, V>(s: Seq<(K, V)>, key: K) -> int
    decreases s.len(),
{
    if s.len() == 0 {
        0
    } else if s[0].0 == key {
        0
    } else {
        1 + key_pos(s.drop_first(), key)
    }
}

pub proof fn lemma_key_pos<K, V>(s: Seq<(K, V)>, key: K)
    ensures
        0 <= key_pos(s, key) <= s.len(),
        forall|j: int| 0 <= j < key_pos(s, key) ==> s[j].0 != key,
        key_pos(s, key) < s.len() ==> s[key_pos(s, key)].0 == key,
    decreases s.len(),
{
    if s.len() > 0 && s[0].0 != key {
        let rest = s.drop_first();
        lemma_key_pos(rest, key);
        assert forall|j: int| 0 <= j < key_pos(s, key) implies s[j].0 != key by {
            if j > 0 {
                assert(s[j] == rest[j - 1]);
            }
        }
        if key_pos(s, key) < s.len() {
            assert(s[key_pos(s, key)] == rest[key_pos(rest, key)]);
        }
    }
}

pub proof fn lemma_key_pos_is<K, V>(s: Seq<(K, V)>, key: K, i: int)
    requires
        0 <= i <= s.len(),
        forall|j: int| 0 <= j < i ==> s[j].0 != key,
        i < s.len() ==> s[i].0 == key,
    ensures
        key_pos(s, key) == i,
{
    lemma_key_pos(s, key);
    let f = key_pos(s, key);
    if f < i {
        assert(s[f].0 != key);
    } else if i < f {
        assert(s[i].0 == key);
    }
}

} // verus!
