//! Name-keyed association lists: the registries' mapping from metric names
//! to values, modelled as a sequence of pairs with distinct keys.

use vstd::prelude::*;
use vstd::string::*;

verus! {

/// First index holding `key`, if any.
pub open spec fn spec_key_index<V>(s: Seq<(String, V)>, key: Seq<char>) -> Option<int>
    decreases s.len(),
{
    if s.len() == 0 {
        None
    } else if s[0].0@ == key {
        Some(0int)
    } else {
        match spec_key_index(s.drop_first(), key) {
            Some(i) => Some(i + 1),
            None => None,
        }
    }
}

/// The value stored under `key`, if any.
pub open spec fn spec_get<V>(s: Seq<(String, V)>, key: Seq<char>) -> Option<V> {
    match spec_key_index(s, key) {
        Some(i) => Some(s[i].1),
        None => None,
    }
}

/// The list holds `key`.
pub open spec fn has_key<V>(s: Seq<(String, V)>, key: Seq<char>) -> bool {
    spec_key_index(s, key) is Some
}

/// No two entries share a key.
pub open spec fn distinct_keys<V>(s: Seq<(String, V)>) -> bool {
    forall|i: int, j: int| 0 <= i < j < s.len() ==> s[i].0@ != s[j].0@
}

/// Where no entry holds the key, the search yields nothing.
pub proof fn lemma_key_index_absent<V>(s: Seq<(String, V)>, key: Seq<char>)
    requires
        forall|j: int| 0 <= j < s.len() ==> (#[trigger] s[j]).0@ != key,
    ensures
        spec_key_index(s, key) is None,
    decreases s.len(),
{
    if s.len() > 0 {
        let d = s.drop_first();
        assert(forall|j: int| 0 <= j < d.len() ==> (#[trigger] d[j]).0@ != key);
        lemma_key_index_absent(d, key);
    }
}

/// Where the first occurrence of the key sits at `i`, the search finds it.
pub proof fn lemma_key_index_at<V>(s: Seq<(String, V)>, key: Seq<char>, i: int)
    requires
        0 <= i < s.len(),
        s[i].0@ == key,
        forall|j: int| 0 <= j < i ==> (#[trigger] s[j]).0@ != key,
    ensures
        spec_key_index(s, key) == Some(i),
    decreases s.len(),
{
    if i == 0 {
    } else {
        let d = s.drop_first();
        assert(forall|j: int| 0 <= j < i - 1 ==> (#[trigger] d[j]).0@ != key);
        assert(d[i - 1].0@ == key);
        lemma_key_index_at(d, key, i - 1);
    }
}

/// The found index always lies in bounds and holds the key.
pub proof fn lemma_key_index_bounds<V>(s: Seq<(String, V)>, key: Seq<char>)
    requires
        spec_key_index(s, key) is Some,
    ensures
        0 <= spec_key_index(s, key)->0 < s.len(),
        s[spec_key_index(s, key)->0].0@ == key,
    decreases s.len(),
{
    if s.len() > 0 && s[0].0@ != key {
        lemma_key_index_bounds(s.drop_first(), key);
    }
}

/// Two lists with pointwise equal keys search identically.
pub proof fn lemma_key_index_same_keys<V, W>(
    s: Seq<(String, V)>,
    t: Seq<(String, W)>,
    key: Seq<char>,
)
    requires
        s.len() == t.len(),
        forall|j: int| 0 <= j < s.len() ==> (#[trigger] s[j]).0@ == (#[trigger] t[j]).0@,
    ensures
        spec_key_index(s, key) == spec_key_index(t, key),
    decreases s.len(),
{
    if s.len() > 0 {
        assert(s[0].0@ == t[0].0@);
        let ds = s.drop_first();
        let dt = t.drop_first();
        assert(forall|j: int| 0 <= j < ds.len() ==> (#[trigger] ds[j]).0@ == (
        #[trigger] dt[j]).0@);
        lemma_key_index_same_keys(ds, dt, key);
    }
}

/// Appending a fresh key leaves earlier searches unchanged and makes the
/// new key found at the end.
pub proof fn lemma_key_index_push<V>(s: Seq<(String, V)>, key: Seq<char>, e: (String, V))
    ensures
        e.0@ == key ==> spec_key_index(s.push(e), key) == if spec_key_index(s, key) is Some {
            spec_key_index(s, key)
        } else {
            Some(s.len() as int)
        },
        e.0@ != key ==> spec_key_index(s.push(e), key) == spec_key_index(s, key),
    decreases s.len(),
{
    let t = s.push(e);
    if s.len() == 0 {
        assert(t[0] == e);
        if e.0@ != key {
            assert(t.drop_first() =~= Seq::<(String, V)>::empty());
        }
    } else {
        assert(t[0] == s[0]);
        assert(t.drop_first() =~= s.drop_first().push(e));
        lemma_key_index_push(s.drop_first(), key, e);
    }
}

/// Find the entry holding `key`, scanning from the front.
pub fn find_key<V>(v: &Vec<(String, V)>, key: &String) -> (r: Option<usize>)
    ensures
        match r {
            Some(i) => spec_key_index(v@, key@) == Some(i as int) && i < v@.len(),
            None => spec_key_index(v@, key@) is None,
        },
{
    let mut i: usize = 0;
    while i < v.len()
        invariant
            0 <= i <= v@.len(),
            forall|j: int| 0 <= j < i ==> (#[trigger] v@[j]).0@ != key@,
        decreases v@.len() - i,
    {
        if v[i].0 == *key {
            proof {
                lemma_key_index_at(v@, key@, i as int);
            }
            return Some(i);
        }
        i = i + 1;
    }
    proof {
        lemma_key_index_absent(v@, key@);
    }
    None
}

} // verus!
