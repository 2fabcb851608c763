//! Small tables keyed by realm name, kept as lists of entries.
use vstd::prelude::*;

verus! {

/// Entries as plain values.
pub open spec fn entries_view<V>(v: Seq<(String, V)>) -> Seq<(Seq<char>, V)> {
    v.map_values(|p: (String, V)| (p.0@, p.1))
}

/// The value of the first entry with `key`, if any.
pub open spec fn lookup<V>(entries: Seq<(Seq<char>, V)>, key: Seq<char>) -> Option<V>
    decreases entries.len(),
{
    if entries.len() == 0 {
        None
    } else {
        match lookup(entries.drop_last(), key) {
            Some(v) => Some(v),
            None => if entries.last().0 == key {
                Some(entries.last().1)
            } else {
                None
            },
        }
    }
}

/// No two entries have the same key.
pub open spec fn keys_distinct<V>(entries: Seq<(Seq<char>, V)>) -> bool {
    forall|i: int, j: int|
        0 <= i < j < entries.len() ==> #[trigger] entries[i].0 != #[trigger] entries[j].0
}

/// With no entry for `key`, the lookup finds nothing.
pub proof fn lemma_lookup_absent<V>(s: Seq<(Seq<char>, V)>, key: Seq<char>)
    requires
        forall|j: int| 0 <= j < s.len() ==> s[j].0 != key,
    ensures
        lookup(s, key) is None,
    decreases s.len(),
{
    if s.len() > 0 {
        lemma_lookup_absent(s.drop_last(), key);
    }
}

/// The lookup finds the first entry with `key`.
pub proof fn lemma_lookup_first<V>(s: Seq<(Seq<char>, V)>, key: Seq<char>, i: int)
    requires
        0 <= i < s.len(),
        s[i].0 == key,
        forall|j: int| 0 <= j < i ==> s[j].0 != key,
    ensures
        lookup(s, key) == Some(s[i].1),
    decreases s.len(),
{
    if i == s.len() - 1 {
        lemma_lookup_absent(s.drop_last(), key);
    } else {
        lemma_lookup_first(s.drop_last(), key, i);
    }
}

/// Two lists with the same keys, and the same values wherever the key is `key`, give the
/// same lookup for `key`.
proof fn lemma_lookup_same<V>(s: Seq<(Seq<char>, V)>, t: Seq<(Seq<char>, V)>, key: Seq<char>)
    requires
        s.len() == t.len(),
        forall|j: int| 0 <= j < s.len() ==> s[j].0 == t[j].0,
        forall|j: int| 0 <= j < s.len() && s[j].0 == key ==> s[j].1 == t[j].1,
    ensures
        lookup(s, key) == lookup(t, key),
    decreases s.len(),
{
    if s.len() > 0 {
        lemma_lookup_same(s.drop_last(), t.drop_last(), key);
    }
}

/// The index of the first entry with `key`.
pub fn find_entry<V>(v: &Vec<(String, V)>, key: &String) -> (r: Option<usize>)
    ensures
        match r {
            Some(i) => i < v.len() && lookup(entries_view(v@), key@) == Some(v@[i as int].1)
                && v@[i as int].0@ == key@ && forall|j: int|
                0 <= j < i ==> v@[j].0@ != key@,
            None => lookup(entries_view(v@), key@) is None && forall|j: int|
                0 <= j < v.len() ==> v@[j].0@ != key@,
        },
{
    let ghost s = entries_view(v@);
    let mut i: usize = 0;
    while i < v.len()
        invariant
            i <= v.len(),
            s == entries_view(v@),
            forall|j: int| 0 <= j < i ==> v@[j].0@ != key@,
        decreases v.len() - i,
    {
        if v[i].0 == *key {
            proof {
                lemma_lookup_first(s, key@, i as int);
            }
            return Some(i);
        }
        i += 1;
    }
    proof {
        lemma_lookup_absent(s, key@);
    }
    None
}

/// The value for `key`, if there is one.
pub fn get_entry<V: Copy>(v: &Vec<(String, V)>, key: &String) -> (r: Option<V>)
    ensures
        r == lookup(entries_view(v@), key@),
{
    match find_entry(v, key) {
        Some(i) => Some(v[i].1),
        None => None,
    }
}

/// Sets the value for `key`, leaving the other keys alone; it never adds a second entry for
/// a key.
pub fn set_entry<V: Copy>(v: &mut Vec<(String, V)>, key: &String, val: V)
    ensures
        keys_distinct(entries_view(old(v)@)) ==> keys_distinct(entries_view(final(v)@)),
        forall|k: Seq<char>|
            #![trigger lookup(entries_view(final(v)@), k)]
            lookup(entries_view(final(v)@), k) == if k == key@ {
                Some(val)
            } else {
                lookup(entries_view(old(v)@), k)
            },
{
    let ghost s = entries_view(v@);
    match find_entry(v, key) {
        Some(i) => {
            v[i] = (key.clone(), val);
            let ghost t = entries_view(v@);
            assert(t =~= s.update(i as int, (key@, val)));
            assert forall|a: int, b: int| 0 <= a < b < t.len() && keys_distinct(s) implies #[trigger] t[a].0
                != #[trigger] t[b].0 by {
                assert(t[a].0 == s[a].0 && t[b].0 == s[b].0);
            }
            assert forall|k: Seq<char>| #[trigger]
                lookup(t, k) == if k == key@ {
                    Some(val)
                } else {
                    lookup(s, k)
                } by {
                if k == key@ {
                    lemma_lookup_first(t, k, i as int);
                } else {
                    lemma_lookup_same(s, t, k);
                }
            }
        },
        None => {
            v.push((key.clone(), val));
            let ghost t = entries_view(v@);
            assert(t.drop_last() =~= s);
            assert(t.last().0 == key@);
            assert forall|a: int, b: int| 0 <= a < b < t.len() && keys_distinct(s) implies #[trigger] t[a].0
                != #[trigger] t[b].0 by {
                if b == t.len() - 1 {
                    assert(t[a] == s[a]);
                } else {
                    assert(t[a] == s[a] && t[b] == s[b]);
                }
            }
            assert forall|k: Seq<char>| #[trigger]
                lookup(t, k) == if k == key@ {
                    Some(val)
                } else {
                    lookup(s, k)
                } by {
                if k == key@ {
                    lemma_lookup_absent(s, k);
                }
            }
        },
    }
}

} // verus!
