use vstd::prelude::*;

verus! {

/// No two entries share a key, compared as character sequences.
pub open spec fn nodup_keys<V>(s: Seq<(String, V)>) -> bool {
    forall|i: int, j: int|
        0 <= i < j < s.len() ==> (#[trigger] s[i].0)@ != (#[trigger] s[j].0)@
}

/// The finite map an association list denotes: later entries win.
pub open spec fn assoc_map<V>(s: Seq<(String, V)>) -> Map<Seq<char>, V>
    decreases s.len(),
{
    if s.len() == 0 {
        Map::empty()
    } else {
        assoc_map(s.drop_last()).insert(s.last().0@, s.last().1)
    }
}

/// A key under which no entry stands is not in the map.
pub proof fn lemma_assoc_absent<V>(s: Seq<(String, V)>, k: Seq<char>)
    requires
        forall|i: int| 0 <= i < s.len() ==> (#[trigger] s[i].0)@ != k,
    ensures
        !assoc_map(s).contains_key(k),
    decreases s.len(),
{
    if s.len() > 0 {
        lemma_assoc_absent(s.drop_last(), k);
    }
}

/// Under distinct keys, entry `i` gives the map's value at its key.
pub proof fn lemma_assoc_found<V>(s: Seq<(String, V)>, i: int)
    requires
        nodup_keys(s),
        0 <= i < s.len(),
    ensures
        assoc_map(s).contains_key(s[i].0@),
        assoc_map(s)[s[i].0@] == s[i].1,
    decreases s.len(),
{
    if i < s.len() - 1 {
        lemma_assoc_found(s.drop_last(), i);
    }
}

/// Appending an entry inserts its binding.
pub proof fn lemma_assoc_push<V>(s: Seq<(String, V)>, key: String, v: V)
    ensures
        assoc_map(s.push((key, v))) == assoc_map(s).insert(key@, v),
{
    let t = s.push((key, v));
    assert(t.drop_last() =~= s);
    assert(t.last() == (key, v));
}

/// Removing entry `i` removes its binding and keeps the keys distinct.
pub proof fn lemma_assoc_remove<V>(s: Seq<(String, V)>, i: int)
    requires
        nodup_keys(s),
        0 <= i < s.len(),
    ensures
        nodup_keys(s.remove(i)),
        assoc_map(s.remove(i)) == assoc_map(s).remove(s[i].0@),
    decreases s.len(),
{
    let k = s[i].0@;
    if i == s.len() - 1 {
        assert(s.remove(i) =~= s.drop_last());
        lemma_assoc_absent(s.drop_last(), k);
        assert(assoc_map(s.drop_last()) =~= assoc_map(s.drop_last()).insert(k, s[i].1).remove(k));
    } else {
        let d = s.drop_last();
        let last = s.last();
        lemma_assoc_remove(d, i);
        assert(s.remove(i) =~= d.remove(i).push(last));
        lemma_assoc_push(d.remove(i), last.0, last.1);
        // the removed key differs from the last entry's key
        assert(k != last.0@);
        assert(assoc_map(d).remove(k).insert(last.0@, last.1) =~= assoc_map(d).insert(
            last.0@,
            last.1,
        ).remove(k));
    }
}

/// Finds the entry whose key equals `key`, if any.
pub fn find_index<V>(v: &Vec<(String, V)>, key: &String) -> (r: Option<usize>)
    ensures
        match r {
            Some(i) => i < v@.len() && v@[i as int].0@ == key@,
            None => forall|i: int| 0 <= i < v@.len() ==> (#[trigger] v@[i].0)@ != key@,
        },
{
    let mut j: usize = 0;
    while j < v.len()
        invariant
            j <= v@.len(),
            forall|i: int| 0 <= i < j ==> (#[trigger] v@[i].0)@ != key@,
        decreases v@.len() - j,
    {
        if v[j].0 == *key {
            return Some(j);
        }
        j = j + 1;
    }
    None
}

} // verus!
