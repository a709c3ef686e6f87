use vstd::prelude::*;

use crate::assoc::{Assoc, Key};
use crate::laws::law_put_then_get;

verus! {

/// A new map holds nothing. The number of entries is that of the keys.
pub proof fn law_new_map_is_empty<K: Key, V: View>(
    new: Assoc<K, V>,
    map: &Assoc<K, V>,
    n: usize,
    k: K::V,
)
    requires
        call_ensures(Assoc::<K, V>::new, (), new),
        call_ensures(Assoc::<K, V>::len, (map,), n),
    ensures
        new@.wf() && new@.keys.len() == 0 && !new@.map.contains_key(k),
        n == map@.keys.len(),
{
}

/// What is stored under a key is found under it, and what was there before is handed back. Under
/// any other key the same is found as before.
pub proof fn law_stored_values_are_found<K: Key, V: View>(
    map: &mut Assoc<K, V>,
    k: K,
    v: V,
    replaced: Option<V>,
    asked: &K,
    before: Option<&V>,
    after: Option<&V>,
)
    requires
        old(map)@.wf(),
        call_ensures(Assoc::<K, V>::get, (&*old(map), asked), before),
        call_ensures(Assoc::<K, V>::insert, (map, k, v), replaced),
        call_ensures(Assoc::<K, V>::get, (&*final(map), asked), after),
    ensures
        final(map)@.wf(),
        asked@ == k@ ==> {
            &&& after matches Some(w) && w@ == v@
            &&& before is Some <==> replaced is Some
            &&& before matches Some(w) ==> w@ == replaced->0@
        },
        asked@ != k@ ==> {
            &&& before is Some <==> after is Some
            &&& before matches Some(w) ==> w@ == after->0@
        },
        !old(map)@.map.contains_key(k@) ==> final(map)@.keys == old(map)@.keys.push(k@),
        old(map)@.map.contains_key(k@) ==> final(map)@.keys == old(map)@.keys,
{
    law_put_then_get(old(map)@, k@, v@, asked@);
    assert(old(map)@.keys.contains(k@) == old(map)@.map.contains_key(k@));
}

/// What is taken out is handed back and not found any more. Under any other key the same is found
/// as before.
pub proof fn law_removed_values_are_gone<K: Key, V: View>(
    map: &mut Assoc<K, V>,
    k: &K,
    taken: Option<V>,
    asked: &K,
    before: Option<&V>,
    after: Option<&V>,
)
    requires
        old(map)@.wf(),
        call_ensures(Assoc::<K, V>::get, (&*old(map), asked), before),
        call_ensures(Assoc::<K, V>::remove, (map, k), taken),
        call_ensures(Assoc::<K, V>::get, (&*final(map), asked), after),
    ensures
        final(map)@.wf(),
        asked@ == k@ ==> {
            &&& after is None
            &&& before is Some <==> taken is Some
            &&& before matches Some(w) ==> w@ == taken->0@
        },
        asked@ != k@ ==> {
            &&& before is Some <==> after is Some
            &&& before matches Some(w) ==> w@ == after->0@
        },
        final(map)@.keys == old(map)@.without(k@).keys,
{
    old(map)@.lemma_without_wf(k@);
}

/// The entry at a position has the key there and the value that is found under it. A key is found
/// at its position, if it has one.
pub proof fn law_entries_are_found<K: Key, V: View>(
    map: &Assoc<K, V>,
    i: usize,
    e: (&K, &V),
    asked: &K,
    r: Option<&V>,
    position: Option<usize>,
)
    requires
        map@.wf(),
        i < map@.keys.len(),
        call_ensures(Assoc::<K, V>::at, (map, i), e),
        call_ensures(Assoc::<K, V>::get, (map, asked), r),
        call_ensures(Assoc::<K, V>::position, (map, asked), position),
    ensures
        e.0@ == map@.keys[i as int],
        e.1@ == map@.map[e.0@],
        e.0@ == asked@ ==> (r matches Some(v) && v@ == e.1@),
        position is Some <==> map@.map.contains_key(asked@),
        position matches Some(p) ==> p < map@.keys.len() && map@.keys[p as int] == asked@,
        r is Some <==> map@.map.contains_key(asked@),
        r matches Some(v) ==> v@ == map@.map[asked@],
{
    assert(map@.keys.contains(asked@) == map@.map.contains_key(asked@));
    if let Some(p) = position {
        assert(map@.keys.contains(map@.keys[p as int]));
    }
}

} // verus!
