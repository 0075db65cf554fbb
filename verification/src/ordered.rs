//! Maps in the order of their keys.

use std::collections::BTreeMap;
use vstd::prelude::*;
use vstd::std_specs::cmp::OrdSpec;
use vstd::std_specs::iter::IteratorSpec;

verus! {

/// Whether these are the keys of a map, in their order.
pub open spec fn keys_of<T>(map: Map<u64, T>, keys: Seq<u64>) -> bool {
    &&& forall|i: int, j: int| 0 <= i < j < keys.len() ==> keys[i] < keys[j]
    &&& forall|i: int| 0 <= i < keys.len() ==> map.contains_key(#[trigger] keys[i])
    &&& forall|k: u64| #[trigger] map.contains_key(k) ==> keys.contains(k)
}

/// The keys of a map, in their order.
pub fn keys_in_order<T>(map: &BTreeMap<u64, T>) -> (r: Vec<u64>)
    ensures
        keys_of(map@, r@),
{
    let mut keys: Vec<u64> = Vec::new();
    let all = map.iter();
    assert forall|i: int, j: int| 0 <= i < j < all.remaining().len() implies *(
    #[trigger] all.remaining()[i]).0 < *(#[trigger] all.remaining()[j]).0 by {
        assert(all.remaining().map_values(|kv: (&u64, &T)| *kv.0)[i].cmp_spec(
            &all.remaining().map_values(|kv: (&u64, &T)| *kv.0)[j],
        ) is Less);
    }
    for item in items: all
        invariant
            items.index() <= items.seq().len(),
            forall|i: int, j: int|
                0 <= i < j < items.seq().len() ==> *(#[trigger] items.seq()[i]).0 < *(
                #[trigger] items.seq()[j]).0,
            forall|i: int|
                0 <= i < items.seq().len() ==> map@.contains_key(*(#[trigger] items.seq()[i]).0),
            forall|k: u64| #[trigger]
                map@.contains_key(k) ==> items.seq().contains((&k, &map@[k])),
            keys@.len() == items.index(),
            forall|i: int|
                #![trigger keys@[i]]
                #![trigger items.seq()[i]]
                0 <= i < keys@.len() ==> keys@[i] == *items.seq()[i].0,
    {
        keys.push(*item.0);
    }
    keys
}

/// Remove everything up to and at the key `last`.
pub fn remove_through<T>(map: &mut BTreeMap<u64, T>, last: u64)
    ensures
        final(map)@ == old(map)@.remove_keys(Set::new(|k: u64| k <= last)),
{
    let ghost before = map@;
    let keys: Vec<u64> = keys_in_order(map);
    let mut i: usize = 0;
    while i < keys.len() && keys[i] <= last
        invariant
            i <= keys@.len(),
            keys_of(before, keys@),
            forall|n: int| 0 <= n < i ==> #[trigger] keys@[n] <= last,
            map@.submap_of(before),
            forall|n: int| 0 <= n < i ==> !map@.contains_key(#[trigger] keys@[n]),
            forall|n: int| i <= n < keys@.len() ==> map@.contains_key(#[trigger] keys@[n]),
        decreases keys@.len() - i,
    {
        let _ = map.remove(&keys[i]);
        i = i + 1;
    }
    proof {
        let wanted = before.remove_keys(Set::new(|k: u64| k <= last));
        assert forall|k: u64| #[trigger] map@.contains_key(k) == wanted.contains_key(k) by {
            if before.contains_key(k) {
                let n = choose|n: int| 0 <= n < keys@.len() && keys@[n] == k;
                if i <= n {
                    assert(keys@[i as int] <= keys@[n]);
                }
            }
        }
        assert(map@ =~= wanted);
    }
}

} // verus!
