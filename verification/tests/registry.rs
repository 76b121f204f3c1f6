//! Tests of the `SlotMap` registry and its `MapSlot` handles.

use remux::MapSlot;
use remux::SlotMap;

#[test]
fn map_test() {
    let mut map = SlotMap::<u32, String>::new();

    assert!(map.is_empty());

    let key: u32 = 17;
    let value: String = String::from("seventeen");

    let mut slot: Option<MapSlot<u32>> = None;
    {
        let v = value.clone();
        let entry = map.get_or_insert(key, |s| {
            assert_eq!(s.key(), &key);
            slot = Some(s);
            v
        });
        assert_eq!(*entry, value);
    }

    assert!(!map.is_empty());
    assert_eq!(map.len(), 1);
    assert!(slot.is_some());

    map.get_or_insert(key, |_| panic!("this should never happen!"));

    // Releasing the handle evicts the entry it was minted for.
    slot.take().unwrap().release(&mut map);

    assert!(matches!(map.get(&key), None));
    assert!(map.is_empty());
    assert_eq!(map.len(), 0);

    {
        let v = value.clone();
        map.get_or_insert(key, |s| {
            assert_eq!(s.key(), &key);
            slot = Some(s);
            v
        });
    }

    assert!(!map.is_empty());
    assert_eq!(map.len(), 1);

    map.clear();

    assert!(map.is_empty());
    assert_eq!(map.len(), 0);

    // The handle is stale after the clearing: releasing it is a no-op.
    slot.take().unwrap().release(&mut map);

    assert!(map.is_empty());
    assert_eq!(map.len(), 0);
}

#[test]
fn registry_replace_makes_older_handles_stale() {
    let mut map = SlotMap::<u64, u64>::new();

    let first = map.insert_or_replace(5, 100);
    assert!(first.is_valid(&map));
    assert_eq!(map.get(&5), Some(&100));

    let second = map.insert_or_replace(5, 200);
    assert!(!first.is_valid(&map));
    assert!(second.is_valid(&map));
    assert_eq!(map.get(&5), Some(&200));

    // Releasing the stale handle must not evict the newer binding.
    first.release(&mut map);
    assert_eq!(map.get(&5), Some(&200));
    assert!(second.is_valid(&map));

    // Releasing the current handle evicts it.
    second.release(&mut map);
    assert_eq!(map.get(&5), None);
}

#[test]
fn registry_usize_keys_and_generation_budget() {
    let mut map = SlotMap::<usize, &'static str>::new();
    assert!(map.can_mint());

    let slot = map.insert_or_replace(3, "three");
    assert!(map.contains(&3));
    assert_eq!(map.get(&3), Some(&"three"));

    slot.release(&mut map);
    assert!(!map.contains(&3));
}

#[test]
fn registry_remove_and_get_mut() {
    let mut map = SlotMap::<String, u64>::new();

    let a = String::from("a");
    let b = String::from("b");

    let _sa = map.insert_or_replace(a.clone(), 1);
    let _sb = map.insert_or_replace(b.clone(), 2);
    assert_eq!(map.len(), 2);
    assert!(map.contains(&a));

    *map.get_mut(&a) = 10;
    assert_eq!(map.get(&a), Some(&10));
    assert_eq!(map.get(&b), Some(&2));

    let removed = map.remove(&a);
    assert_eq!(removed, Some((String::from("a"), 10)));
    assert_eq!(map.remove(&a), None);
    assert_eq!(map.len(), 1);
    assert_eq!(map.get(&b), Some(&2));
}
