use rand::Rng;
use std::cell::RefCell;
use stabby_abi::allocation::collections::arc_btree::{ArcBTreeMap, ArcBTreeSet};

fn insert_matches_sorted_vec() {
    let mut rng = rand::thread_rng();
    for _ in 0..1000 {
        let mut vec: Vec<u64> = Vec::new();
        let mut btree: ArcBTreeSet<u64, (), false, 5> = ArcBTreeSet::new_in(());
        for _ in 0..rng.gen_range(0..800) {
            let val = rng.gen_range(0..100u64);
            if vec.binary_search(&val).is_ok() {
                assert_eq!(btree.insert(val), Some(val));
            } else {
                vec.push(val);
                vec.sort();
                assert_eq!(
                    btree.insert(val),
                    None,
                    "The BTree contained an unexpected value: {:?}, {:?}",
                    btree.values(),
                    vec
                );
            }
        }
        vec.sort();
        assert_eq!(vec.len(), btree.len());
        let iter = RefCell::new(vec.into_iter());
        btree.for_each(&|i: &u64| assert_eq!(Some(*i), iter.borrow_mut().next()));
        assert_eq!(iter.borrow_mut().next(), None);
    }
}

#[test]
fn btree_insert_libc() {
    insert_matches_sorted_vec();
}

#[test]
fn btree_insert_rs() {
    insert_matches_sorted_vec();
}

#[test]
fn btree_get_and_empty() {
    let mut set: ArcBTreeSet<u64, (), false, 3> = ArcBTreeSet::new_in(());
    assert!(set.is_empty());
    assert_eq!(set.len(), 0);
    assert_eq!(set.get(3), None);
    for v in [5u64, 1, 9, 3, 7, 2, 8] {
        assert_eq!(set.insert(v), None);
    }
    assert!(!set.is_empty());
    assert_eq!(set.get(9), Some(&9));
    assert_eq!(set.get(4), None);
    assert_eq!(set.len(), 7);
}

#[test]
fn btree_map_replaces_values() {
    let mut map: ArcBTreeMap<&str, (), 5> = ArcBTreeMap::new_in(());
    assert_eq!(map.insert(3, "three"), None);
    assert_eq!(map.insert(1, "one"), None);
    assert_eq!(map.insert(3, "drei"), Some("three"));
    assert_eq!(map.get(3), Some(&"drei"));
    assert_eq!(map.get(1), Some(&"one"));
    assert_eq!(map.get(2), None);
}

#[test]
fn btree_clone_keeps_its_contents() {
    let mut set: ArcBTreeSet<u64, (), false, 3> = ArcBTreeSet::new_in(());
    for v in [4u64, 8, 15, 16, 23, 42] {
        set.insert(v);
    }
    let snapshot = set.clone();
    assert_eq!(set.insert(5), None);
    assert_eq!(set.insert(1), None);
    assert_eq!(set.len(), 8);
    assert_eq!(snapshot.len(), 6);
    assert_eq!(snapshot.get(5), None);
    let values: Vec<u64> = snapshot.values().into_iter().copied().collect();
    assert_eq!(values, vec![4, 8, 15, 16, 23, 42]);

    let mut map: ArcBTreeMap<u32, (), 5> = ArcBTreeMap::new_in(());
    assert_eq!(map.insert(1, 10), None);
    assert_eq!(map.insert(2, 20), None);
    let before = map.clone();
    assert_eq!(map.insert(1, 11), Some(10));
    assert_eq!(map.insert(3, 30), None);
    assert_eq!(map.get(1), Some(&11));
    assert_eq!(before.get(1), Some(&10));
    assert_eq!(before.get(3), None);
    assert_eq!(before.get(2), Some(&20));
}

#[test]
fn btree_len_counts_distinct_keys() {
    let mut set: ArcBTreeSet<u64, (), true, 3> = ArcBTreeSet::new_in(());
    assert!(set.is_empty());
    for v in [5u64, 1, 5, 3, 1, 9, 3] {
        set.insert(v);
    }
    assert!(!set.is_empty());
    assert_eq!(set.len(), 4);
    let values: Vec<u64> = set.values().into_iter().copied().collect();
    assert_eq!(values, vec![1, 3, 5, 9]);
}

#[test]
fn btree_map_clone_clones_values() {
    let mut map: ArcBTreeMap<std::string::String, (), 3> = ArcBTreeMap::new_in(());
    for k in 0..10u64 {
        map.insert(k, format!("v{k}"));
    }
    let copy = map.clone();
    map.insert(3, std::string::String::from("changed"));
    assert_eq!(copy.get(3).map(|s| s.as_str()), Some("v3"));
    assert_eq!(map.get(3).map(|s| s.as_str()), Some("changed"));
    for k in 0..10u64 {
        assert_eq!(copy.get(k), Some(&format!("v{k}")));
    }
}

#[test]
fn btree_map_get_follows_last_insert() {
    let mut map: ArcBTreeMap<char, (), 3> = ArcBTreeMap::new_in(());
    let pairs = [(5u64, 'a'), (2, 'b'), (5, 'c'), (7, 'd'), (2, 'e'), (9, 'f'), (1, 'g')];
    for (k, v) in pairs {
        map.insert(k, v);
    }
    assert_eq!(map.get(5), Some(&'c'));
    assert_eq!(map.get(2), Some(&'e'));
    assert_eq!(map.get(7), Some(&'d'));
    assert_eq!(map.get(9), Some(&'f'));
    assert_eq!(map.get(1), Some(&'g'));
    assert_eq!(map.get(3), None);
}
