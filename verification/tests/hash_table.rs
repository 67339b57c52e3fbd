use chos_lib::intrusive::hash_table::{DefaultState, HashTable, LinkAlreadyAcquiredError, O0, O4};
use chos_lib::intrusive::list::AtomicLink;

fn links(n: usize) -> Vec<AtomicLink> {
    (0..n).map(|_| AtomicLink::new()).collect()
}

fn values(table: &HashTable<O4>, links: &Vec<AtomicLink>) -> Vec<usize> {
    let mut it = table.iter(links);
    let mut v = Vec::new();
    while let Some(x) = it.next(links) {
        v.push(x);
    }
    v.sort_unstable();
    v
}

#[test]
fn hash_table_insert_find() {
    let mut links = links(4);
    let keys = vec![10u64, 11, 12, 13];
    let mut table = HashTable::<O4>::new();
    for v in 0..3 {
        assert_eq!(table.try_insert(&mut links, &keys, v), Ok(()));
    }
    assert!(links[0].is_linked() && links[1].is_linked() && links[2].is_linked());
    assert!(!links[3].is_linked());
    assert_eq!(table.find(&links, &keys, 11).get(), Some(1));
    assert_eq!(table.find(&links, &keys, 10).get(), Some(0));
    assert!(table.find(&links, &keys, 13).get().is_none());
    assert!(!table.find(&links, &keys, 13).is_valid());
    assert_eq!(values(&table, &links), vec![0, 1, 2]);
}

#[test]
fn hash_table_insert_twice_fails() {
    let mut links = links(2);
    let keys = vec![1u64, 2];
    let mut table = HashTable::<O4>::new();
    table.insert(&mut links, &keys, 0);
    assert_eq!(table.try_insert(&mut links, &keys, 0), Err(LinkAlreadyAcquiredError));
    assert_eq!(values(&table, &links), vec![0]);
}

#[test]
fn hash_table_latest_of_equal_keys_found_first() {
    let mut links = links(3);
    let keys = vec![7u64, 7, 8];
    let mut table = HashTable::<O4>::new();
    table.insert(&mut links, &keys, 0);
    table.insert(&mut links, &keys, 1);
    assert_eq!(table.find(&links, &keys, 7).get(), Some(1));
    assert_eq!(table.remove(&mut links, &keys, 7), Some(1));
    assert_eq!(table.find(&links, &keys, 7).get(), Some(0));
}

#[test]
fn hash_table_unlink() {
    let mut links = links(3);
    let keys = vec![0u64, 1, 2];
    let mut table = HashTable::<O4>::new();
    for v in 0..3 {
        table.insert(&mut links, &keys, v);
    }
    assert_eq!(table.remove(&mut links, &keys, 1), Some(1));
    assert_eq!(table.remove(&mut links, &keys, 1), None);
    assert!(!links[1].is_linked());
    assert_eq!(values(&table, &links), vec![0, 2]);
    let pos = table.find(&links, &keys, 2).position();
    assert_eq!(table.unlink(&mut links, pos), Some(2));
    assert_eq!(values(&table, &links), vec![0]);
    let pos = table.cursor().position();
    assert_eq!(table.unlink(&mut links, pos), None);
}

#[test]
fn hash_table_single_bucket_chain() {
    let mut links = links(4);
    let keys = vec![1u64, 2, 3, 4];
    let mut table = HashTable::<O0>::with_state(DefaultState);
    for v in 0..4 {
        table.insert(&mut links, &keys, v);
    }
    let mut c = table.front(&links);
    let mut seen = Vec::new();
    while c.is_valid() {
        seen.push(c.get().unwrap());
        c.move_next(&links);
    }
    assert_eq!(seen, vec![3, 2, 1, 0]);
    assert_eq!(table.remove(&mut links, &keys, 2), Some(1));
    assert_eq!(table.remove(&mut links, &keys, 4), Some(3));
    assert_eq!(table.remove(&mut links, &keys, 1), Some(0));
    assert_eq!(table.find(&links, &keys, 3).get(), Some(2));
}

#[test]
fn hash_table_clear() {
    let mut links = links(3);
    let keys = vec![5u64, 6, 7];
    let mut table = HashTable::<O4>::new();
    for v in 0..3 {
        table.insert(&mut links, &keys, v);
    }
    table.clear(&mut links);
    assert!(links.iter().all(|l| !l.is_linked()));
    assert!(values(&table, &links).is_empty());
    assert!(!table.front(&links).is_valid());
}

#[test]
fn hash_table_fast_clear() {
    let mut links = links(3);
    let keys = vec![5u64, 6, 7];
    let mut table = HashTable::<O4>::new();
    for v in 0..3 {
        table.insert(&mut links, &keys, v);
    }
    table.fast_clear();
    assert!(links.iter().all(|l| l.is_linked()));
    assert!(values(&table, &links).is_empty());
}

#[test]
fn default_state_hash_is_siphash() {
    // SipHash-2-4 of the little-endian bytes of the key, keyed with the default key.
    let s = DefaultState;
    assert_eq!(s.hash_one(0), 0x8917808ad4b4a6a1);
    assert_eq!(s.hash_one(1), 0x6a84d76977df3b05);
    assert_eq!(s.hash_one(11), 0x363dd0bda6a3671e);
}
