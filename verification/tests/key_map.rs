use phala_types::key_map::KeyMap;
use phala_types::primitives::Public;

fn key(first: u8, last: u8) -> Public {
    let mut bytes = [0u8; 32];
    bytes[0] = first;
    bytes[31] = last;
    Public(bytes)
}

#[test]
fn new_map_is_empty() {
    let m: KeyMap<u32> = KeyMap::new();
    assert!(m.is_empty());
    assert_eq!(m.len(), 0);
    assert_eq!(m.get(&key(1, 1)), None);
}

#[test]
fn get_after_insert_gives_value() {
    let mut m = KeyMap::new();
    assert_eq!(m.insert(key(3, 0), 30u32), None);
    assert_eq!(m.insert(key(1, 0), 10), None);
    assert_eq!(m.get(&key(3, 0)), Some(&30));
    assert_eq!(m.get(&key(1, 0)), Some(&10));
    assert_eq!(m.get(&key(2, 0)), None);
    assert_eq!(m.len(), 2);
}

#[test]
fn insert_of_present_key_replaces_value() {
    let mut m = KeyMap::new();
    m.insert(key(1, 1), 1u32);
    m.insert(key(2, 2), 2);
    assert_eq!(m.insert(key(1, 1), 5), Some(1));
    assert_eq!(m.get(&key(1, 1)), Some(&5));
    assert_eq!(m.get(&key(2, 2)), Some(&2));
    assert_eq!(m.len(), 2);
}

#[test]
fn entries_come_in_ascending_key_order() {
    let mut m = KeyMap::new();
    for (k, v) in [(key(5, 0), 'e'), (key(1, 9), 'a'), (key(1, 2), 'b'), (key(255, 0), 'z'), (key(3, 3), 'c')] {
        m.insert(k, v);
    }
    let keys: Vec<Public> = m.entries().iter().map(|(k, _)| *k).collect();
    assert_eq!(keys, vec![key(1, 2), key(1, 9), key(3, 3), key(5, 0), key(255, 0)]);
}

#[test]
fn clone_keeps_entries() {
    let mut m = KeyMap::new();
    m.insert(key(2, 0), vec![1u8]);
    m.insert(key(1, 0), vec![2u8, 3]);
    let c = m.clone();
    assert_eq!(c, m);
    assert_eq!(c.entries()[0].0, key(1, 0));
}
