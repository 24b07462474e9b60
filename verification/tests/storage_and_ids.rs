use std::collections::HashMap;

use callback_bot::ids::{fresh_key, uuid_text};
use callback_bot::utils::ObjectStorage;

#[test]
fn uuid_text_is_hyphenated_lower_case() {
    let text = uuid_text(0x550e8400e29b41d4a716446655440000u128);
    assert_eq!(text, "550e8400-e29b-41d4-a716-446655440000");
    assert_eq!(uuid_text(0), "00000000-0000-0000-0000-000000000000");
    assert_eq!(uuid_text(u128::MAX), "ffffffff-ffff-ffff-ffff-ffffffffffff");
}

#[test]
fn storage_insert_get_remove() {
    let mut storage: ObjectStorage<&str> = ObjectStorage::new();
    let a = storage.insert("first");
    let b = storage.insert("second");
    assert_ne!(a, b);
    assert_eq!(storage.get(a), Some(&"first"));
    assert_eq!(storage.get(b), Some(&"second"));
    assert_eq!(storage.remove(&a), Some("first"));
    assert_eq!(storage.get(a), None);
    assert_eq!(storage.remove(&a), None);
    assert_eq!(storage.get(b), Some(&"second"));
}

#[test]
fn storage_keys_are_version_four_uuids() {
    let mut storage: ObjectStorage<u8> = ObjectStorage::new();
    for i in 0..20u8 {
        let id = storage.insert(i);
        assert_eq!((id >> 76) & 0xf, 4);
        assert_eq!((id >> 62) & 0x3, 2);
        assert_eq!(storage.get(id), Some(&i));
    }
}

#[test]
fn storage_get_mut_writes_through() {
    let mut storage: ObjectStorage<Vec<u32>> = ObjectStorage::new();
    let id = storage.insert(vec![1]);
    if let Some(v) = storage.get_mut(&id) {
        v.push(2);
    }
    assert_eq!(storage.get(id), Some(&vec![1, 2]));
    assert!(storage.get_mut(&id.wrapping_add(1)).is_none());
}

#[test]
fn fresh_key_avoids_taken_keys() {
    let mut map: HashMap<u128, ()> = HashMap::new();
    for k in 0..100u128 {
        map.insert(k, ());
    }
    for _ in 0..50 {
        let k = fresh_key(&map);
        assert!(!map.contains_key(&k));
        map.insert(k, ());
    }
}
