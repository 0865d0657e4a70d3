use gremlin_types::codec::{Decode, Encode};
use gremlin_types::entry_map::EntryMap;

fn expected_bytes() -> [u8; 22] {
    [
        0x0a, 0x0, 0x0, 0x0, 0x0, 0x1, 0x01, 0x0, 0x0, 0x0, 0x0, 0x1, 0x3, 0x0, 0x0, 0x0, 0x0, 0x4,
        0x74, 0x65, 0x73, 0x74,
    ]
}

#[test]
fn std_collections_testing_encode_hash_map() {
    let mut map = EntryMap::new();

    map.insert(1, "test".to_owned());

    let mut buf: Vec<u8> = vec![];
    map.encode(&mut buf);

    let msg = expected_bytes();
    assert_eq!(msg[..], buf);
}

#[test]
fn std_collections_testing_decode_hash_map() {
    let mut map = EntryMap::new();

    map.insert(1, "test".to_owned());

    let msg = expected_bytes();
    assert_eq!(map, EntryMap::<i32, String>::decode(&msg[..], 0).unwrap().0);
}

#[test]
fn map_testing_encode_hash_map() {
    let mut map = EntryMap::new();

    map.insert(1, "test".to_owned());

    let mut buf: Vec<u8> = vec![];
    map.encode(&mut buf);

    let msg = [
        0x0a, 0x0, 0x0, 0x0, 0x0, 0x1, 0x01, 0x0, 0x0, 0x0, 0x0, 0x1, 0x3, 0x0, 0x0, 0x0, 0x0, 0x4,
        0x74, 0x65, 0x73, 0x74,
    ];
    assert_eq!(msg[..], buf);
}

#[test]
fn map_testing_decode_hash_map() {
    let mut map = EntryMap::new();

    map.insert(1, "test".to_owned());

    let msg = [
        0x0a, 0x0, 0x0, 0x0, 0x0, 0x1, 0x01, 0x0, 0x0, 0x0, 0x0, 0x1, 0x3, 0x0, 0x0, 0x0, 0x0, 0x4,
        0x74, 0x65, 0x73, 0x74,
    ];
    assert_eq!(map, EntryMap::<i32, String>::decode(&msg[..], 0).unwrap().0);
}

#[test]
fn insert_replaces_the_value_of_a_key() {
    let mut map = EntryMap::new();
    map.insert(1, "a".to_owned());
    map.insert(2, "b".to_owned());
    map.insert(1, "c".to_owned());
    assert_eq!(map.len(), 2);
    assert_eq!(map.get(&1), Some(&"c".to_owned()));
    assert_eq!(map.get(&2), Some(&"b".to_owned()));
    assert_eq!(map.get(&3), None);
    assert_eq!(map.entries, vec![(1, "c".to_owned()), (2, "b".to_owned())]);
}

#[test]
fn a_repeated_key_is_read_as_one_entry() {
    let msg = [
        0x0a, 0x0, 0x0, 0x0, 0x0, 0x2, 0x01, 0x0, 0x0, 0x0, 0x0, 0x1, 0x01, 0x0, 0x0, 0x0, 0x0,
        0x5, 0x01, 0x0, 0x0, 0x0, 0x0, 0x1, 0x01, 0x0, 0x0, 0x0, 0x0, 0x6,
    ];
    let (map, n) = EntryMap::<i32, i32>::decode(&msg[..], 0).unwrap();
    assert_eq!(n, msg.len());
    assert_eq!(map.entries, vec![(1, 6)]);
}

#[test]
fn maps_round_trip() {
    let mut map = EntryMap::new();
    map.insert("x".to_owned(), 10_i64);
    map.insert("y".to_owned(), -1_i64);
    let mut buf = vec![];
    map.encode(&mut buf);
    assert_eq!(EntryMap::<String, i64>::decode(&buf, 0), Ok((map, buf.len())));
}
