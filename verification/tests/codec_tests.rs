use utilities::codec::{get_typed, set_typed, Codec, TypedGetError};
use utilities::store::KvStore;

#[test]
fn raw_bytes_codec_round_trips() {
    let payload: Vec<u8> = vec![1, 2, 3];
    let encoded = payload.encode();
    assert_eq!(encoded, vec![1, 2, 3]);
    let decoded = <Vec<u8> as Codec>::decode(&encoded).unwrap();
    assert_eq!(decoded, payload);
    // The raw codec decodes every payload: any bytes are their own encoding.
    assert!(<Vec<u8> as Codec>::decode(&vec![0, 255, 7]).is_some());
}

#[test]
fn typed_round_trip_through_the_store() {
    let mut store = KvStore::new();
    let payload: Vec<u8> = vec![9, 8, 7];
    set_typed(&mut store, String::from("k"), &payload, None, 0);
    let back: Vec<u8> = get_typed(&store, &String::from("k"), 5).ok().unwrap();
    assert_eq!(back, payload);
}

#[test]
fn typed_get_missing_key_is_not_found() {
    let store = KvStore::new();
    let r: Result<Vec<u8>, TypedGetError> = get_typed(&store, &String::from("missing"), 0);
    assert_eq!(r, Err(TypedGetError::NotFound));
}

#[test]
fn typed_get_respects_leases() {
    let mut store = KvStore::new();
    set_typed(&mut store, String::from("k"), &vec![1u8], Some(10), 0);
    assert!(get_typed::<Vec<u8>>(&store, &String::from("k"), 9).is_ok());
    assert_eq!(
        get_typed::<Vec<u8>>(&store, &String::from("k"), 10),
        Err(TypedGetError::NotFound)
    );
}
