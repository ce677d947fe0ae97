use clutch::storage::store::{
    account_key, batch_key, batch_number_key, block_height_key, block_key, nonce_key, receipt_key, state_root_key,
    Store,
};

#[test]
fn open_gives_an_empty_store() {
    let s = Store::open("./anywhere").expect("open never fails");
    assert_eq!(s.get(b"x"), None);
    assert!(s.scan_prefix(b"").is_empty());
}

#[test]
fn get_after_put_gives_the_value() {
    let mut s = Store::open("db").unwrap();
    s.put(b"acct:a", vec![1, 2, 3]);
    assert_eq!(s.get(b"acct:a"), Some(vec![1, 2, 3]));
    s.put(b"acct:a", vec![9]);
    assert_eq!(s.get(b"acct:a"), Some(vec![9]));
}

#[test]
fn put_leaves_other_keys_alone() {
    let mut s = Store::open("db").unwrap();
    s.put(b"a", vec![1]);
    s.put(b"b", vec![2]);
    s.put(b"a", vec![3]);
    assert_eq!(s.get(b"b"), Some(vec![2]));
    assert_eq!(s.get(b"c"), None);
}

#[test]
fn delete_removes_only_its_key() {
    let mut s = Store::open("db").unwrap();
    s.put(b"a", vec![1]);
    s.put(b"b", vec![2]);
    s.delete(b"a");
    assert_eq!(s.get(b"a"), None);
    assert_eq!(s.get(b"b"), Some(vec![2]));
    s.delete(b"missing");
    assert_eq!(s.get(b"b"), Some(vec![2]));
}

#[test]
fn scan_prefix_gives_matching_values_in_key_order() {
    let mut s = Store::open("db").unwrap();
    s.put(&block_key(2), vec![2]);
    s.put(b"acct:x", vec![7]);
    s.put(&block_key(1), vec![1]);
    s.put(b"blocker", vec![8]);
    assert_eq!(s.scan_prefix(b"block:"), vec![vec![1], vec![2]]);
    assert_eq!(s.scan_prefix(b"acct:"), vec![vec![7]]);
    assert_eq!(s.scan_prefix(b"nothing"), Vec::<Vec<u8>>::new());
}

#[test]
fn keys_are_as_the_node_writes_them() {
    assert_eq!(account_key("abc"), b"acct:abc".to_vec());
    assert_eq!(block_key(255), b"block:00000000000000ff".to_vec());
    assert_eq!(block_key(u64::MAX), b"block:ffffffffffffffff".to_vec());
    assert_eq!(batch_key(0x1a), b"batch:000000000000001a".to_vec());
    assert_eq!(receipt_key("sig"), b"receipt:sig".to_vec());
    assert_eq!(nonce_key("k"), b"nonce:k".to_vec());
    assert_eq!(state_root_key(), b"meta:state_root".to_vec());
    assert_eq!(block_height_key(), b"meta:block_height".to_vec());
    assert_eq!(batch_number_key(), b"meta:batch_number".to_vec());
}

#[test]
fn block_keys_sort_in_block_order() {
    let mut s = Store::open("db").unwrap();
    for n in [300u64, 5, 17] {
        s.put(&block_key(n), n.to_le_bytes().to_vec());
    }
    let values: Vec<u64> = s
        .scan_prefix(b"block:")
        .into_iter()
        .map(|v| u64::from_le_bytes(v.try_into().unwrap()))
        .collect();
    assert_eq!(values, vec![5, 17, 300]);
}
