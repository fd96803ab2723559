use app_registry::{App, BoundedKeys, Config, Counter, Error, KeyMap, Name, Registry};

#[test]
fn counter_next_does_not_advance() {
    let c = Counter::new();
    assert_eq!(c.next(), 0);
    assert_eq!(c.next(), 0);
}

#[test]
fn counter_advance_increments_by_one() {
    let mut c = Counter::new();
    c.advance().unwrap();
    assert_eq!(c.next(), 1);
    c.advance().unwrap();
    assert_eq!(c.next(), 2);
}

#[test]
fn counter_fails_distinctly_at_maximum() {
    let mut c = Counter::starting_at(u32::MAX);
    assert_eq!(c.advance(), Err(Error::ArithmeticOverflow));
    assert_eq!(c.next(), u32::MAX);
}

#[test]
fn bounded_keys_push_respects_capacity() {
    let mut b = BoundedKeys::new();
    assert_eq!(b.len(), 0);
    b.push(2, vec![1u8]).unwrap();
    b.push(2, vec![2u8]).unwrap();
    assert_eq!(b.push(2, vec![3u8]), Err(Error::CapacityError));
    assert_eq!(b.len(), 2);
    assert_eq!(b.index(0), &vec![1u8]);
    assert_eq!(b.index(1), &vec![2u8]);
}

#[test]
fn bounded_keys_zero_capacity_rejects_first_push() {
    let mut b = BoundedKeys::new();
    assert_eq!(b.push(0, vec![1u8]), Err(Error::CapacityError));
    assert_eq!(b.len(), 0);
}

#[test]
fn key_map_get_put_contains() {
    let mut m: KeyMap<App> = KeyMap::new();
    let k = vec![1u8, 2, 3];
    assert!(!m.contains(&k));
    assert!(m.get(&k).is_none());
    m.put(k.clone(), App::create(5, 1, b"a".to_vec(), b"s".to_vec(), 0));
    assert!(m.contains(&k));
    assert_eq!(m.get(&k).unwrap().id(), 5);
    // overwrite under the same key
    m.put(k.clone(), App::create(9, 1, b"a".to_vec(), b"s".to_vec(), 0));
    assert_eq!(m.get(&k).unwrap().id(), 9);
    let taken = m.take(&k).unwrap();
    assert_eq!(taken.id(), 9);
    assert!(!m.contains(&k));
}

#[test]
fn name_keeps_its_bytes() {
    let n = Name::new(b"someone".to_vec());
    assert_eq!(n.len(), 7);
    assert_eq!(n.bytes(), &b"someone".to_vec());
}

fn wide_cfg() -> Config {
    Config {
        string_limit: 10,
        number_limit: 100,
        app_owner_limit: 2,
        review_owner_limit: 3,
        review_owner_by_app_limit: 4,
        max_account: 3,
        content_limit: 64,
        max_star: 10,
    }
}

#[test]
fn reviewer_key_uses_two_byte_length_prefix_for_long_entropy() {
    // 64 entropy bytes take the two-byte compact length prefix
    let mut r = Registry::new(wide_cfg());
    let entropy = vec![7u8; 64];
    let key = r
        .create_reviewer(1, Name::new(b"alice".to_vec()), None, &entropy, 5)
        .unwrap();
    let mut enc = ((64u16 << 2) | 1).to_le_bytes().to_vec();
    enc.extend_from_slice(&entropy);
    enc.extend_from_slice(&5u64.to_le_bytes());
    assert_eq!(key, sp_core_hashing::blake2_256(&enc).to_vec());
}

#[test]
fn reviewer_key_uses_four_byte_length_prefix_for_huge_entropy() {
    // 0x4000 entropy bytes take the four-byte compact length prefix
    let mut r = Registry::new(wide_cfg());
    let entropy = vec![8u8; 0x4000];
    let key = r
        .create_reviewer(1, Name::new(b"alice".to_vec()), None, &entropy, 5)
        .unwrap();
    let mut enc = ((0x4000u32 << 2) | 2).to_le_bytes().to_vec();
    enc.extend_from_slice(&entropy);
    enc.extend_from_slice(&5u64.to_le_bytes());
    assert_eq!(key, sp_core_hashing::blake2_256(&enc).to_vec());
}

#[test]
fn distinct_content_derives_distinct_app_keys() {
    let mut r = Registry::new(wide_cfg());
    let (key_one, _) = r.create_app(1, b"AppOne".to_vec(), b"A1".to_vec(), 7).unwrap();
    let (key_two, _) = r.create_app(1, b"AppOne".to_vec(), b"A1".to_vec(), 7).unwrap();
    // a fresh id goes into the encoding, so the keys differ
    assert_ne!(key_one, key_two);
}
