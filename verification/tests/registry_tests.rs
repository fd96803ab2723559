use app_registry::{Config, Counter, Error, Name, Registry};

fn cfg() -> Config {
    Config {
        string_limit: 10,
        number_limit: 100,
        app_owner_limit: 2,
        review_owner_limit: 3,
        review_owner_by_app_limit: 4,
        max_account: 3,
        content_limit: 64,
        max_star: 10,
    }
}

const ALICE: u64 = 1;
const BOB: u64 = 2;
const CAROL: u64 = 3;

fn compact_len(n: u32) -> Vec<u8> {
    if n < 0x40 {
        vec![(n as u8) << 2]
    } else if n < 0x4000 {
        let m = ((n as u16) << 2) | 1;
        m.to_le_bytes().to_vec()
    } else if n < 0x4000_0000 {
        ((n << 2) | 2).to_le_bytes().to_vec()
    } else {
        let mut out = vec![3u8];
        out.extend_from_slice(&n.to_le_bytes());
        out
    }
}

fn field(bytes: &[u8]) -> Vec<u8> {
    let mut out = compact_len(bytes.len() as u32);
    out.extend_from_slice(bytes);
    out
}

fn expected_app_key(id: u32, name: &[u8], symbol: &[u8], owner: u64, created_at: u64) -> Vec<u8> {
    let mut enc = id.to_le_bytes().to_vec();
    enc.extend_from_slice(&field(name));
    enc.extend_from_slice(&field(symbol));
    enc.extend_from_slice(&owner.to_le_bytes());
    enc.extend_from_slice(&created_at.to_le_bytes());
    enc.push(0); // star: None
    sp_core_hashing::blake2_256(&enc).to_vec()
}

fn expected_review_key(
    app_ref: &[u8],
    star: u32,
    title: &[u8],
    cons: &[u8],
    pros: &[u8],
    owner: u64,
    created_at: u64,
) -> Vec<u8> {
    let mut enc = app_ref.to_vec();
    enc.push(1); // star: Some
    enc.extend_from_slice(&star.to_le_bytes());
    enc.extend_from_slice(&field(title));
    enc.extend_from_slice(&field(cons));
    enc.extend_from_slice(&field(pros));
    enc.extend_from_slice(&owner.to_le_bytes());
    enc.extend_from_slice(&created_at.to_le_bytes());
    sp_core_hashing::blake2_256(&enc).to_vec()
}

fn expected_reviewer_key(entropy: &[u8], counter: u64) -> Vec<u8> {
    let mut enc = field(entropy);
    enc.extend_from_slice(&counter.to_le_bytes());
    sp_core_hashing::blake2_256(&enc).to_vec()
}

#[test]
fn create_app_then_get_returns_inputs() {
    let mut r = Registry::new(cfg());
    let (key, id) = r
        .create_app(ALICE, b"AppOne".to_vec(), b"A1".to_vec(), 7)
        .unwrap();
    assert_eq!(id, 0);
    let app = r.apps.get(&key).unwrap();
    assert_eq!(app.id(), 0);
    assert_eq!(app.name(), b"AppOne".to_vec());
    assert_eq!(app.symbol(), b"A1".to_vec());
    assert_eq!(app.owner(), ALICE);
    assert_eq!(app.created_at(), 7);
    assert_eq!(app.star(), None);
}

#[test]
fn create_app_key_is_canonical_content_hash() {
    let mut r = Registry::new(cfg());
    let (key, id) = r
        .create_app(ALICE, b"AppOne".to_vec(), b"A1".to_vec(), 7)
        .unwrap();
    assert_eq!(key, expected_app_key(id, b"AppOne", b"A1", ALICE, 7));
    assert_eq!(key.len(), 32);
}

#[test]
fn create_app_owner_capacity_scenario() {
    // StringLimit = 10, AppOwnerLimit = 2
    let mut r = Registry::new(cfg());
    let (_, id1) = r
        .create_app(ALICE, b"AppOne".to_vec(), b"A1".to_vec(), 7)
        .unwrap();
    assert_eq!(id1, 0);
    let (_, id2) = r
        .create_app(ALICE, b"AppTwoX".to_vec(), b"A2".to_vec(), 8)
        .unwrap();
    assert_eq!(id2, 1);
    let res = r.create_app(ALICE, b"AppThree".to_vec(), b"A3".to_vec(), 9);
    assert_eq!(res, Err(Error::CapacityError));
    assert_eq!(r.apps_count.next(), 2);
    assert_eq!(r.next_app_id.next(), 2);
    let would_be = expected_app_key(2, b"AppThree", b"A3", ALICE, 9);
    assert!(r.apps.get(&would_be).is_none());
}

#[test]
fn create_app_accepts_empty_fields() {
    let mut r = Registry::new(cfg());
    let (key, id) = r.create_app(ALICE, Vec::new(), Vec::new(), 0).unwrap();
    assert_eq!(id, 0);
    assert_eq!(key, expected_app_key(0, b"", b"", ALICE, 0));
    let app = r.apps.get(&key).unwrap();
    assert_eq!(app.name(), Vec::<u8>::new());
    assert_eq!(app.symbol(), Vec::<u8>::new());
}

#[test]
fn create_app_accepts_fields_at_the_limit() {
    // StringLimit = 10
    let mut r = Registry::new(cfg());
    let name = vec![110u8; 10];
    let symbol = vec![115u8; 10];
    let (key, _) = r.create_app(ALICE, name.clone(), symbol.clone(), 7).unwrap();
    let app = r.apps.get(&key).unwrap();
    assert_eq!(app.name(), name);
    assert_eq!(app.symbol(), symbol);
}

#[test]
fn create_app_rejects_long_fields() {
    let mut r = Registry::new(cfg());
    let res = r.create_app(ALICE, b"ElevenChars".to_vec(), b"A1".to_vec(), 7);
    assert_eq!(res, Err(Error::ValidationError));
    let res = r.create_app(ALICE, b"AppOne".to_vec(), b"ElevenChars".to_vec(), 7);
    assert_eq!(res, Err(Error::ValidationError));
    assert_eq!(r.apps_count.next(), 0);
    assert_eq!(r.next_app_id.next(), 0);
}

#[test]
fn create_app_fails_at_counter_maximum() {
    let mut r = Registry::new(cfg());
    r.next_app_id = Counter::starting_at(u32::MAX);
    let res = r.create_app(ALICE, b"AppOne".to_vec(), b"A1".to_vec(), 7);
    assert_eq!(res, Err(Error::ArithmeticOverflow));
    assert_eq!(r.apps_count.next(), 0);
    assert_eq!(r.next_app_id.next(), u32::MAX);

    let mut r = Registry::new(cfg());
    r.apps_count = Counter::starting_at(u32::MAX);
    let res = r.create_app(ALICE, b"AppOne".to_vec(), b"A1".to_vec(), 7);
    assert_eq!(res, Err(Error::ArithmeticOverflow));
    assert_eq!(r.apps_count.next(), u32::MAX);
    assert_eq!(r.next_app_id.next(), 0);
}

#[test]
fn create_app_rejects_content_collision() {
    let mut r = Registry::new(cfg());
    let (key, _) = r
        .create_app(ALICE, b"AppOne".to_vec(), b"A1".to_vec(), 7)
        .unwrap();
    // replay the identifier allocation so the same content derives the same key
    r.next_app_id = Counter::starting_at(0);
    let res = r.create_app(ALICE, b"AppOne".to_vec(), b"A1".to_vec(), 7);
    assert_eq!(res, Err(Error::DuplicateError));
    assert!(r.apps.get(&key).is_some());
}

#[test]
fn update_app_by_owner_replaces_fields() {
    let mut r = Registry::new(cfg());
    let (key, _) = r
        .create_app(ALICE, b"AppOne".to_vec(), b"A1".to_vec(), 7)
        .unwrap();
    r.update_app(ALICE, &key, b"AppNew".to_vec(), b"N1".to_vec())
        .unwrap();
    let app = r.apps.get(&key).unwrap();
    assert_eq!(app.name(), b"AppNew".to_vec());
    assert_eq!(app.symbol(), b"N1".to_vec());
    assert_eq!(app.id(), 0);
    assert_eq!(app.owner(), ALICE);
    assert_eq!(app.created_at(), 7);
}

#[test]
fn update_app_rejects_non_owner() {
    let mut r = Registry::new(cfg());
    let (key, _) = r
        .create_app(ALICE, b"AppOne".to_vec(), b"A1".to_vec(), 7)
        .unwrap();
    let res = r.update_app(BOB, &key, b"AppNew".to_vec(), b"N1".to_vec());
    assert_eq!(res, Err(Error::AuthorizationError));
    let app = r.apps.get(&key).unwrap();
    assert_eq!(app.name(), b"AppOne".to_vec());
    assert_eq!(app.symbol(), b"A1".to_vec());
}

#[test]
fn update_app_rejects_long_fields() {
    let mut r = Registry::new(cfg());
    let (key, _) = r
        .create_app(ALICE, b"AppOne".to_vec(), b"A1".to_vec(), 7)
        .unwrap();
    let res = r.update_app(ALICE, &key, b"ElevenChars".to_vec(), b"N1".to_vec());
    assert_eq!(res, Err(Error::ValidationError));
    let app = r.apps.get(&key).unwrap();
    assert_eq!(app.name(), b"AppOne".to_vec());
}

#[test]
fn update_app_absent_key_not_found() {
    let mut r = Registry::new(cfg());
    let key = vec![0u8; 32];
    let res = r.update_app(ALICE, &key, b"AppNew".to_vec(), b"N1".to_vec());
    assert_eq!(res, Err(Error::NotFoundError));
}

#[test]
fn create_review_stores_and_indexes() {
    let mut r = Registry::new(cfg());
    let (app_key, _) = r
        .create_app(BOB, b"AppOne".to_vec(), b"A1".to_vec(), 7)
        .unwrap();
    let key = r
        .create_review(
            ALICE,
            9,
            &app_key,
            b"title".to_vec(),
            b"cons".to_vec(),
            b"pros".to_vec(),
            11,
        )
        .unwrap();
    assert_eq!(
        key,
        expected_review_key(&app_key, 9, b"title", b"cons", b"pros", ALICE, 11)
    );
    let review = r.reviews.get(&key).unwrap();
    assert_eq!(review.app_ref, app_key);
    assert_eq!(review.star, Some(9));
    assert_eq!(review.title, b"title".to_vec());
    assert_eq!(review.cons, b"cons".to_vec());
    assert_eq!(review.pros, b"pros".to_vec());
    assert_eq!(review.owner, ALICE);
    assert_eq!(review.created_at, 11);
    let by_app = r.reviews_by_app.get(&app_key).unwrap();
    assert_eq!(by_app.len(), 1);
    assert_eq!(by_app.index(0), &key);
}

#[test]
fn create_review_rejects_star_above_maximum() {
    // MaxStar = 10
    let mut r = Registry::new(cfg());
    let (app_key, _) = r
        .create_app(BOB, b"AppOne".to_vec(), b"A1".to_vec(), 7)
        .unwrap();
    let res = r.create_review(
        ALICE,
        11,
        &app_key,
        b"title".to_vec(),
        b"cons".to_vec(),
        b"pros".to_vec(),
        11,
    );
    assert_eq!(res, Err(Error::ValidationError));
    assert!(r.reviews_by_app.get(&app_key).is_none());
    let would_be = expected_review_key(&app_key, 11, b"title", b"cons", b"pros", ALICE, 11);
    assert!(r.reviews.get(&would_be).is_none());
}

#[test]
fn create_review_rejects_own_app() {
    let mut r = Registry::new(cfg());
    let (app_key, _) = r
        .create_app(BOB, b"AppOne".to_vec(), b"A1".to_vec(), 7)
        .unwrap();
    let res = r.create_review(
        BOB,
        9,
        &app_key,
        b"title".to_vec(),
        b"cons".to_vec(),
        b"pros".to_vec(),
        11,
    );
    assert_eq!(res, Err(Error::AuthorizationError));
    assert!(r.reviews_by_app.get(&app_key).is_none());
}

#[test]
fn create_review_absent_app_not_found() {
    let mut r = Registry::new(cfg());
    let app_key = vec![9u8; 32];
    let res = r.create_review(
        ALICE,
        9,
        &app_key,
        b"title".to_vec(),
        b"cons".to_vec(),
        b"pros".to_vec(),
        11,
    );
    assert_eq!(res, Err(Error::NotFoundError));
    assert!(r.reviews_by_app.get(&app_key).is_none());
}

#[test]
fn create_review_rejects_long_content() {
    let mut r = Registry::new(cfg());
    let (app_key, _) = r
        .create_app(BOB, b"AppOne".to_vec(), b"A1".to_vec(), 7)
        .unwrap();
    let long = vec![7u8; 65]; // ContentLimit = 64
    let res = r.create_review(
        ALICE,
        9,
        &app_key,
        long,
        b"cons".to_vec(),
        b"pros".to_vec(),
        11,
    );
    assert_eq!(res, Err(Error::ValidationError));
}

#[test]
fn create_review_owner_index_capacity() {
    let mut config = cfg();
    config.review_owner_limit = 1;
    let mut r = Registry::new(config);
    let (app_one, _) = r
        .create_app(BOB, b"AppOne".to_vec(), b"A1".to_vec(), 7)
        .unwrap();
    let (app_two, _) = r
        .create_app(BOB, b"AppTwoX".to_vec(), b"A2".to_vec(), 8)
        .unwrap();
    r.create_review(
        ALICE,
        9,
        &app_one,
        b"title".to_vec(),
        b"cons".to_vec(),
        b"pros".to_vec(),
        11,
    )
    .unwrap();
    let res = r.create_review(
        ALICE,
        9,
        &app_two,
        b"title".to_vec(),
        b"cons".to_vec(),
        b"pros".to_vec(),
        12,
    );
    assert_eq!(res, Err(Error::CapacityError));
    assert!(r.reviews_by_app.get(&app_two).is_none());
}

#[test]
fn create_review_relation_index_capacity() {
    let mut config = cfg();
    config.review_owner_by_app_limit = 1;
    let mut r = Registry::new(config);
    let (app_key, _) = r
        .create_app(BOB, b"AppOne".to_vec(), b"A1".to_vec(), 7)
        .unwrap();
    r.create_review(
        ALICE,
        9,
        &app_key,
        b"title".to_vec(),
        b"cons".to_vec(),
        b"pros".to_vec(),
        11,
    )
    .unwrap();
    let res = r.create_review(
        CAROL,
        8,
        &app_key,
        b"title".to_vec(),
        b"cons".to_vec(),
        b"pros".to_vec(),
        12,
    );
    assert_eq!(res, Err(Error::CapacityError));
    let by_app = r.reviews_by_app.get(&app_key).unwrap();
    assert_eq!(by_app.len(), 1);
}

#[test]
fn create_reviewer_stores_profile_under_derived_key() {
    let mut r = Registry::new(cfg());
    let entropy = vec![42u8; 32];
    let key = r
        .create_reviewer(ALICE, Name::new(b"alice".to_vec()), Some(4), &entropy, 100)
        .unwrap();
    assert_eq!(key, expected_reviewer_key(&entropy, 100));
    let reviewer = r.reviewers.get(&key).unwrap();
    assert_eq!(reviewer.id, key);
    assert_eq!(reviewer.name.bytes(), &b"alice".to_vec());
    assert_eq!(reviewer.star, Some(4));
    assert_eq!(reviewer.owner, ALICE);
    assert_eq!(r.count_reviewers.next(), 1);
}

#[test]
fn create_reviewer_rejects_duplicate_key() {
    let mut r = Registry::new(cfg());
    let entropy = vec![42u8; 32];
    r.create_reviewer(ALICE, Name::new(b"alice".to_vec()), Some(4), &entropy, 100)
        .unwrap();
    let res = r.create_reviewer(BOB, Name::new(b"bob".to_vec()), None, &entropy, 100);
    assert_eq!(res, Err(Error::DuplicateError));
    assert_eq!(r.count_reviewers.next(), 1);
}

#[test]
fn create_reviewer_rejects_long_name() {
    let mut r = Registry::new(cfg());
    let entropy = vec![42u8; 32];
    let name = Name::new(vec![97u8; 21]); // limit is 20 bytes
    let res = r.create_reviewer(ALICE, name, None, &entropy, 100);
    assert_eq!(res, Err(Error::ValidationError));
    assert_eq!(r.count_reviewers.next(), 0);
}

#[test]
fn create_reviewer_owner_index_capacity() {
    let mut config = cfg();
    config.max_account = 1;
    let mut r = Registry::new(config);
    r.create_reviewer(
        ALICE,
        Name::new(b"alice".to_vec()),
        None,
        &vec![1u8; 8],
        100,
    )
    .unwrap();
    let res = r.create_reviewer(
        ALICE,
        Name::new(b"alice2".to_vec()),
        None,
        &vec![2u8; 8],
        101,
    );
    assert_eq!(res, Err(Error::CapacityError));
    assert_eq!(r.count_reviewers.next(), 1);
}

#[test]
fn create_reviewer_fails_at_counter_maximum() {
    let mut r = Registry::new(cfg());
    r.count_reviewers = Counter::starting_at(u32::MAX);
    let entropy = vec![42u8; 32];
    let res = r.create_reviewer(ALICE, Name::new(b"alice".to_vec()), None, &entropy, 100);
    assert_eq!(res, Err(Error::ArithmeticOverflow));
    assert!(r.reviewers.get(&expected_reviewer_key(&entropy, 100)).is_none());
}

#[test]
fn update_reviewer_by_owner_replaces_fields() {
    let mut r = Registry::new(cfg());
    let entropy = vec![42u8; 32];
    let key = r
        .create_reviewer(ALICE, Name::new(b"alice".to_vec()), Some(4), &entropy, 100)
        .unwrap();
    r.update_reviewer(ALICE, &key, Name::new(b"renamed".to_vec()), Some(9))
        .unwrap();
    let reviewer = r.reviewers.get(&key).unwrap();
    assert_eq!(reviewer.name.bytes(), &b"renamed".to_vec());
    assert_eq!(reviewer.star, Some(9));
    assert_eq!(reviewer.id, key);
    assert_eq!(reviewer.owner, ALICE);
}

#[test]
fn update_reviewer_rejects_non_owner() {
    let mut r = Registry::new(cfg());
    let entropy = vec![42u8; 32];
    let key = r
        .create_reviewer(ALICE, Name::new(b"alice".to_vec()), Some(4), &entropy, 100)
        .unwrap();
    let res = r.update_reviewer(BOB, &key, Name::new(b"renamed".to_vec()), Some(9));
    assert_eq!(res, Err(Error::AuthorizationError));
    let reviewer = r.reviewers.get(&key).unwrap();
    assert_eq!(reviewer.name.bytes(), &b"alice".to_vec());
    assert_eq!(reviewer.star, Some(4));
}

#[test]
fn update_reviewer_absent_key_not_found() {
    let mut r = Registry::new(cfg());
    let key = vec![0u8; 32];
    let res = r.update_reviewer(ALICE, &key, Name::new(b"renamed".to_vec()), None);
    assert_eq!(res, Err(Error::NotFoundError));
}
