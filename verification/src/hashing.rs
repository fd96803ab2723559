use vstd::prelude::*;
use crate::encode::{
    le_bytes_u32, le_bytes_u64, enc_bytes, enc_opt_u32, encode_u32, encode_u64, encode_bytes,
    encode_opt_u32,
};

verus! {

// Content Addresser, hashing half: a cryptographic hash turns a canonical
// encoding into a store key. The digest itself is named, not spelled out.

/// The 32-byte Blake2b-256 digest of a byte sequence, a function of the bytes
/// alone.
pub uninterp spec fn blake2_256_of(input: Seq<u8>) -> Seq<u8>;

/// Relies on sp_core_hashing::blake2_256 (a re-export of
/// sp_crypto_hashing::blake2_256): the 32-byte Blake2b digest of the input,
/// deterministic in the input bytes.
#[verifier::external_body]
fn blake2_256(input: &Vec<u8>) -> (r: Vec<u8>)
    ensures
        r@ == blake2_256_of(input@),
        r@.len() == 32,
{
    sp_core_hashing::blake2_256(input.as_slice()).to_vec()
}

/// The canonical encoding of an app record, in declaration order:
/// id, name, symbol, owner, created_at, star.
pub open spec fn app_encoding(
    id: u32,
    name: Seq<u8>,
    symbol: Seq<u8>,
    owner: u64,
    created_at: u64,
    star: Option<u32>,
) -> Seq<u8> {
    le_bytes_u32(id) + enc_bytes(name) + enc_bytes(symbol) + le_bytes_u64(owner) + le_bytes_u64(
        created_at,
    ) + enc_opt_u32(star)
}

/// The content-derived store key of an app record at creation, when its star
/// is still unset.
pub open spec fn app_key(id: u32, name: Seq<u8>, symbol: Seq<u8>, owner: u64, created_at: u64)
    -> Seq<u8> {
    blake2_256_of(app_encoding(id, name, symbol, owner, created_at, Option::None))
}

/// The canonical encoding of a review record, in declaration order: the
/// 32-byte key of the reviewed app, star, title, cons, pros, owner,
/// created_at.
pub open spec fn review_encoding(
    app_ref: Seq<u8>,
    star: Option<u32>,
    title: Seq<u8>,
    cons: Seq<u8>,
    pros: Seq<u8>,
    owner: u64,
    created_at: u64,
) -> Seq<u8> {
    app_ref + enc_opt_u32(star) + enc_bytes(title) + enc_bytes(cons) + enc_bytes(pros)
        + le_bytes_u64(owner) + le_bytes_u64(created_at)
}

/// The content-derived store key of a review record.
pub open spec fn review_key(
    app_ref: Seq<u8>,
    star: Option<u32>,
    title: Seq<u8>,
    cons: Seq<u8>,
    pros: Seq<u8>,
    owner: u64,
    created_at: u64,
) -> Seq<u8> {
    blake2_256_of(review_encoding(app_ref, star, title, cons, pros, owner, created_at))
}

/// The entropy-derived key of a profile record: a hash over an external
/// entropy value and an external monotonic counter value, not over content.
pub open spec fn reviewer_key(entropy: Seq<u8>, counter: u64) -> Seq<u8> {
    blake2_256_of(enc_bytes(entropy) + le_bytes_u64(counter))
}

/// Derives the content-derived key of an app record from its fields.
pub fn derive_app_key(id: u32, owner: u64, name: &Vec<u8>, symbol: &Vec<u8>, created_at: u64) -> (
    r: Vec<u8>)
    requires
        name@.len() <= u32::MAX,
        symbol@.len() <= u32::MAX,
    ensures
        r@ == app_key(id, name@, symbol@, owner, created_at),
        r@.len() == 32,
{
    let mut content = encode_u32(id);
    let mut part = encode_bytes(name);
    content.append(&mut part);
    let mut part = encode_bytes(symbol);
    content.append(&mut part);
    let mut part = encode_u64(owner);
    content.append(&mut part);
    let mut part = encode_u64(created_at);
    content.append(&mut part);
    let star: Option<u32> = None;
    let mut part = encode_opt_u32(&star);
    content.append(&mut part);
    proof {
        assert(content@ == app_encoding(id, name@, symbol@, owner, created_at, Option::None));
    }
    blake2_256(&content)
}

/// Derives the content-derived key of a review record from its fields.
pub fn derive_review_key(
    app_ref: &Vec<u8>,
    star: &Option<u32>,
    title: &Vec<u8>,
    cons: &Vec<u8>,
    pros: &Vec<u8>,
    owner: u64,
    created_at: u64,
) -> (r: Vec<u8>)
    requires
        title@.len() <= u32::MAX,
        cons@.len() <= u32::MAX,
        pros@.len() <= u32::MAX,
    ensures
        r@ == review_key(app_ref@, *star, title@, cons@, pros@, owner, created_at),
        r@.len() == 32,
{
    let mut content = app_ref.clone();
    proof {
        assert(content@ == app_ref@);
    }
    let mut part = encode_opt_u32(star);
    content.append(&mut part);
    let mut part = encode_bytes(title);
    content.append(&mut part);
    let mut part = encode_bytes(cons);
    content.append(&mut part);
    let mut part = encode_bytes(pros);
    content.append(&mut part);
    let mut part = encode_u64(owner);
    content.append(&mut part);
    let mut part = encode_u64(created_at);
    content.append(&mut part);
    proof {
        assert(content@ == review_encoding(app_ref@, *star, title@, cons@, pros@, owner,
            created_at));
    }
    blake2_256(&content)
}

/// Derives the entropy-derived key of a profile record.
pub fn derive_reviewer_key(entropy: &Vec<u8>, counter: u64) -> (r: Vec<u8>)
    requires
        entropy@.len() <= u32::MAX,
    ensures
        r@ == reviewer_key(entropy@, counter),
        r@.len() == 32,
{
    let mut content = encode_bytes(entropy);
    let mut part = encode_u64(counter);
    content.append(&mut part);
    proof {
        assert(content@ == enc_bytes(entropy@) + le_bytes_u64(counter));
    }
    blake2_256(&content)
}

} // verus!
