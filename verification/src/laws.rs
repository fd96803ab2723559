use vstd::prelude::*;
use crate::errors::Error;
use crate::types::{AppV, NAME_LIMIT};
use crate::registry::{Registry, create_app_err, update_app_err, create_review_err,
    create_reviewer_err, update_reviewer_err};
use crate::encode::le_bytes_u64;
use crate::hashing::{app_key, reviewer_key};

verus! {

// The laws of the registry, stated over the same spec functions that the
// operations' contracts use. Each operation already guarantees that a failed
// call leaves the registry exactly as it was (`*final(self) == *old(self)` in
// its contract) and that its result matches its error function; the lemmas
// here pin down what those error functions decide and what a committed
// creation leaves behind.

/// After a successful `create_app`, looking the returned key up in the app
/// store yields a record whose fields equal the caller's inputs and whose
/// owner is the caller.
pub proof fn lemma_create_app_then_get(
    pre: Registry,
    post: Registry,
    caller: u64,
    name: Seq<u8>,
    symbol: Seq<u8>,
    now: u64,
    key: Seq<u8>,
    id: u32,
)
    requires
        id == pre.next_app_id.val(),
        key == app_key(id, name, symbol, caller, now),
        post.apps@ == pre.apps@.insert(
            key,
            (AppV { id, name, symbol, owner: caller, created_at: now, star: Option::None }),
        ),
    ensures
        post.apps@.contains_key(key),
        post.apps@[key].id == id,
        post.apps@[key].name == name,
        post.apps@[key].symbol == symbol,
        post.apps@[key].owner == caller,
        post.apps@[key].created_at == now,
        post.apps@[key].star is None,
{
}

/// A successful `create_app` grows the caller's owner index by exactly one
/// entry, so after `AppOwnerLimit` successes the index holds `AppOwnerLimit`
/// keys.
pub proof fn lemma_create_app_success_growth(pre: Registry, post: Registry, caller: u64, key:
    Seq<u8>)
    requires
        post.app_owner@ == pre.app_owner@.insert(
            le_bytes_u64(caller),
            pre.app_owned(caller).push(key),
        ),
    ensures
        post.app_owned(caller).len() == pre.app_owned(caller).len() + 1,
{
}

/// Once a caller's owner index is at `AppOwnerLimit`, a further `create_app`
/// with valid fields fails with `CapacityError`; by `create_app`'s contract
/// the failed call changes neither the entity store nor the counters.
pub proof fn lemma_create_app_at_capacity(
    s: Registry,
    caller: u64,
    name: Seq<u8>,
    symbol: Seq<u8>,
    now: u64,
)
    requires
        name.len() <= (s.cfg.string_limit as int),
        symbol.len() <= (s.cfg.string_limit as int),
        s.app_owned(caller).len() >= (s.cfg.app_owner_limit as int),
    ensures
        create_app_err(s, caller, name, symbol, now) == Option::Some(Error::CapacityError),
{
}

/// With either global counter at its representable maximum, `create_app`
/// fails with `ArithmeticOverflow`; by its contract no entity is stored.
pub proof fn lemma_create_app_counter_overflow(
    s: Registry,
    caller: u64,
    name: Seq<u8>,
    symbol: Seq<u8>,
    now: u64,
)
    requires
        name.len() <= (s.cfg.string_limit as int),
        symbol.len() <= (s.cfg.string_limit as int),
        s.app_owned(caller).len() < (s.cfg.app_owner_limit as int),
        s.next_app_id.val() == u32::MAX || s.apps_count.val() == u32::MAX,
    ensures
        create_app_err(s, caller, name, symbol, now) == Option::Some(Error::ArithmeticOverflow),
{
}

/// With its counter at the representable maximum, `create_reviewer` fails
/// with `ArithmeticOverflow`; by its contract no profile is stored.
pub proof fn lemma_create_reviewer_counter_overflow(
    s: Registry,
    caller: u64,
    name: Seq<u8>,
    entropy: Seq<u8>,
    counter: u64,
)
    requires
        name.len() <= (NAME_LIMIT as int),
        !s.reviewers@.contains_key(reviewer_key(entropy, counter)),
        s.count_reviewers.val() == u32::MAX,
    ensures
        create_reviewer_err(s, caller, name, entropy, counter) == Option::Some(
            Error::ArithmeticOverflow,
        ),
{
}

/// `update_app` invoked by anyone but the recorded owner fails with
/// `AuthorizationError`; by its contract the stored entity is byte-identical
/// before and after the call.
pub proof fn lemma_update_app_not_owner(
    s: Registry,
    caller: u64,
    key: Seq<u8>,
    name: Seq<u8>,
    symbol: Seq<u8>,
)
    requires
        s.apps@.contains_key(key),
        s.apps@[key].owner != caller,
    ensures
        update_app_err(s, caller, key, name, symbol) == Option::Some(Error::AuthorizationError),
{
}

/// `update_reviewer` invoked by anyone but the recorded owner fails with
/// `AuthorizationError`; by its contract the stored profile is byte-identical
/// before and after the call.
pub proof fn lemma_update_reviewer_not_owner(s: Registry, caller: u64, id: Seq<u8>, name: Seq<
    u8>)
    requires
        s.reviewers@.contains_key(id),
        s.reviewers@[id].owner != caller,
    ensures
        update_reviewer_err(s, caller, id, name) == Option::Some(Error::AuthorizationError),
{
}

/// `create_review` by the reviewed app's own owner fails with
/// `AuthorizationError`; by its contract no store or index changes.
pub proof fn lemma_review_of_own_app_refused(
    s: Registry,
    caller: u64,
    star: u32,
    app_ref: Seq<u8>,
    title: Seq<u8>,
    cons: Seq<u8>,
    pros: Seq<u8>,
    now: u64,
)
    requires
        s.apps@.contains_key(app_ref),
        s.apps@[app_ref].owner == caller,
    ensures
        create_review_err(s, caller, star, app_ref, title, cons, pros, now) == Option::Some(
            Error::AuthorizationError,
        ),
{
}

/// `create_review` against a key that resolves to no app fails with
/// `NotFoundError`; by its contract no store or index changes.
pub proof fn lemma_review_of_absent_app_refused(
    s: Registry,
    caller: u64,
    star: u32,
    app_ref: Seq<u8>,
    title: Seq<u8>,
    cons: Seq<u8>,
    pros: Seq<u8>,
    now: u64,
)
    requires
        !s.apps@.contains_key(app_ref),
    ensures
        create_review_err(s, caller, star, app_ref, title, cons, pros, now) == Option::Some(
            Error::NotFoundError,
        ),
{
}

} // verus!
