use vstd::prelude::*;
use crate::errors::Error;
use crate::counter::Counter;
use crate::store::KeyMap;
use crate::bounded::BoundedKeys;
use crate::types::{App, AppV, Review, ReviewV, Reviewer, ReviewerV, Name, NAME_LIMIT};
use crate::encode::{le_bytes_u64, encode_u64, lemma_le_bytes_u64_injective};
use crate::hashing::{app_key, review_key, reviewer_key, derive_app_key, derive_review_key,
    derive_reviewer_key};

verus! {

/// The externally supplied configuration: every capacity and bound the
/// registry enforces.
#[derive(Clone, Copy, PartialEq, Eq, Structural)]
pub struct Config {
    /// Byte limit on an app's name and symbol.
    pub string_limit: u32,
    /// Global cap on the number of apps.
    pub number_limit: u32,
    /// How many apps one account may own.
    pub app_owner_limit: u32,
    /// How many reviews one account may own.
    pub review_owner_limit: u32,
    /// How many reviews one app may receive.
    pub review_owner_by_app_limit: u32,
    /// How many profiles one account may own.
    pub max_account: u32,
    /// Byte limit on a review's title, cons and pros.
    pub content_limit: u32,
    /// The largest allowed rating.
    pub max_star: u32,
}

/// The keys a bounded index holds under one index key; an absent entry holds
/// none.
pub open spec fn owned_of(m: Map<Seq<u8>, Seq<Seq<u8>>>, k: Seq<u8>) -> Seq<Seq<u8>> {
    if m.contains_key(k) {
        m[k]
    } else {
        Seq::empty()
    }
}

/// Whether a rating is within the configured maximum.
pub open spec fn star_ok(star: Option<u32>, max_star: u32) -> bool {
    match star {
        Option::None => true,
        Option::Some(s) => s <= max_star,
    }
}

/// The failure `create_app` reports for given inputs, in check order, or
/// `None` when the call must succeed.
pub open spec fn create_app_err(
    s: Registry,
    caller: u64,
    name: Seq<u8>,
    symbol: Seq<u8>,
    now: u64,
) -> Option<Error> {
    if name.len() > (s.cfg.string_limit as int) || symbol.len() > (s.cfg.string_limit as int) {
        Option::Some(Error::ValidationError)
    } else if s.app_owned(caller).len() >= (s.cfg.app_owner_limit as int) {
        Option::Some(Error::CapacityError)
    } else if s.next_app_id.val() == u32::MAX || s.apps_count.val() == u32::MAX {
        Option::Some(Error::ArithmeticOverflow)
    } else if s.apps@.contains_key(app_key(s.next_app_id.val(), name, symbol, caller, now)) {
        Option::Some(Error::DuplicateError)
    } else {
        Option::None
    }
}

/// The failure `update_app` reports for given inputs, in check order, or
/// `None` when the call must succeed.
pub open spec fn update_app_err(
    s: Registry,
    caller: u64,
    key: Seq<u8>,
    name: Seq<u8>,
    symbol: Seq<u8>,
) -> Option<Error> {
    if !s.apps@.contains_key(key) {
        Option::Some(Error::NotFoundError)
    } else if s.apps@[key].owner != caller {
        Option::Some(Error::AuthorizationError)
    } else if name.len() > (s.cfg.string_limit as int) || symbol.len() > (
    s.cfg.string_limit as int) {
        Option::Some(Error::ValidationError)
    } else {
        Option::None
    }
}

/// The failure `create_review` reports for given inputs, in check order, or
/// `None` when the call must succeed.
pub open spec fn create_review_err(
    s: Registry,
    caller: u64,
    star: u32,
    app_ref: Seq<u8>,
    title: Seq<u8>,
    cons: Seq<u8>,
    pros: Seq<u8>,
    now: u64,
) -> Option<Error> {
    if !s.apps@.contains_key(app_ref) {
        Option::Some(Error::NotFoundError)
    } else if caller == s.apps@[app_ref].owner {
        Option::Some(Error::AuthorizationError)
    } else if s.review_owned(caller).len() >= (s.cfg.review_owner_limit as int) {
        Option::Some(Error::CapacityError)
    } else if star > s.cfg.max_star {
        Option::Some(Error::ValidationError)
    } else if title.len() > (s.cfg.content_limit as int) || cons.len() > (
    s.cfg.content_limit as int) || pros.len() > (s.cfg.content_limit as int) {
        Option::Some(Error::ValidationError)
    } else if s.reviews_of_app(app_ref).len() >= (s.cfg.review_owner_by_app_limit as int) {
        Option::Some(Error::CapacityError)
    } else if s.reviews@.contains_key(
        review_key(app_ref, Option::Some(star), title, cons, pros, caller, now),
    ) {
        Option::Some(Error::DuplicateError)
    } else {
        Option::None
    }
}

/// The failure `create_reviewer` reports for given inputs, in check order, or
/// `None` when the call must succeed.
pub open spec fn create_reviewer_err(
    s: Registry,
    caller: u64,
    name: Seq<u8>,
    entropy: Seq<u8>,
    counter: u64,
) -> Option<Error> {
    if name.len() > (NAME_LIMIT as int) {
        Option::Some(Error::ValidationError)
    } else if s.reviewers@.contains_key(reviewer_key(entropy, counter)) {
        Option::Some(Error::DuplicateError)
    } else if s.count_reviewers.val() == u32::MAX {
        Option::Some(Error::ArithmeticOverflow)
    } else if s.reviewer_owned(caller).len() >= (s.cfg.max_account as int) {
        Option::Some(Error::CapacityError)
    } else {
        Option::None
    }
}

/// The failure `update_reviewer` reports for given inputs, in check order, or
/// `None` when the call must succeed.
pub open spec fn update_reviewer_err(
    s: Registry,
    caller: u64,
    id: Seq<u8>,
    name: Seq<u8>,
) -> Option<Error> {
    if !s.reviewers@.contains_key(id) {
        Option::Some(Error::NotFoundError)
    } else if s.reviewers@[id].owner != caller {
        Option::Some(Error::AuthorizationError)
    } else if name.len() > (NAME_LIMIT as int) {
        Option::Some(Error::ValidationError)
    } else {
        Option::None
    }
}

/// The registry: entity stores, owner/relation indexes and counters, owned by
/// one service instance and passed to every operation by reference. Owner
/// indexes are keyed by the owning account's eight little-endian key bytes;
/// the relation index is keyed by the reviewed app's store key.
pub struct Registry {
    pub cfg: Config,
    pub apps: KeyMap<App>,
    pub app_owner: KeyMap<BoundedKeys>,
    pub reviews: KeyMap<Review>,
    pub review_owner: KeyMap<BoundedKeys>,
    pub reviews_by_app: KeyMap<BoundedKeys>,
    pub reviewers: KeyMap<Reviewer>,
    pub reviewer_owner: KeyMap<BoundedKeys>,
    pub apps_count: Counter,
    pub next_app_id: Counter,
    pub count_reviewers: Counter,
}

impl Registry {
    /// The app keys one account owns.
    pub open spec fn app_owned(self, a: u64) -> Seq<Seq<u8>> {
        owned_of(self.app_owner@, le_bytes_u64(a))
    }

    /// The review keys one account owns.
    pub open spec fn review_owned(self, a: u64) -> Seq<Seq<u8>> {
        owned_of(self.review_owner@, le_bytes_u64(a))
    }

    /// The review keys that reference one app.
    pub open spec fn reviews_of_app(self, k: Seq<u8>) -> Seq<Seq<u8>> {
        owned_of(self.reviews_by_app@, k)
    }

    /// The profile keys one account owns.
    pub open spec fn reviewer_owned(self, a: u64) -> Seq<Seq<u8>> {
        owned_of(self.reviewer_owner@, le_bytes_u64(a))
    }

    /// Every store and index representation binds each key once.
    pub open spec fn maps_wf(self) -> bool {
        &&& self.apps.wf()
        &&& self.app_owner.wf()
        &&& self.reviews.wf()
        &&& self.review_owner.wf()
        &&& self.reviews_by_app.wf()
        &&& self.reviewers.wf()
        &&& self.reviewer_owner.wf()
    }

    /// No bounded index entry exceeds its configured capacity.
    pub open spec fn caps_ok(self) -> bool {
        &&& forall|k: Seq<u8>| #[trigger]
            self.app_owner@.contains_key(k) ==> self.app_owner@[k].len() <= (
            self.cfg.app_owner_limit as int)
        &&& forall|k: Seq<u8>| #[trigger]
            self.review_owner@.contains_key(k) ==> self.review_owner@[k].len() <= (
            self.cfg.review_owner_limit as int)
        &&& forall|k: Seq<u8>| #[trigger]
            self.reviews_by_app@.contains_key(k) ==> self.reviews_by_app@[k].len() <= (
            self.cfg.review_owner_by_app_limit as int)
        &&& forall|k: Seq<u8>| #[trigger]
            self.reviewer_owner@.contains_key(k) ==> self.reviewer_owner@[k].len() <= (
            self.cfg.max_account as int)
    }

    /// Every key an index holds references an entity that exists in the
    /// matching store: no orphaned index entries.
    pub open spec fn indexes_into_stores(self) -> bool {
        &&& forall|k: Seq<u8>, i: int|
            self.app_owner@.contains_key(k) && 0 <= i < self.app_owner@[k].len()
                ==> self.apps@.contains_key(#[trigger] self.app_owner@[k][i])
        &&& forall|k: Seq<u8>, i: int|
            self.review_owner@.contains_key(k) && 0 <= i < self.review_owner@[k].len()
                ==> self.reviews@.contains_key(#[trigger] self.review_owner@[k][i])
        &&& forall|k: Seq<u8>, i: int|
            self.reviews_by_app@.contains_key(k) && 0 <= i < self.reviews_by_app@[k].len()
                ==> self.reviews@.contains_key(#[trigger] self.reviews_by_app@[k][i])
        &&& forall|k: Seq<u8>, i: int|
            self.reviewer_owner@.contains_key(k) && 0 <= i < self.reviewer_owner@[k].len()
                ==> self.reviewers@.contains_key(#[trigger] self.reviewer_owner@[k][i])
    }

    /// Every stored entity's key sits in its owner's index (and, for a
    /// review, in the reviewed app's relation index): no orphaned entities.
    pub open spec fn stores_into_indexes(self) -> bool {
        &&& forall|k: Seq<u8>| #[trigger]
            self.apps@.contains_key(k) ==> self.app_owned(self.apps@[k].owner).contains(k)
        &&& forall|k: Seq<u8>| #[trigger]
            self.reviews@.contains_key(k) ==> self.review_owned(self.reviews@[k].owner).contains(
                k,
            ) && self.reviews_of_app(self.reviews@[k].app_ref).contains(k)
        &&& forall|k: Seq<u8>| #[trigger]
            self.reviewers@.contains_key(k) ==> self.reviewer_owned(
                self.reviewers@[k].owner,
            ).contains(k)
    }

    /// Every stored entity meets its field bounds, every review references an
    /// existing app, and no review is owned by the reviewed app's owner.
    pub open spec fn entities_ok(self) -> bool {
        &&& forall|k: Seq<u8>| #[trigger]
            self.apps@.contains_key(k) ==> self.apps@[k].name.len() <= (
            self.cfg.string_limit as int) && self.apps@[k].symbol.len() <= (
            self.cfg.string_limit as int)
        &&& forall|k: Seq<u8>| #[trigger]
            self.reviews@.contains_key(k) ==> {
                &&& self.reviews@[k].title.len() <= (self.cfg.content_limit as int)
                &&& self.reviews@[k].cons.len() <= (self.cfg.content_limit as int)
                &&& self.reviews@[k].pros.len() <= (self.cfg.content_limit as int)
                &&& star_ok(self.reviews@[k].star, self.cfg.max_star)
                &&& self.apps@.contains_key(self.reviews@[k].app_ref)
                &&& self.apps@[self.reviews@[k].app_ref].owner != self.reviews@[k].owner
            }
        &&& forall|k: Seq<u8>| #[trigger]
            self.reviewers@.contains_key(k) ==> self.reviewers@[k].name.len() <= (
            NAME_LIMIT as int) && self.reviewers@[k].id == k
    }

    /// The invariant that holds after construction and after every committed
    /// operation.
    pub open spec fn wf(self) -> bool {
        &&& self.maps_wf()
        &&& self.caps_ok()
        &&& self.indexes_into_stores()
        &&& self.stores_into_indexes()
        &&& self.entities_ok()
    }

    /// A fresh registry: empty stores and indexes, all counters at zero.
    pub fn new(cfg: Config) -> (r: Registry)
        ensures
            r.wf(),
            r.cfg == cfg,
            r.apps@ == Map::<Seq<u8>, AppV>::empty(),
            r.reviews@ == Map::<Seq<u8>, ReviewV>::empty(),
            r.reviewers@ == Map::<Seq<u8>, ReviewerV>::empty(),
            r.app_owner@ == Map::<Seq<u8>, Seq<Seq<u8>>>::empty(),
            r.review_owner@ == Map::<Seq<u8>, Seq<Seq<u8>>>::empty(),
            r.reviews_by_app@ == Map::<Seq<u8>, Seq<Seq<u8>>>::empty(),
            r.reviewer_owner@ == Map::<Seq<u8>, Seq<Seq<u8>>>::empty(),
            r.apps_count.val() == 0,
            r.next_app_id.val() == 0,
            r.count_reviewers.val() == 0,
    {
        Registry {
            cfg,
            apps: KeyMap::new(),
            app_owner: KeyMap::new(),
            reviews: KeyMap::new(),
            review_owner: KeyMap::new(),
            reviews_by_app: KeyMap::new(),
            reviewers: KeyMap::new(),
            reviewer_owner: KeyMap::new(),
            apps_count: Counter::new(),
            next_app_id: Counter::new(),
            count_reviewers: Counter::new(),
        }
    }

    /// Creates an app owned by the caller: validates the field bounds, checks
    /// the owner index's room and both counters, and only then commits the
    /// store insert, the index push and both counter advances together.
    /// Returns the new record's content-derived key and its assigned id.
    pub fn create_app(&mut self, caller: u64, name: Vec<u8>, symbol: Vec<u8>, now: u64) -> (r:
        Result<(Vec<u8>, u32), Error>)
        requires
            old(self).wf(),
        ensures
            final(self).wf(),
            final(self).cfg == old(self).cfg,
            match r {
                Result::Err(e) => *final(self) == *old(self) && create_app_err(
                    *old(self),
                    caller,
                    name@,
                    symbol@,
                    now,
                ) == Option::Some(e),
                Result::Ok(kid) => {
                    let key = app_key(old(self).next_app_id.val(), name@, symbol@, caller, now);
                    &&& create_app_err(*old(self), caller, name@, symbol@, now) is None
                    &&& kid.1 == old(self).next_app_id.val()
                    &&& kid.0@ == key
                    &&& final(self).apps@ == old(self).apps@.insert(
                        key,
                        (AppV {
                            id: kid.1,
                            name: name@,
                            symbol: symbol@,
                            owner: caller,
                            created_at: now,
                            star: Option::None,
                        }),
                    )
                    &&& final(self).app_owner@ == old(self).app_owner@.insert(
                        le_bytes_u64(caller),
                        old(self).app_owned(caller).push(key),
                    )
                    &&& final(self).apps_count.val() == old(self).apps_count.val() + 1
                    &&& final(self).next_app_id.val() == old(self).next_app_id.val() + 1
                    &&& final(self).reviews == old(self).reviews
                    &&& final(self).review_owner == old(self).review_owner
                    &&& final(self).reviews_by_app == old(self).reviews_by_app
                    &&& final(self).reviewers == old(self).reviewers
                    &&& final(self).reviewer_owner == old(self).reviewer_owner
                    &&& final(self).count_reviewers == old(self).count_reviewers
                },
            },
    {
        // validation: no mutation yet
        if name.len() > self.cfg.string_limit as usize || symbol.len()
            > self.cfg.string_limit as usize {
            return Err(Error::ValidationError);
        }
        let id = self.next_app_id.next();
        let key = derive_app_key(id, caller, &name, &symbol, now);
        // capacity check on the caller's owner index: no mutation yet
        let akey = encode_u64(caller);
        let owned_len: usize = match self.app_owner.get(&akey) {
            Some(b) => b.len(),
            None => 0,
        };
        proof {
            assert(owned_len == self.app_owned(caller).len());
        }
        if owned_len >= self.cfg.app_owner_limit as usize {
            return Err(Error::CapacityError);
        }
        // both counters must be able to advance: no mutation yet
        if self.next_app_id.next() == u32::MAX || self.apps_count.next() == u32::MAX {
            return Err(Error::ArithmeticOverflow);
        }
        // a content collision must not overwrite the earlier record
        if self.apps.contains(&key) {
            return Err(Error::DuplicateError);
        }
        // commit: store the entity, index it, advance both counters
        let returned_key = key.clone();
        let indexed_key = key.clone();
        proof {
            assert(returned_key@ == key@ && indexed_key@ == key@);
        }
        let app = App::create(id, caller, name, symbol, now);
        self.apps.put(key, app);
        let mut bk = match self.app_owner.take(&akey) {
            Some(b) => b,
            None => BoundedKeys::new(),
        };
        let pushed = bk.push(self.cfg.app_owner_limit, indexed_key);
        proof {
            assert(pushed is Ok);
        }
        self.app_owner.put(akey, bk);
        let advanced_id = self.next_app_id.advance();
        let advanced_count = self.apps_count.advance();
        proof {
            assert(advanced_id is Ok && advanced_count is Ok);
            let pre = *old(self);
            let ak = le_bytes_u64(caller);
            let k = app_key(pre.next_app_id.val(), name@, symbol@, caller, now);
            let av = AppV {
                id: pre.next_app_id.val(),
                name: name@,
                symbol: symbol@,
                owner: caller,
                created_at: now,
                star: Option::None,
            };
            let owned_pre = pre.app_owned(caller);
            assert(self.apps@ == pre.apps@.insert(k, av));
            assert(self.app_owner@ =~= pre.app_owner@.insert(ak, owned_pre.push(k)));
            // capacities: only the caller's entry grew, and it had room
            assert forall|kk: Seq<u8>| #[trigger]
                self.app_owner@.contains_key(kk) implies self.app_owner@[kk].len() <= (
            self.cfg.app_owner_limit as int) by {
                if kk == ak {
                    assert(self.app_owner@[kk] == owned_pre.push(k));
                    assert(owned_pre.len() < (pre.cfg.app_owner_limit as int));
                } else {
                    assert(pre.app_owner@.contains_key(kk));
                    assert(self.app_owner@[kk] == pre.app_owner@[kk]);
                }
            }
            // no orphaned index entries: the one new index entry is the new key
            assert forall|kk: Seq<u8>, i: int|
                self.app_owner@.contains_key(kk) && 0 <= i
                    < self.app_owner@[kk].len() implies self.apps@.contains_key(
                #[trigger] self.app_owner@[kk][i]) by {
                if kk == ak {
                    assert(self.app_owner@[kk] == owned_pre.push(k));
                    if i < owned_pre.len() {
                        assert(owned_pre.push(k)[i] == owned_pre[i]);
                        assert(pre.app_owner@.contains_key(ak));
                        assert(pre.apps@.contains_key(pre.app_owner@[ak][i]));
                    } else {
                        assert(owned_pre.push(k)[i] == k);
                    }
                } else {
                    assert(pre.app_owner@.contains_key(kk));
                    assert(self.app_owner@[kk] == pre.app_owner@[kk]);
                    assert(pre.apps@.contains_key(pre.app_owner@[kk][i]));
                }
            }
            // no orphaned entities: the new key was pushed onto its owner's
            // index, and older keys keep their position
            assert forall|kk: Seq<u8>| #[trigger]
                self.apps@.contains_key(kk) implies self.app_owned(
                self.apps@[kk].owner,
            ).contains(kk) by {
                if kk == k {
                    assert(self.apps@[kk] == av);
                    assert(self.app_owned(caller) == owned_pre.push(k));
                    assert(owned_pre.push(k)[owned_pre.len() as int] == kk);
                } else {
                    assert(pre.apps@.contains_key(kk));
                    assert(self.apps@[kk] == pre.apps@[kk]);
                    let o = pre.apps@[kk].owner;
                    assert(pre.app_owned(o).contains(kk));
                    let wi = choose|i: int|
                        0 <= i < pre.app_owned(o).len() && pre.app_owned(o)[i] == kk;
                    if le_bytes_u64(o) == ak {
                        lemma_le_bytes_u64_injective(o, caller);
                        assert(self.app_owned(o) == owned_pre.push(k));
                        assert(owned_pre.push(k)[wi] == kk);
                    } else {
                        assert(self.app_owned(o) == pre.app_owned(o));
                    }
                }
            }
            // field bounds: the new record was validated, older ones carry over,
            // and every review still references an app that the insert kept
            assert forall|kk: Seq<u8>| #[trigger]
                self.apps@.contains_key(kk) implies self.apps@[kk].name.len() <= (
            self.cfg.string_limit as int) && self.apps@[kk].symbol.len() <= (
            self.cfg.string_limit as int) by {
                if kk != k {
                    assert(pre.apps@.contains_key(kk));
                    assert(self.apps@[kk] == pre.apps@[kk]);
                }
            }
            assert forall|kk: Seq<u8>| #[trigger]
                self.reviews@.contains_key(kk) implies {
                &&& self.reviews@[kk].title.len() <= (self.cfg.content_limit as int)
                &&& self.reviews@[kk].cons.len() <= (self.cfg.content_limit as int)
                &&& self.reviews@[kk].pros.len() <= (self.cfg.content_limit as int)
                &&& star_ok(self.reviews@[kk].star, self.cfg.max_star)
                &&& self.apps@.contains_key(self.reviews@[kk].app_ref)
                &&& self.apps@[self.reviews@[kk].app_ref].owner != self.reviews@[kk].owner
            } by {
                assert(pre.reviews@.contains_key(kk));
                let ar = pre.reviews@[kk].app_ref;
                assert(pre.apps@.contains_key(ar));
                assert(!pre.apps@.contains_key(k));
                assert(ar != k);
                assert(self.apps@[ar] == pre.apps@[ar]);
            }
        }
        Ok((returned_key, id))
    }

    /// Replaces an app's name and symbol. Only the recorded owner may do so;
    /// the record's key, id, owner, creation time and star never change. A
    /// failed call leaves the store byte-for-byte unchanged.
    pub fn update_app(&mut self, caller: u64, key: &Vec<u8>, name: Vec<u8>, symbol: Vec<u8>) -> (
        r: Result<(), Error>)
        requires
            old(self).wf(),
        ensures
            final(self).wf(),
            final(self).cfg == old(self).cfg,
            match r {
                Result::Err(e) => *final(self) == *old(self) && update_app_err(
                    *old(self),
                    caller,
                    key@,
                    name@,
                    symbol@,
                ) == Option::Some(e),
                Result::Ok(u) => {
                    &&& update_app_err(*old(self), caller, key@, name@, symbol@) is None
                    &&& final(self).apps@ == old(self).apps@.insert(
                        key@,
                        (AppV { name: name@, symbol: symbol@, ..old(self).apps@[key@] }),
                    )
                    &&& final(self).app_owner == old(self).app_owner
                    &&& final(self).reviews == old(self).reviews
                    &&& final(self).review_owner == old(self).review_owner
                    &&& final(self).reviews_by_app == old(self).reviews_by_app
                    &&& final(self).reviewers == old(self).reviewers
                    &&& final(self).reviewer_owner == old(self).reviewer_owner
                    &&& final(self).apps_count == old(self).apps_count
                    &&& final(self).next_app_id == old(self).next_app_id
                    &&& final(self).count_reviewers == old(self).count_reviewers
                },
            },
    {
        // resolve and authorize: no mutation yet
        let owner: u64 = match self.apps.get(key) {
            None => {
                return Err(Error::NotFoundError);
            },
            Some(a) => a.owner(),
        };
        if owner != caller {
            return Err(Error::AuthorizationError);
        }
        // validate the replacement fields: no mutation yet
        if name.len() > self.cfg.string_limit as usize || symbol.len()
            > self.cfg.string_limit as usize {
            return Err(Error::ValidationError);
        }
        // commit: replace the fields under the same key
        let mut app = match self.apps.take(key) {
            Some(a) => a,
            None => {
                return Err(Error::NotFoundError);
            },
        };
        app.set_name(name);
        app.set_symbol(symbol);
        self.apps.put(key.clone(), app);
        proof {
            let pre = *old(self);
            let av = AppV { name: name@, symbol: symbol@, ..pre.apps@[key@] };
            assert(self.apps@ =~= pre.apps@.insert(key@, av));
            // the key set is unchanged and the owner field carries over, so
            // every index entry and every review reference stays resolvable
            assert forall|kk: Seq<u8>, i: int|
                self.app_owner@.contains_key(kk) && 0 <= i
                    < self.app_owner@[kk].len() implies self.apps@.contains_key(
                #[trigger] self.app_owner@[kk][i]) by {
                assert(pre.apps@.contains_key(pre.app_owner@[kk][i]));
            }
            assert forall|kk: Seq<u8>| #[trigger]
                self.apps@.contains_key(kk) implies self.app_owned(
                self.apps@[kk].owner,
            ).contains(kk) by {
                assert(pre.apps@.contains_key(kk));
                assert(self.apps@[kk].owner == pre.apps@[kk].owner);
            }
            assert forall|kk: Seq<u8>| #[trigger]
                self.apps@.contains_key(kk) implies self.apps@[kk].name.len() <= (
            self.cfg.string_limit as int) && self.apps@[kk].symbol.len() <= (
            self.cfg.string_limit as int) by {
                if kk != key@ {
                    assert(self.apps@[kk] == pre.apps@[kk]);
                }
            }
            assert forall|kk: Seq<u8>| #[trigger]
                self.reviews@.contains_key(kk) implies {
                &&& self.reviews@[kk].title.len() <= (self.cfg.content_limit as int)
                &&& self.reviews@[kk].cons.len() <= (self.cfg.content_limit as int)
                &&& self.reviews@[kk].pros.len() <= (self.cfg.content_limit as int)
                &&& star_ok(self.reviews@[kk].star, self.cfg.max_star)
                &&& self.apps@.contains_key(self.reviews@[kk].app_ref)
                &&& self.apps@[self.reviews@[kk].app_ref].owner != self.reviews@[kk].owner
            } by {
                let ar = pre.reviews@[kk].app_ref;
                assert(pre.apps@.contains_key(ar));
                assert(self.apps@[ar].owner == pre.apps@[ar].owner);
            }
        }
        Ok(())
    }

    /// Creates a review of an existing app. The reviewed app's owner may not
    /// review it; the caller's review index and the app's relation index must
    /// both have room; rating and content fields are validated; a key
    /// collision with a stored record is rejected instead of silently
    /// overwriting it. The store insert and both index pushes commit together
    /// or not at all. Returns the review's content-derived key.
    pub fn create_review(
        &mut self,
        caller: u64,
        star: u32,
        app_ref: &Vec<u8>,
        title: Vec<u8>,
        cons: Vec<u8>,
        pros: Vec<u8>,
        now: u64,
    ) -> (r: Result<Vec<u8>, Error>)
        requires
            old(self).wf(),
        ensures
            final(self).wf(),
            final(self).cfg == old(self).cfg,
            match r {
                Result::Err(e) => *final(self) == *old(self) && create_review_err(
                    *old(self),
                    caller,
                    star,
                    app_ref@,
                    title@,
                    cons@,
                    pros@,
                    now,
                ) == Option::Some(e),
                Result::Ok(rk) => {
                    let key = review_key(
                        app_ref@,
                        Option::Some(star),
                        title@,
                        cons@,
                        pros@,
                        caller,
                        now,
                    );
                    &&& create_review_err(
                        *old(self),
                        caller,
                        star,
                        app_ref@,
                        title@,
                        cons@,
                        pros@,
                        now,
                    ) is None
                    &&& rk@ == key
                    &&& final(self).reviews@ == old(self).reviews@.insert(
                        key,
                        (ReviewV {
                            app_ref: app_ref@,
                            star: Option::Some(star),
                            title: title@,
                            cons: cons@,
                            pros: pros@,
                            owner: caller,
                            created_at: now,
                        }),
                    )
                    &&& final(self).review_owner@ == old(self).review_owner@.insert(
                        le_bytes_u64(caller),
                        old(self).review_owned(caller).push(key),
                    )
                    &&& final(self).reviews_by_app@ == old(self).reviews_by_app@.insert(
                        app_ref@,
                        old(self).reviews_of_app(app_ref@).push(key),
                    )
                    &&& final(self).apps == old(self).apps
                    &&& final(self).app_owner == old(self).app_owner
                    &&& final(self).reviewers == old(self).reviewers
                    &&& final(self).reviewer_owner == old(self).reviewer_owner
                    &&& final(self).apps_count == old(self).apps_count
                    &&& final(self).next_app_id == old(self).next_app_id
                    &&& final(self).count_reviewers == old(self).count_reviewers
                },
            },
    {
        // resolve the reviewed app and authorize: no mutation yet
        let app_owner_acct: u64 = match self.apps.get(app_ref) {
            None => {
                return Err(Error::NotFoundError);
            },
            Some(a) => a.owner(),
        };
        if caller == app_owner_acct {
            return Err(Error::AuthorizationError);
        }
        // the caller's review index must have room: no mutation yet
        let acct_key = encode_u64(caller);
        let owned_len: usize = match self.review_owner.get(&acct_key) {
            Some(b) => b.len(),
            None => 0,
        };
        proof {
            assert(owned_len == self.review_owned(caller).len());
        }
        if owned_len >= self.cfg.review_owner_limit as usize {
            return Err(Error::CapacityError);
        }
        // validate rating and content bounds: no mutation yet
        if star > self.cfg.max_star {
            return Err(Error::ValidationError);
        }
        if title.len() > self.cfg.content_limit as usize || cons.len()
            > self.cfg.content_limit as usize || pros.len() > self.cfg.content_limit as usize {
            return Err(Error::ValidationError);
        }
        let star_opt: Option<u32> = Some(star);
        let key = derive_review_key(app_ref, &star_opt, &title, &cons, &pros, caller, now);
        // the app's relation index must have room: no mutation yet
        let by_app_len: usize = match self.reviews_by_app.get(app_ref) {
            Some(b) => b.len(),
            None => 0,
        };
        proof {
            assert(by_app_len == self.reviews_of_app(app_ref@).len());
        }
        if by_app_len >= self.cfg.review_owner_by_app_limit as usize {
            return Err(Error::CapacityError);
        }
        // a content collision must not overwrite the earlier record
        if self.reviews.contains(&key) {
            return Err(Error::DuplicateError);
        }
        // commit: store the review and push its key into both indexes
        let returned_key = key.clone();
        let owner_key = key.clone();
        let relation_key = key.clone();
        proof {
            assert(returned_key@ == key@ && owner_key@ == key@ && relation_key@ == key@);
        }
        let review = Review {
            app_ref: app_ref.clone(),
            star: star_opt,
            title,
            cons,
            pros,
            owner: caller,
            created_at: now,
        };
        proof {
            assert(review@.app_ref == app_ref@);
        }
        self.reviews.put(key, review);
        let mut bk = match self.review_owner.take(&acct_key) {
            Some(b) => b,
            None => BoundedKeys::new(),
        };
        let pushed_owner = bk.push(self.cfg.review_owner_limit, owner_key);
        proof {
            assert(pushed_owner is Ok);
        }
        self.review_owner.put(acct_key, bk);
        let mut ba = match self.reviews_by_app.take(app_ref) {
            Some(b) => b,
            None => BoundedKeys::new(),
        };
        let pushed_app = ba.push(self.cfg.review_owner_by_app_limit, relation_key);
        proof {
            assert(pushed_app is Ok);
        }
        self.reviews_by_app.put(app_ref.clone(), ba);
        proof {
            let pre = *old(self);
            let ak = le_bytes_u64(caller);
            let k = review_key(app_ref@, Option::Some(star), title@, cons@, pros@, caller, now);
            let rv = ReviewV {
                app_ref: app_ref@,
                star: Option::Some(star),
                title: title@,
                cons: cons@,
                pros: pros@,
                owner: caller,
                created_at: now,
            };
            let owned_pre = pre.review_owned(caller);
            let by_app_pre = pre.reviews_of_app(app_ref@);
            assert(self.reviews@ == pre.reviews@.insert(k, rv));
            assert(self.review_owner@ =~= pre.review_owner@.insert(ak, owned_pre.push(k)));
            assert(self.reviews_by_app@ =~= pre.reviews_by_app@.insert(
                app_ref@,
                by_app_pre.push(k),
            ));
            // capacities: the two entries that grew had room
            assert forall|kk: Seq<u8>| #[trigger]
                self.review_owner@.contains_key(kk) implies self.review_owner@[kk].len() <= (
            self.cfg.review_owner_limit as int) by {
                if kk == ak {
                    assert(self.review_owner@[kk] == owned_pre.push(k));
                } else {
                    assert(pre.review_owner@.contains_key(kk));
                    assert(self.review_owner@[kk] == pre.review_owner@[kk]);
                }
            }
            assert forall|kk: Seq<u8>| #[trigger]
                self.reviews_by_app@.contains_key(kk) implies self.reviews_by_app@[kk].len() <= (
            self.cfg.review_owner_by_app_limit as int) by {
                if kk == app_ref@ {
                    assert(self.reviews_by_app@[kk] == by_app_pre.push(k));
                } else {
                    assert(pre.reviews_by_app@.contains_key(kk));
                    assert(self.reviews_by_app@[kk] == pre.reviews_by_app@[kk]);
                }
            }
            // no orphaned index entries in either grown index
            assert forall|kk: Seq<u8>, i: int|
                self.review_owner@.contains_key(kk) && 0 <= i
                    < self.review_owner@[kk].len() implies self.reviews@.contains_key(
                #[trigger] self.review_owner@[kk][i]) by {
                if kk == ak {
                    assert(self.review_owner@[kk] == owned_pre.push(k));
                    if i < owned_pre.len() {
                        assert(owned_pre.push(k)[i] == owned_pre[i]);
                        assert(pre.review_owner@.contains_key(ak));
                        assert(pre.reviews@.contains_key(pre.review_owner@[ak][i]));
                    } else {
                        assert(owned_pre.push(k)[i] == k);
                    }
                } else {
                    assert(pre.review_owner@.contains_key(kk));
                    assert(self.review_owner@[kk] == pre.review_owner@[kk]);
                    assert(pre.reviews@.contains_key(pre.review_owner@[kk][i]));
                }
            }
            assert forall|kk: Seq<u8>, i: int|
                self.reviews_by_app@.contains_key(kk) && 0 <= i
                    < self.reviews_by_app@[kk].len() implies self.reviews@.contains_key(
                #[trigger] self.reviews_by_app@[kk][i]) by {
                if kk == app_ref@ {
                    assert(self.reviews_by_app@[kk] == by_app_pre.push(k));
                    if i < by_app_pre.len() {
                        assert(by_app_pre.push(k)[i] == by_app_pre[i]);
                        assert(pre.reviews_by_app@.contains_key(app_ref@));
                        assert(pre.reviews@.contains_key(pre.reviews_by_app@[app_ref@][i]));
                    } else {
                        assert(by_app_pre.push(k)[i] == k);
                    }
                } else {
                    assert(pre.reviews_by_app@.contains_key(kk));
                    assert(self.reviews_by_app@[kk] == pre.reviews_by_app@[kk]);
                    assert(pre.reviews@.contains_key(pre.reviews_by_app@[kk][i]));
                }
            }
            // no orphaned entities: the new key sits in both indexes, older
            // keys keep their positions
            assert forall|kk: Seq<u8>| #[trigger]
                self.reviews@.contains_key(kk) implies self.review_owned(
                self.reviews@[kk].owner,
            ).contains(kk) && self.reviews_of_app(self.reviews@[kk].app_ref).contains(kk) by {
                if kk == k {
                    assert(self.reviews@[kk] == rv);
                    assert(self.review_owned(caller) == owned_pre.push(k));
                    assert(owned_pre.push(k)[owned_pre.len() as int] == kk);
                    assert(self.reviews_of_app(app_ref@) == by_app_pre.push(k));
                    assert(by_app_pre.push(k)[by_app_pre.len() as int] == kk);
                } else {
                    assert(pre.reviews@.contains_key(kk));
                    assert(self.reviews@[kk] == pre.reviews@[kk]);
                    let o = pre.reviews@[kk].owner;
                    let ar = pre.reviews@[kk].app_ref;
                    assert(pre.review_owned(o).contains(kk));
                    assert(pre.reviews_of_app(ar).contains(kk));
                    let wi = choose|i: int|
                        0 <= i < pre.review_owned(o).len() && pre.review_owned(o)[i] == kk;
                    if le_bytes_u64(o) == ak {
                        lemma_le_bytes_u64_injective(o, caller);
                        assert(self.review_owned(o) == owned_pre.push(k));
                        assert(owned_pre.push(k)[wi] == kk);
                    } else {
                        assert(self.review_owned(o) == pre.review_owned(o));
                    }
                    let wj = choose|i: int|
                        0 <= i < pre.reviews_of_app(ar).len() && pre.reviews_of_app(ar)[i] == kk;
                    if ar == app_ref@ {
                        assert(self.reviews_of_app(ar) == by_app_pre.push(k));
                        assert(by_app_pre.push(k)[wj] == kk);
                    } else {
                        assert(self.reviews_of_app(ar) == pre.reviews_of_app(ar));
                    }
                }
            }
            // field bounds for the new review were validated; older reviews
            // and all apps are untouched
            assert forall|kk: Seq<u8>| #[trigger]
                self.reviews@.contains_key(kk) implies {
                &&& self.reviews@[kk].title.len() <= (self.cfg.content_limit as int)
                &&& self.reviews@[kk].cons.len() <= (self.cfg.content_limit as int)
                &&& self.reviews@[kk].pros.len() <= (self.cfg.content_limit as int)
                &&& star_ok(self.reviews@[kk].star, self.cfg.max_star)
                &&& self.apps@.contains_key(self.reviews@[kk].app_ref)
                &&& self.apps@[self.reviews@[kk].app_ref].owner != self.reviews@[kk].owner
            } by {
                if kk == k {
                    assert(self.reviews@[kk] == rv);
                    assert(self.apps@[app_ref@].owner == app_owner_acct);
                } else {
                    assert(pre.reviews@.contains_key(kk));
                    assert(self.reviews@[kk] == pre.reviews@[kk]);
                }
            }
        }
        Ok(returned_key)
    }

    /// Creates a profile under an entropy-derived key built from an
    /// external entropy value and an external monotonic counter value. A key
    /// collision fails the call instead of overwriting or retrying; the
    /// store insert, the index push and the counter advance commit together.
    /// Returns the profile's key, which is also its recorded id.
    pub fn create_reviewer(
        &mut self,
        caller: u64,
        name: Name,
        star: Option<u32>,
        entropy: &Vec<u8>,
        counter: u64,
    ) -> (r: Result<Vec<u8>, Error>)
        requires
            old(self).wf(),
            entropy@.len() <= u32::MAX,
        ensures
            final(self).wf(),
            final(self).cfg == old(self).cfg,
            match r {
                Result::Err(e) => *final(self) == *old(self) && create_reviewer_err(
                    *old(self),
                    caller,
                    name@,
                    entropy@,
                    counter,
                ) == Option::Some(e),
                Result::Ok(rk) => {
                    let key = reviewer_key(entropy@, counter);
                    &&& create_reviewer_err(*old(self), caller, name@, entropy@, counter) is None
                    &&& rk@ == key
                    &&& final(self).reviewers@ == old(self).reviewers@.insert(
                        key,
                        (ReviewerV { id: key, name: name@, star, owner: caller }),
                    )
                    &&& final(self).reviewer_owner@ == old(self).reviewer_owner@.insert(
                        le_bytes_u64(caller),
                        old(self).reviewer_owned(caller).push(key),
                    )
                    &&& final(self).count_reviewers.val() == old(self).count_reviewers.val() + 1
                    &&& final(self).apps == old(self).apps
                    &&& final(self).app_owner == old(self).app_owner
                    &&& final(self).reviews == old(self).reviews
                    &&& final(self).review_owner == old(self).review_owner
                    &&& final(self).reviews_by_app == old(self).reviews_by_app
                    &&& final(self).apps_count == old(self).apps_count
                    &&& final(self).next_app_id == old(self).next_app_id
                },
            },
    {
        // validate the name bound: no mutation yet
        if name.len() > NAME_LIMIT {
            return Err(Error::ValidationError);
        }
        let key = derive_reviewer_key(entropy, counter);
        // a colliding key must not overwrite the earlier profile
        if self.reviewers.contains(&key) {
            return Err(Error::DuplicateError);
        }
        // the counter must be able to advance: no mutation yet
        if self.count_reviewers.next() == u32::MAX {
            return Err(Error::ArithmeticOverflow);
        }
        // the caller's owner index must have room: no mutation yet
        let acct_key = encode_u64(caller);
        let owned_len: usize = match self.reviewer_owner.get(&acct_key) {
            Some(b) => b.len(),
            None => 0,
        };
        proof {
            assert(owned_len == self.reviewer_owned(caller).len());
        }
        if owned_len >= self.cfg.max_account as usize {
            return Err(Error::CapacityError);
        }
        // commit: store the profile, index it, advance the counter
        let returned_key = key.clone();
        let indexed_key = key.clone();
        let id_key = key.clone();
        proof {
            assert(returned_key@ == key@ && indexed_key@ == key@ && id_key@ == key@);
        }
        let reviewer = Reviewer { id: id_key, name, star, owner: caller };
        self.reviewers.put(key, reviewer);
        let mut bk = match self.reviewer_owner.take(&acct_key) {
            Some(b) => b,
            None => BoundedKeys::new(),
        };
        let pushed = bk.push(self.cfg.max_account, indexed_key);
        proof {
            assert(pushed is Ok);
        }
        self.reviewer_owner.put(acct_key, bk);
        let advanced = self.count_reviewers.advance();
        proof {
            assert(advanced is Ok);
            let pre = *old(self);
            let ak = le_bytes_u64(caller);
            let k = reviewer_key(entropy@, counter);
            let rv = ReviewerV { id: k, name: name@, star, owner: caller };
            let owned_pre = pre.reviewer_owned(caller);
            assert(self.reviewers@ == pre.reviewers@.insert(k, rv));
            assert(self.reviewer_owner@ =~= pre.reviewer_owner@.insert(ak, owned_pre.push(k)));
            assert forall|kk: Seq<u8>| #[trigger]
                self.reviewer_owner@.contains_key(kk) implies self.reviewer_owner@[kk].len() <= (
            self.cfg.max_account as int) by {
                if kk == ak {
                    assert(self.reviewer_owner@[kk] == owned_pre.push(k));
                } else {
                    assert(pre.reviewer_owner@.contains_key(kk));
                    assert(self.reviewer_owner@[kk] == pre.reviewer_owner@[kk]);
                }
            }
            assert forall|kk: Seq<u8>, i: int|
                self.reviewer_owner@.contains_key(kk) && 0 <= i
                    < self.reviewer_owner@[kk].len() implies self.reviewers@.contains_key(
                #[trigger] self.reviewer_owner@[kk][i]) by {
                if kk == ak {
                    assert(self.reviewer_owner@[kk] == owned_pre.push(k));
                    if i < owned_pre.len() {
                        assert(owned_pre.push(k)[i] == owned_pre[i]);
                        assert(pre.reviewer_owner@.contains_key(ak));
                        assert(pre.reviewers@.contains_key(pre.reviewer_owner@[ak][i]));
                    } else {
                        assert(owned_pre.push(k)[i] == k);
                    }
                } else {
                    assert(pre.reviewer_owner@.contains_key(kk));
                    assert(self.reviewer_owner@[kk] == pre.reviewer_owner@[kk]);
                    assert(pre.reviewers@.contains_key(pre.reviewer_owner@[kk][i]));
                }
            }
            assert forall|kk: Seq<u8>| #[trigger]
                self.reviewers@.contains_key(kk) implies self.reviewer_owned(
                self.reviewers@[kk].owner,
            ).contains(kk) by {
                if kk == k {
                    assert(self.reviewers@[kk] == rv);
                    assert(self.reviewer_owned(caller) == owned_pre.push(k));
                    assert(owned_pre.push(k)[owned_pre.len() as int] == kk);
                } else {
                    assert(pre.reviewers@.contains_key(kk));
                    assert(self.reviewers@[kk] == pre.reviewers@[kk]);
                    let o = pre.reviewers@[kk].owner;
                    assert(pre.reviewer_owned(o).contains(kk));
                    let wi = choose|i: int|
                        0 <= i < pre.reviewer_owned(o).len() && pre.reviewer_owned(o)[i] == kk;
                    if le_bytes_u64(o) == ak {
                        lemma_le_bytes_u64_injective(o, caller);
                        assert(self.reviewer_owned(o) == owned_pre.push(k));
                        assert(owned_pre.push(k)[wi] == kk);
                    } else {
                        assert(self.reviewer_owned(o) == pre.reviewer_owned(o));
                    }
                }
            }
            assert forall|kk: Seq<u8>| #[trigger]
                self.reviewers@.contains_key(kk) implies self.reviewers@[kk].name.len() <= (
            NAME_LIMIT as int) && self.reviewers@[kk].id == kk by {
                if kk != k {
                    assert(pre.reviewers@.contains_key(kk));
                    assert(self.reviewers@[kk] == pre.reviewers@[kk]);
                }
            }
        }
        Ok(returned_key)
    }

    /// Replaces a profile's name and star. Only the recorded owner may do
    /// so; the profile's id and owner never change. A failed call leaves the
    /// store byte-for-byte unchanged.
    pub fn update_reviewer(&mut self, caller: u64, id: &Vec<u8>, name: Name, star: Option<u32>)
        -> (r: Result<(), Error>)
        requires
            old(self).wf(),
        ensures
            final(self).wf(),
            final(self).cfg == old(self).cfg,
            match r {
                Result::Err(e) => *final(self) == *old(self) && update_reviewer_err(
                    *old(self),
                    caller,
                    id@,
                    name@,
                ) == Option::Some(e),
                Result::Ok(u) => {
                    &&& update_reviewer_err(*old(self), caller, id@, name@) is None
                    &&& final(self).reviewers@ == old(self).reviewers@.insert(
                        id@,
                        (ReviewerV { name: name@, star, ..old(self).reviewers@[id@] }),
                    )
                    &&& final(self).reviewer_owner == old(self).reviewer_owner
                    &&& final(self).apps == old(self).apps
                    &&& final(self).app_owner == old(self).app_owner
                    &&& final(self).reviews == old(self).reviews
                    &&& final(self).review_owner == old(self).review_owner
                    &&& final(self).reviews_by_app == old(self).reviews_by_app
                    &&& final(self).apps_count == old(self).apps_count
                    &&& final(self).next_app_id == old(self).next_app_id
                    &&& final(self).count_reviewers == old(self).count_reviewers
                },
            },
    {
        // resolve and authorize: no mutation yet
        let owner: u64 = match self.reviewers.get(id) {
            None => {
                return Err(Error::NotFoundError);
            },
            Some(p) => p.owner,
        };
        if owner != caller {
            return Err(Error::AuthorizationError);
        }
        // validate the name bound: no mutation yet
        if name.len() > NAME_LIMIT {
            return Err(Error::ValidationError);
        }
        // commit: replace the fields under the same key
        let mut reviewer = match self.reviewers.take(id) {
            Some(p) => p,
            None => {
                return Err(Error::NotFoundError);
            },
        };
        reviewer.name = name;
        reviewer.star = star;
        self.reviewers.put(id.clone(), reviewer);
        proof {
            let pre = *old(self);
            let rv = ReviewerV { name: name@, star, ..pre.reviewers@[id@] };
            assert(self.reviewers@ =~= pre.reviewers@.insert(id@, rv));
            // the key set is unchanged and owner and id carry over
            assert forall|kk: Seq<u8>, i: int|
                self.reviewer_owner@.contains_key(kk) && 0 <= i
                    < self.reviewer_owner@[kk].len() implies self.reviewers@.contains_key(
                #[trigger] self.reviewer_owner@[kk][i]) by {
                assert(pre.reviewers@.contains_key(pre.reviewer_owner@[kk][i]));
            }
            assert forall|kk: Seq<u8>| #[trigger]
                self.reviewers@.contains_key(kk) implies self.reviewer_owned(
                self.reviewers@[kk].owner,
            ).contains(kk) by {
                assert(pre.reviewers@.contains_key(kk));
                assert(self.reviewers@[kk].owner == pre.reviewers@[kk].owner);
            }
            assert forall|kk: Seq<u8>| #[trigger]
                self.reviewers@.contains_key(kk) implies self.reviewers@[kk].name.len() <= (
            NAME_LIMIT as int) && self.reviewers@[kk].id == kk by {
                if kk != id@ {
                    assert(self.reviewers@[kk] == pre.reviewers@[kk]);
                } else {
                    assert(self.reviewers@[kk].id == pre.reviewers@[id@].id);
                }
            }
        }
        Ok(())
    }
}

} // verus!
