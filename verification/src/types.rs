use vstd::prelude::*;

verus! {

/// The fixed byte limit on a profile's display name.
pub const NAME_LIMIT: usize = 20;

/// The mathematical content of an app record.
pub ghost struct AppV {
    pub id: u32,
    pub name: Seq<u8>,
    pub symbol: Seq<u8>,
    pub owner: u64,
    pub created_at: u64,
    pub star: Option<u32>,
}

/// An application record. Its `id` is a secondary, monotonically assigned
/// attribute; the store keys the record by a content-derived hash instead.
/// `id` and `owner` never change after creation.
pub struct App {
    id: u32,
    name: Vec<u8>,
    symbol: Vec<u8>,
    owner: u64,
    created_at: u64,
    star: Option<u32>,
}

impl View for App {
    type V = AppV;

    closed spec fn view(&self) -> AppV {
        AppV {
            id: self.id,
            name: self.name@,
            symbol: self.symbol@,
            owner: self.owner,
            created_at: self.created_at,
            star: self.star,
        }
    }
}

impl App {
    /// Builds a fresh record at the given creation time, with no rating yet.
    pub fn create(id: u32, owner: u64, name: Vec<u8>, symbol: Vec<u8>, created_at: u64) -> (a:
        App)
        ensures
            a@ == (AppV { id, name: name@, symbol: symbol@, owner, created_at, star: Option::None }),
    {
        App { id, name, owner, symbol, created_at, star: None }
    }

    pub fn id(&self) -> (r: u32)
        ensures
            r == self@.id,
    {
        self.id
    }

    pub fn name(&self) -> (r: Vec<u8>)
        ensures
            r@ == self@.name,
    {
        self.name.clone()
    }

    pub fn symbol(&self) -> (r: Vec<u8>)
        ensures
            r@ == self@.symbol,
    {
        self.symbol.clone()
    }

    pub fn owner(&self) -> (r: u64)
        ensures
            r == self@.owner,
    {
        self.owner
    }

    pub fn created_at(&self) -> (r: u64)
        ensures
            r == self@.created_at,
    {
        self.created_at
    }

    pub fn star(&self) -> (r: Option<u32>)
        ensures
            r == self@.star,
    {
        self.star
    }

    pub fn set_name(&mut self, name: Vec<u8>)
        ensures
            final(self)@ == (AppV { name: name@, ..old(self)@ }),
    {
        self.name = name;
    }

    pub fn set_symbol(&mut self, symbol: Vec<u8>)
        ensures
            final(self)@ == (AppV { symbol: symbol@, ..old(self)@ }),
    {
        self.symbol = symbol;
    }

    pub fn set_star(&mut self, star: u32)
        ensures
            final(self)@ == (AppV { star: Option::Some(star), ..old(self)@ }),
    {
        self.star = Some(star);
    }
}

/// The mathematical content of a review record.
pub ghost struct ReviewV {
    pub app_ref: Seq<u8>,
    pub star: Option<u32>,
    pub title: Seq<u8>,
    pub cons: Seq<u8>,
    pub pros: Seq<u8>,
    pub owner: u64,
    pub created_at: u64,
}

/// A review of an existing app, keyed in its store by a content-derived hash.
/// `app_ref` holds the store key of the reviewed app.
pub struct Review {
    pub app_ref: Vec<u8>,
    pub star: Option<u32>,
    pub title: Vec<u8>,
    pub cons: Vec<u8>,
    pub pros: Vec<u8>,
    pub owner: u64,
    pub created_at: u64,
}

impl View for Review {
    type V = ReviewV;

    open spec fn view(&self) -> ReviewV {
        ReviewV {
            app_ref: self.app_ref@,
            star: self.star,
            title: self.title@,
            cons: self.cons@,
            pros: self.pros@,
            owner: self.owner,
            created_at: self.created_at,
        }
    }
}

/// A profile's display name, bounded to `NAME_LIMIT` bytes when it enters
/// the registry.
pub struct Name(Vec<u8>);

impl View for Name {
    type V = Seq<u8>;

    closed spec fn view(&self) -> Seq<u8> {
        self.0@
    }
}

impl Name {
    pub fn new(bytes: Vec<u8>) -> (n: Name)
        ensures
            n@ == bytes@,
    {
        Name(bytes)
    }

    pub fn len(&self) -> (r: usize)
        ensures
            r == self@.len(),
    {
        self.0.len()
    }

    pub fn bytes(&self) -> (r: &Vec<u8>)
        ensures
            r@ == self@,
    {
        &self.0
    }
}

/// The mathematical content of a profile record.
pub ghost struct ReviewerV {
    pub id: Seq<u8>,
    pub name: Seq<u8>,
    pub star: Option<u32>,
    pub owner: u64,
}

/// A profile, keyed by an entropy-derived identifier that also sits
/// in the record itself.
pub struct Reviewer {
    pub id: Vec<u8>,
    pub name: Name,
    pub star: Option<u32>,
    pub owner: u64,
}

impl View for Reviewer {
    type V = ReviewerV;

    open spec fn view(&self) -> ReviewerV {
        ReviewerV { id: self.id@, name: self.name@, star: self.star, owner: self.owner }
    }
}

} // verus!
