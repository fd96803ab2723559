use vstd::prelude::*;
use crate::errors::Error;

verus! {

/// Bounded Collection: a fixed-capacity ordered sequence of store keys, in
/// insertion order. The capacity comes from configuration at each push, and a
/// push past it fails explicitly instead of truncating or dropping an entry.
pub struct BoundedKeys {
    keys: Vec<Vec<u8>>,
}

impl View for BoundedKeys {
    type V = Seq<Seq<u8>>;

    closed spec fn view(&self) -> Seq<Seq<u8>> {
        Seq::new(self.keys@.len(), |i: int| self.keys@[i]@)
    }
}

impl BoundedKeys {
    pub fn new() -> (b: BoundedKeys)
        ensures
            b@ == Seq::<Seq<u8>>::empty(),
    {
        let b = BoundedKeys { keys: Vec::new() };
        proof {
            assert(b@ =~= Seq::<Seq<u8>>::empty());
        }
        b
    }

    pub fn len(&self) -> (n: usize)
        ensures
            n == self@.len(),
    {
        self.keys.len()
    }

    /// Appends a key, keeping insertion order; fails with `CapacityError`
    /// exactly when the collection already holds `cap` keys.
    pub fn push(&mut self, cap: u32, key: Vec<u8>) -> (r: Result<(), Error>)
        ensures
            r is Ok <==> old(self)@.len() < cap,
            r is Ok ==> final(self)@ == old(self)@.push(key@),
            r is Err ==> *final(self) == *old(self) && r == Err::<(), Error>(Error::CapacityError),
    {
        if self.keys.len() < cap as usize {
            self.keys.push(key);
            proof {
                assert(self@ =~= old(self)@.push(key@));
            }
            Ok(())
        } else {
            Err(Error::CapacityError)
        }
    }

    /// Read access to the ordered sequence, one key at a time.
    pub fn index(&self, i: usize) -> (k: &Vec<u8>)
        requires
            i < self@.len(),
        ensures
            k@ == self@[i as int],
    {
        &self.keys[i]
    }
}

} // verus!
