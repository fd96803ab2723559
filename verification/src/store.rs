use vstd::prelude::*;

verus! {

/// Entity Store: a generic content-keyed map for entity records, modelled as
/// a `Map` from key bytes to the record's view. The representation is an
/// association list whose keys are kept pairwise distinct. An atomic
/// read-modify-write is `take`, modify, `put` inside a guarded operation:
/// every check happens before the first of the writes, so either all of them
/// land or none does.
pub struct KeyMap<V> {
    pairs: Vec<(Vec<u8>, V)>,
}

/// The map that an association sequence denotes, later bindings winning.
pub open spec fn assoc_map<V: View>(s: Seq<(Vec<u8>, V)>) -> Map<Seq<u8>, V::V>
    decreases s.len(),
{
    if s.len() == 0 {
        Map::empty()
    } else {
        assoc_map(s.drop_last()).insert(s.last().0@, s.last().1@)
    }
}

/// Whether the sequence binds each key at most once.
pub open spec fn distinct_keys<V>(s: Seq<(Vec<u8>, V)>) -> bool {
    forall|i: int, j: int|
        0 <= i < s.len() && 0 <= j < s.len() && i != j ==> (#[trigger] s[i]).0@ != (
        #[trigger] s[j]).0@
}

proof fn lemma_assoc_contains<V: View>(s: Seq<(Vec<u8>, V)>, k: Seq<u8>)
    ensures
        assoc_map(s).contains_key(k) <==> exists|i: int|
            0 <= i < s.len() && (#[trigger] s[i]).0@ == k,
    decreases s.len(),
{
    if s.len() > 0 {
        lemma_assoc_contains(s.drop_last(), k);
        if s.last().0@ == k {
            assert((s[s.len() - 1]).0@ == k);
        } else {
            if exists|i: int| 0 <= i < s.len() && (#[trigger] s[i]).0@ == k {
                let i = choose|i: int| 0 <= i < s.len() && (#[trigger] s[i]).0@ == k;
                assert(i < s.len() - 1);
                assert((s.drop_last()[i]).0@ == k);
            }
            if exists|i: int| 0 <= i < s.drop_last().len() && (#[trigger] s.drop_last()[i]).0@
                == k {
                let i = choose|i: int|
                    0 <= i < s.drop_last().len() && (#[trigger] s.drop_last()[i]).0@ == k;
                assert((s[i]).0@ == k);
            }
        }
    }
}

proof fn lemma_assoc_value<V: View>(s: Seq<(Vec<u8>, V)>, i: int)
    requires
        distinct_keys(s),
        0 <= i < s.len(),
    ensures
        assoc_map(s).contains_key(s[i].0@),
        assoc_map(s)[s[i].0@] == s[i].1@,
    decreases s.len(),
{
    if i < s.len() - 1 {
        assert(s.last() == s[s.len() - 1]);
        assert(s.last().0@ != s[i].0@);
        assert(distinct_keys(s.drop_last())) by {
            assert forall|i2: int, j2: int|
                0 <= i2 < s.drop_last().len() && 0 <= j2 < s.drop_last().len() && i2
                    != j2 implies (#[trigger] s.drop_last()[i2]).0@ != (
            #[trigger] s.drop_last()[j2]).0@ by {
                assert(s.drop_last()[i2] == s[i2]);
                assert(s.drop_last()[j2] == s[j2]);
            }
        }
        lemma_assoc_value(s.drop_last(), i);
        assert(s.drop_last()[i] == s[i]);
    }
}

proof fn lemma_distinct_drop_last<V>(s: Seq<(Vec<u8>, V)>)
    requires
        distinct_keys(s),
        s.len() > 0,
    ensures
        distinct_keys(s.drop_last()),
{
    assert forall|i2: int, j2: int|
        0 <= i2 < s.drop_last().len() && 0 <= j2 < s.drop_last().len() && i2 != j2 implies (
    #[trigger] s.drop_last()[i2]).0@ != (#[trigger] s.drop_last()[j2]).0@ by {
        assert(s.drop_last()[i2] == s[i2]);
        assert(s.drop_last()[j2] == s[j2]);
    }
}

proof fn lemma_distinct_push<V>(s: Seq<(Vec<u8>, V)>, p: (Vec<u8>, V))
    requires
        distinct_keys(s),
        forall|i: int| 0 <= i < s.len() ==> (#[trigger] s[i]).0@ != p.0@,
    ensures
        distinct_keys(s.push(p)),
{
    assert forall|i2: int, j2: int|
        0 <= i2 < s.push(p).len() && 0 <= j2 < s.push(p).len() && i2 != j2 implies (
    #[trigger] s.push(p)[i2]).0@ != (#[trigger] s.push(p)[j2]).0@ by {
        if i2 < s.len() {
            assert(s.push(p)[i2] == s[i2]);
        } else {
            assert(s.push(p)[i2] == p);
        }
        if j2 < s.len() {
            assert(s.push(p)[j2] == s[j2]);
        } else {
            assert(s.push(p)[j2] == p);
        }
    }
}

proof fn lemma_assoc_push<V: View>(s: Seq<(Vec<u8>, V)>, p: (Vec<u8>, V))
    ensures
        assoc_map(s.push(p)) == assoc_map(s).insert(p.0@, p.1@),
{
    assert(s.push(p).drop_last() =~= s);
    assert(s.push(p).last() == p);
}

proof fn lemma_assoc_remove<V: View>(s: Seq<(Vec<u8>, V)>, i: int)
    requires
        distinct_keys(s),
        0 <= i < s.len(),
    ensures
        distinct_keys(s.remove(i)),
        forall|j: int| 0 <= j < s.remove(i).len() ==> (#[trigger] s.remove(i)[j]).0@ != s[i].0@,
        assoc_map(s.remove(i)) == assoc_map(s).remove(s[i].0@),
    decreases s.len(),
{
    s.remove_ensures(i);
    assert forall|j: int| 0 <= j < s.remove(i).len() implies (#[trigger] s.remove(i)[j]).0@
        != s[i].0@ by {
        if j < i {
            assert(s.remove(i)[j] == s[j]);
        } else {
            assert(s.remove(i)[j] == s[j + 1]);
        }
    }
    assert forall|i2: int, j2: int|
        0 <= i2 < s.remove(i).len() && 0 <= j2 < s.remove(i).len() && i2 != j2 implies (
    #[trigger] s.remove(i)[i2]).0@ != (#[trigger] s.remove(i)[j2]).0@ by {
        if i2 < i {
            assert(s.remove(i)[i2] == s[i2]);
        } else {
            assert(s.remove(i)[i2] == s[i2 + 1]);
        }
        if j2 < i {
            assert(s.remove(i)[j2] == s[j2]);
        } else {
            assert(s.remove(i)[j2] == s[j2 + 1]);
        }
    }
    let k = s[i].0@;
    if i == s.len() - 1 {
        assert(s.remove(i) =~= s.drop_last());
        lemma_distinct_drop_last(s);
        lemma_assoc_contains::<V>(s.drop_last(), k);
        assert(!assoc_map(s.drop_last()).contains_key(k)) by {
            if exists|j: int| 0 <= j < s.drop_last().len() && (#[trigger] s.drop_last()[j]).0@
                == k {
                let j = choose|j: int|
                    0 <= j < s.drop_last().len() && (#[trigger] s.drop_last()[j]).0@ == k;
                assert(s.drop_last()[j] == s[j]);
            }
        }
        assert(assoc_map(s.drop_last()) =~= assoc_map(s).remove(k));
    } else {
        lemma_distinct_drop_last(s);
        assert(s.drop_last()[i] == s[i]);
        lemma_assoc_remove::<V>(s.drop_last(), i);
        assert(s.remove(i).drop_last() =~= s.drop_last().remove(i));
        assert(s.remove(i).last() == s.last()) by {
            assert(s.remove(i)[s.len() - 2] == s[s.len() - 1]);
        }
        assert(s.last().0@ != k);
        assert(assoc_map(s.remove(i)) == assoc_map(s.drop_last()).remove(k).insert(
            s.last().0@,
            s.last().1@,
        ));
        assert(assoc_map(s.drop_last()).remove(k).insert(s.last().0@, s.last().1@) =~= assoc_map(
            s.drop_last(),
        ).insert(s.last().0@, s.last().1@).remove(k));
    }
}

/// Byte-for-byte equality of two keys.
pub fn key_eq(a: &Vec<u8>, b: &Vec<u8>) -> (r: bool)
    ensures
        r == (a@ == b@),
{
    if a.len() != b.len() {
        proof {
            assert(a@.len() != b@.len());
        }
        return false;
    }
    let n = a.len();
    let mut i: usize = 0;
    while i < n
        invariant
            n == a@.len(),
            a@.len() == b@.len(),
            i <= n,
            forall|j: int| 0 <= j < i ==> a@[j] == b@[j],
        decreases n - i,
    {
        if a[i] != b[i] {
            return false;
        }
        i = i + 1;
    }
    proof {
        assert(a@ =~= b@);
    }
    true
}

impl<V: View> View for KeyMap<V> {
    type V = Map<Seq<u8>, V::V>;

    closed spec fn view(&self) -> Map<Seq<u8>, V::V> {
        assoc_map(self.pairs@)
    }
}

impl<V: View> KeyMap<V> {
    /// The representation binds each key at most once.
    pub closed spec fn wf(self) -> bool {
        distinct_keys(self.pairs@)
    }

    pub fn new() -> (m: Self)
        ensures
            m.wf(),
            m@ == Map::<Seq<u8>, V::V>::empty(),
    {
        KeyMap { pairs: Vec::new() }
    }

    fn find(&self, key: &Vec<u8>) -> (r: Option<usize>)
        ensures
            match r {
                Option::Some(i) => i < self.pairs@.len() && (self.pairs@[i as int]).0@ == key@,
                Option::None => forall|i: int|
                    0 <= i < self.pairs@.len() ==> (#[trigger] self.pairs@[i]).0@ != key@,
            },
    {
        let n = self.pairs.len();
        let mut i: usize = 0;
        while i < n
            invariant
                n == self.pairs@.len(),
                i <= n,
                forall|j: int| 0 <= j < i ==> (#[trigger] self.pairs@[j]).0@ != key@,
            decreases n - i,
        {
            if key_eq(&self.pairs[i].0, key) {
                return Some(i);
            }
            i = i + 1;
        }
        None
    }

    /// Whether a key is bound in the store.
    pub fn contains(&self, key: &Vec<u8>) -> (r: bool)
        ensures
            r == self@.contains_key(key@),
    {
        proof {
            lemma_assoc_contains::<V>(self.pairs@, key@);
        }
        match self.find(key) {
            Some(_) => true,
            None => false,
        }
    }

    /// Point lookup: the record bound to a key, or absence.
    pub fn get(&self, key: &Vec<u8>) -> (r: Option<&V>)
        requires
            self.wf(),
        ensures
            match r {
                Option::Some(v) => self@.contains_key(key@) && v@ == self@[key@],
                Option::None => !self@.contains_key(key@),
            },
    {
        proof {
            lemma_assoc_contains::<V>(self.pairs@, key@);
        }
        match self.find(key) {
            Some(i) => {
                proof {
                    lemma_assoc_value::<V>(self.pairs@, i as int);
                }
                Some(&self.pairs[i].1)
            },
            None => None,
        }
    }

    /// Unconditional insert or overwrite, only to be used inside a guarded
    /// transaction.
    pub fn put(&mut self, key: Vec<u8>, value: V)
        requires
            old(self).wf(),
        ensures
            final(self).wf(),
            final(self)@ == old(self)@.insert(key@, value@),
    {
        match self.find(&key) {
            Some(i) => {
                proof {
                    lemma_assoc_remove::<V>(self.pairs@, i as int);
                }
                let _ = self.pairs.remove(i);
                proof {
                    lemma_distinct_push(self.pairs@, (key, value));
                    lemma_assoc_push(self.pairs@, (key, value));
                    assert(old(self)@.remove(key@).insert(key@, value@) =~= old(self)@.insert(
                        key@,
                        value@,
                    ));
                }
                self.pairs.push((key, value));
            },
            None => {
                proof {
                    lemma_distinct_push(self.pairs@, (key, value));
                    lemma_assoc_push(self.pairs@, (key, value));
                }
                self.pairs.push((key, value));
            },
        }
    }

    /// Removes and returns the record bound to a key, if any.
    pub fn take(&mut self, key: &Vec<u8>) -> (r: Option<V>)
        requires
            old(self).wf(),
        ensures
            final(self).wf(),
            final(self)@ == old(self)@.remove(key@),
            match r {
                Option::Some(v) => old(self)@.contains_key(key@) && v@ == old(self)@[key@],
                Option::None => !old(self)@.contains_key(key@),
            },
    {
        proof {
            lemma_assoc_contains::<V>(self.pairs@, key@);
        }
        match self.find(key) {
            Some(i) => {
                proof {
                    lemma_assoc_value::<V>(self.pairs@, i as int);
                    lemma_assoc_remove::<V>(self.pairs@, i as int);
                }
                let (_, v) = self.pairs.remove(i);
                Some(v)
            },
            None => {
                proof {
                    assert(old(self)@.remove(key@) =~= old(self)@);
                }
                None
            },
        }
    }
}

} // verus!
