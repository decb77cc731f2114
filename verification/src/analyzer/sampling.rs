//! Image/sampler pairs that a function samples with.

use crate::arena::Handle;
use crate::ir::GlobalVariable;
use vstd::prelude::*;
use vstd::std_specs::cmp::PartialEqSpecImpl;

verus! {

/// An image and a sampler that are used together in a sampling operation.
#[derive(Clone, Copy, Debug)]
pub struct SamplingKey {
    pub image: Handle<GlobalVariable>,
    pub sampler: Handle<GlobalVariable>,
}

impl PartialEq for SamplingKey {
    fn eq(&self, other: &Self) -> (equal: bool) {
        self.image == other.image && self.sampler == other.sampler
    }
}

impl Eq for SamplingKey {

}

impl PartialEqSpecImpl for SamplingKey {
    open spec fn obeys_eq_spec() -> bool {
        true
    }

    open spec fn eq_spec(&self, other: &Self) -> bool {
        *self == *other
    }
}

/// A set of image/sampler pairs.
///
/// The pairs are kept in the order in which they were first inserted, and
/// no pair is kept twice.
#[derive(Debug)]
pub struct SamplingSet {
    keys: Vec<SamplingKey>,
}

impl View for SamplingSet {
    type V = Set<SamplingKey>;

    closed spec fn view(&self) -> Set<SamplingKey> {
        self.keys@.to_set()
    }
}

impl SamplingSet {
    /// The set is well formed: no pair is kept twice.
    pub closed spec fn wf(&self) -> bool {
        self.keys@.no_duplicates()
    }

    /// Creates an empty set.
    pub fn new() -> (set: Self)
        ensures
            set.wf(),
            set@ == Set::<SamplingKey>::empty(),
    {
        let set = SamplingSet { keys: Vec::new() };
        assert(set.keys@.to_set() =~= Set::<SamplingKey>::empty());
        set
    }

    /// Returns the number of pairs in the set.
    pub fn len(&self) -> (n: usize)
        requires
            self.wf(),
        ensures
            n == self@.len(),
    {
        proof {
            self.keys@.unique_seq_to_set();
        }
        self.keys.len()
    }

    /// Returns `true` if the set holds no pair.
    pub fn is_empty(&self) -> (empty: bool)
        ensures
            empty == (self@ == Set::<SamplingKey>::empty()),
    {
        proof {
            if self.keys@.len() > 0 {
                assert(self.keys@.to_set().contains(self.keys@[0]));
            } else {
                assert(self.keys@.to_set() =~= Set::<SamplingKey>::empty());
            }
        }
        self.keys.len() == 0
    }

    /// Returns `true` if the set holds `key`.
    pub fn contains(&self, key: &SamplingKey) -> (found: bool)
        ensures
            found == self@.contains(*key),
    {
        let mut i: usize = 0;
        while i < self.keys.len()
            invariant
                i <= self.keys@.len(),
                forall|j: int| 0 <= j < i ==> self.keys@[j] != *key,
            decreases self.keys@.len() - i,
        {
            if self.keys[i] == *key {
                assert(self.keys@.to_set().contains(self.keys@[i as int]));
                return true;
            }
            i = i + 1;
        }
        false
    }

    /// Adds `key` to the set, and returns whether it was not there before.
    pub fn insert(&mut self, key: SamplingKey) -> (inserted: bool)
        requires
            old(self).wf(),
        ensures
            final(self).wf(),
            final(self)@ == old(self)@.insert(key),
            inserted == !old(self)@.contains(key),
    {
        if self.contains(&key) {
            assert(self@.insert(key) =~= self@);
            false
        } else {
            proof {
                self.keys@.lemma_push_to_set_commute(key);
            }
            self.keys.push(key);
            true
        }
    }

    /// Adds every pair of `other` to the set.
    pub fn extend(&mut self, other: &SamplingSet)
        requires
            old(self).wf(),
        ensures
            final(self).wf(),
            final(self)@ == old(self)@.union(other@),
    {
        let mut i: usize = 0;
        assert(other.keys@.take(0).to_set() =~= Set::<SamplingKey>::empty());
        assert(self@.union(Set::<SamplingKey>::empty()) =~= self@);
        while i < other.keys.len()
            invariant
                i <= other.keys@.len(),
                self.wf(),
                self@ == old(self)@.union(other.keys@.take(i as int).to_set()),
            decreases other.keys@.len() - i,
        {
            proof {
                let prefix = other.keys@.take(i as int);
                assert(other.keys@.take(i + 1) =~= prefix.push(other.keys@[i as int]));
                prefix.lemma_push_to_set_commute(other.keys@[i as int]);
                assert(old(self)@.union(prefix.to_set()).insert(other.keys@[i as int]) =~= old(
                    self,
                )@.union(prefix.to_set().insert(other.keys@[i as int])));
            }
            self.insert(other.keys[i]);
            i = i + 1;
        }
        proof {
            assert(other.keys@.take(i as int) =~= other.keys@);
        }
    }

    /// Returns the pairs of the set, each one once, in the order in which
    /// they were first inserted.
    pub fn to_vec(&self) -> (keys: Vec<SamplingKey>)
        requires
            self.wf(),
        ensures
            keys@.to_set() == self@,
            keys@.no_duplicates(),
    {
        let mut keys: Vec<SamplingKey> = Vec::new();
        let mut i: usize = 0;
        while i < self.keys.len()
            invariant
                i <= self.keys@.len(),
                keys@ == self.keys@.take(i as int),
            decreases self.keys@.len() - i,
        {
            keys.push(self.keys[i]);
            assert(self.keys@.take(i + 1) =~= self.keys@.take(i as int).push(self.keys@[i as int]));
            i = i + 1;
        }
        assert(self.keys@.take(i as int) =~= self.keys@);
        keys
    }
}

} // verus!
