//! Caches that are emptied when they are full.
use crate::gpu::memo::{values, Memo, MemoKey};
use vstd::prelude::*;

verus! {

/// Objects by key, at most a number of them: when one more is to come, all are given up.
pub struct Bounded<K: MemoKey> {
    memo: Memo<K, u64>,
    bound: usize,
}

impl<K: MemoKey> View for Bounded<K> {
    type V = Map<K::V, u64>;

    closed spec fn view(&self) -> Map<K::V, u64> {
        self.memo@
    }
}

impl<K: MemoKey> Bounded<K> {
    pub closed spec fn wf(&self) -> bool {
        self.memo.wf() && self.memo@.dom().len() <= self.bound && self.bound > 0
    }

    /// The most objects that the cache holds.
    pub closed spec fn most(&self) -> nat {
        self.bound as nat
    }

    /// The objects, in the order they were put in.
    pub closed spec fn listed(&self) -> Seq<u64> {
        values(self.memo.listed())
    }

    /// The cache holds no more than its bound, and lists each of its objects.
    pub proof fn law_bounded(&self)
        requires
            self.wf(),
        ensures
            self@.dom().finite(),
            self@.dom().len() <= self.most(),
            self.listed().len() == self@.dom().len(),
            forall|k: K::V| self@.dom().contains(k) ==> self.listed().contains(#[trigger] self@[k]),
    {
        self.memo.lemma_entries();
        assert forall|k: K::V| self@.dom().contains(k) implies self.listed().contains(
            #[trigger] self@[k],
        ) by {
            self.memo.lemma_key(k);
            let i = choose|i: int|
                0 <= i < self.memo.listed().len() && (#[trigger] self.memo.listed()[i]).0 == k;
            assert(self.listed()[i] == self@[k]);
        }
    }

    pub fn new(bound: usize) -> (c: Self)
        requires
            bound > 0,
        ensures
            c.wf(),
            c@ == Map::<K::V, u64>::empty(),
            c.most() == bound,
    {
        Bounded { memo: Memo::new(), bound }
    }

    /// The object under a key.
    pub fn get(&self, key: &K) -> (r: Option<u64>)
        requires
            self.wf(),
        ensures
            r is Some <==> self@.dom().contains(key@),
            r is Some ==> r->0 == self@[key@],
    {
        self.memo.get(key)
    }

    /// Makes room for one more object: a full cache gives up all that it holds.
    pub fn make_room(&mut self) -> (out: Vec<u64>)
        requires
            old(self).wf(),
        ensures
            final(self).wf(),
            final(self).most() == old(self).most(),
            final(self)@.dom().len() < final(self).most(),
            old(self)@.dom().len() >= old(self).most() ==> final(self)@ == Map::<K::V, u64>::empty()
                && out@ == old(self).listed(),
            old(self)@.dom().len() < old(self).most() ==> final(self)@ == old(self)@ && out@
                == Seq::<u64>::empty(),
    {
        if self.memo.len() >= self.bound {
            self.memo.drain()
        } else {
            Vec::new()
        }
    }

    /// Puts an object in, under a key that is not there.
    pub fn put(&mut self, key: K, object: u64)
        requires
            old(self).wf(),
            old(self)@.dom().len() < old(self).most(),
            !old(self)@.dom().contains(key@),
        ensures
            final(self).wf(),
            final(self).most() == old(self).most(),
            final(self)@ == old(self)@.insert(key@, object),
    {
        proof {
            self.memo.lemma_entries();
        }
        self.memo.insert(key, object);
    }

    /// Gives up all that the cache holds.
    pub fn drain(&mut self) -> (out: Vec<u64>)
        requires
            old(self).wf(),
        ensures
            final(self).wf(),
            final(self).most() == old(self).most(),
            final(self)@ == Map::<K::V, u64>::empty(),
            out@ == old(self).listed(),
    {
        self.memo.drain()
    }
}

/// What a kept frame target is kept under.
#[derive(Debug, Clone, Copy, PartialEq, Eq, Structural)]
pub struct TargetKey {
    pub width: u32,
    pub height: u32,
    pub with_depth: bool,
}

impl View for TargetKey {
    type V = TargetKey;

    open spec fn view(&self) -> TargetKey {
        *self
    }
}

impl MemoKey for TargetKey {
    fn same(&self, other: &Self) -> (b: bool) {
        *self == *other
    }
}

/// What imported guest memory is kept under.
#[derive(Debug, Clone, Copy, PartialEq, Eq, Structural)]
pub struct ImportKey {
    pub address: u64,
    pub size: u64,
}

impl View for ImportKey {
    type V = ImportKey;

    open spec fn view(&self) -> ImportKey {
        *self
    }
}

impl MemoKey for ImportKey {
    fn same(&self, other: &Self) -> (b: bool) {
        *self == *other
    }
}

/// The most kept frame targets, and the most imports.
pub const MAX_CACHED_SCRATCH: usize = 8;

/// The most kept descriptor-set layouts.
pub const MAX_DESC_SET_LAYOUTS: usize = 64;

} // verus!
