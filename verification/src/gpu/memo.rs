//! A small memo: values by key, in the order they were put in.
use vstd::prelude::*;

verus! {

/// A key that can be compared: two are the same where their views are.
pub trait MemoKey: View + Sized {
    fn same(&self, other: &Self) -> (b: bool)
        ensures
            b == (self@ == other@),
    ;
}

impl MemoKey for u64 {
    fn same(&self, other: &Self) -> (b: bool) {
        *self == *other
    }
}

/// Values by key.
pub struct Memo<K: MemoKey, V> {
    entries: Vec<(K, V)>,
}

/// Whether no two entries have the same key.
pub open spec fn distinct_keys<K, V>(s: Seq<(K, V)>) -> bool {
    forall|i: int, j: int| 0 <= i < j < s.len() ==> (#[trigger] s[i]).0 != (#[trigger] s[j]).0
}

/// The entries by key.
pub open spec fn as_map<K, V>(s: Seq<(K, V)>) -> Map<K, V>
    decreases s.len(),
{
    if s.len() == 0 {
        Map::empty()
    } else {
        as_map(s.drop_last()).insert(s.last().0, s.last().1)
    }
}

/// The values, in order.
pub open spec fn values<K, V>(s: Seq<(K, V)>) -> Seq<V> {
    Seq::new(s.len(), |i: int| s[i].1)
}

proof fn lemma_as_map<K, V>(s: Seq<(K, V)>)
    requires
        distinct_keys(s),
    ensures
        as_map(s).dom().finite(),
        as_map(s).dom().len() == s.len(),
        forall|k: K|
            as_map(s).dom().contains(k) <==> exists|i: int| 0 <= i < s.len() && s[i].0 == k,
        forall|i: int|
            0 <= i < s.len() ==> as_map(s).dom().contains((#[trigger] s[i]).0) && as_map(
                s,
            )[s[i].0] == s[i].1,
    decreases s.len(),
{
    if s.len() > 0 {
        let t = s.drop_last();
        assert forall|i: int, j: int| 0 <= i < j < t.len() implies (#[trigger] t[i]).0 != (
        #[trigger] t[j]).0 by {
            assert(s[i].0 != s[j].0);
        }
        lemma_as_map(t);
        let k = s.last().0;
        if as_map(t).dom().contains(k) {
            let i = choose|i: int| 0 <= i < t.len() && t[i].0 == k;
            assert(s[i].0 == s[s.len() - 1].0);
        }
        assert forall|x: K|
            as_map(s).dom().contains(x) <==> exists|i: int| 0 <= i < s.len() && s[i].0 == x by {
            if as_map(s).dom().contains(x) {
                if x == k {
                    assert(s[s.len() - 1].0 == x);
                } else {
                    let i = choose|i: int| 0 <= i < t.len() && t[i].0 == x;
                    assert(s[i].0 == x);
                }
            }
            if exists|i: int| 0 <= i < s.len() && s[i].0 == x {
                let i = choose|i: int| 0 <= i < s.len() && s[i].0 == x;
                if i < s.len() - 1 {
                    assert(t[i].0 == x);
                }
            }
        }
        assert forall|i: int| 0 <= i < s.len() implies as_map(s).dom().contains(
            (#[trigger] s[i]).0,
        ) && as_map(s)[s[i].0] == s[i].1 by {
            if i < s.len() - 1 {
                assert(t[i] == s[i]);
                assert(s[i].0 != s[s.len() - 1].0);
            }
        }
    }
}

impl<K: MemoKey, V> View for Memo<K, V> {
    type V = Map<K::V, V>;

    open spec fn view(&self) -> Map<K::V, V> {
        as_map(self.listed())
    }
}

impl<K: MemoKey, V> Memo<K, V> {
    /// The entries, in the order they were put in.
    pub closed spec fn listed(&self) -> Seq<(K::V, V)> {
        Seq::new(self.entries@.len(), |i: int| (self.entries@[i].0@, self.entries@[i].1))
    }

    pub closed spec fn wf(&self) -> bool {
        distinct_keys(self.listed())
    }

    /// A memo has as many keys as entries, and every entry under its key.
    pub proof fn lemma_entries(&self)
        requires
            self.wf(),
        ensures
            self@.dom().finite(),
            self@.dom().len() == self.listed().len(),
            forall|i: int|
                0 <= i < self.listed().len() ==> self@.dom().contains(
                    (#[trigger] self.listed()[i]).0,
                ) && self@[self.listed()[i].0] == self.listed()[i].1,
    {
        lemma_as_map(self.listed());
    }

    /// Every key is that of an entry.
    pub proof fn lemma_key(&self, k: K::V)
        requires
            self.wf(),
            self@.dom().contains(k),
        ensures
            exists|i: int|
                0 <= i < self.listed().len() && (#[trigger] self.listed()[i]).0 == k
                    && self.listed()[i].1 == self@[k],
    {
        lemma_as_map(self.listed());
        let i = choose|i: int| 0 <= i < self.listed().len() && self.listed()[i].0 == k;
        assert(self.listed()[i].0 == k);
    }

    pub fn new() -> (m: Self)
        ensures
            m.wf(),
            m.listed() == Seq::<(K::V, V)>::empty(),
            m@ == Map::<K::V, V>::empty(),
    {
        let m = Memo { entries: Vec::new() };
        assert(m.listed() =~= Seq::empty());
        m
    }

    pub fn len(&self) -> (n: usize)
        requires
            self.wf(),
        ensures
            n == self@.dom().len(),
            n == self.listed().len(),
    {
        proof {
            lemma_as_map(self.listed());
        }
        self.entries.len()
    }

    /// Puts in a value whose key is not there yet.
    pub fn insert(&mut self, key: K, value: V)
        requires
            old(self).wf(),
            !old(self)@.dom().contains(key@),
        ensures
            final(self).wf(),
            final(self).listed() == old(self).listed().push((key@, value)),
            final(self)@ == old(self)@.insert(key@, value),
    {
        proof {
            lemma_as_map(self.listed());
        }
        self.entries.push((key, value));
        assert(self.listed() =~= old(self).listed().push((key@, value)));
        assert(self.listed().drop_last() =~= old(self).listed());
    }

    /// Takes every value out.
    pub fn drain(&mut self) -> (out: Vec<V>)
        requires
            old(self).wf(),
        ensures
            final(self).wf(),
            final(self).listed() == Seq::<(K::V, V)>::empty(),
            final(self)@ == Map::<K::V, V>::empty(),
            out@ == values(old(self).listed()),
    {
        let mut taken: Vec<(K, V)> = Vec::new();
        std::mem::swap(&mut taken, &mut self.entries);
        let mut rev: Vec<V> = Vec::new();
        let ghost all = taken@;
        while taken.len() > 0
            invariant
                taken@.len() + rev@.len() == all.len(),
                taken@ == all.take(taken@.len() as int),
                forall|i: int|
                    0 <= i < rev@.len() ==> #[trigger] rev@[i] == all[all.len() - 1 - i].1,
            decreases taken.len(),
        {
            let ghost n = taken@.len();
            match taken.pop() {
                Some(e) => {
                    assert(e == all[n - 1]);
                    rev.push(e.1);
                },
                None => {},
            }
            assert(taken@ =~= all.take(taken@.len() as int));
        }
        let mut out: Vec<V> = Vec::new();
        while rev.len() > 0
            invariant
                rev@.len() + out@.len() == all.len(),
                forall|i: int|
                    0 <= i < rev@.len() ==> #[trigger] rev@[i] == all[all.len() - 1 - i].1,
                forall|i: int| 0 <= i < out@.len() ==> #[trigger] out@[i] == all[i].1,
            decreases rev.len(),
        {
            match rev.pop() {
                Some(v) => {
                    out.push(v);
                },
                None => {},
            }
        }
        assert(out@ =~= values(old(self).listed()));
        assert(self.listed() =~= Seq::empty());
        out
    }
}

impl<K: MemoKey, V: Copy> Memo<K, V> {
    /// The value under a key.
    pub fn get(&self, key: &K) -> (r: Option<V>)
        requires
            self.wf(),
        ensures
            r is Some <==> self@.dom().contains(key@),
            r is Some ==> r->0 == self@[key@],
    {
        proof {
            lemma_as_map(self.listed());
        }
        let mut i: usize = 0;
        while i < self.entries.len()
            invariant
                i <= self.entries@.len(),
                self.listed().len() == self.entries@.len(),
                forall|j: int|
                    0 <= j < self.entries@.len() ==> (#[trigger] self.listed()[j]) == (
                        self.entries@[j].0@,
                        self.entries@[j].1,
                    ),
                self@.dom().contains(key@) <==> exists|j: int|
                    0 <= j < self.listed().len() && self.listed()[j].0 == key@,
                forall|j: int|
                    0 <= j < self.listed().len() ==> self@.dom().contains(
                        (#[trigger] self.listed()[j]).0,
                    ) && self@[self.listed()[j].0] == self.listed()[j].1,
                forall|j: int| 0 <= j < i ==> (#[trigger] self.listed()[j]).0 != key@,
            decreases self.entries.len() - i,
        {
            assert(self.listed()[i as int].0 == self.entries@[i as int].0@);
            if self.entries[i].0.same(key) {
                return Some(self.entries[i].1);
            }
            i = i + 1;
        }
        None
    }
}

} // verus!
