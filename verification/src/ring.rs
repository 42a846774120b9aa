//! A single-producer, single-consumer descriptor ring with seqno completion. The guest pushes
//! descriptors, the host pops and retires them; the highest retired seqno resolves fences.
use vstd::arithmetic::power2::{lemma2_to64, lemma_pow2_adds, lemma_pow2_pos, lemma_pow2_strictly_increases, pow2};
use vstd::prelude::*;

verus! {

/// The number of values of an index word.
pub const WORD: u64 = 0x1_0000_0000;

/// How far `tail` is ahead of `head`, with the words wrapping around.
pub open spec fn distance(head: u32, tail: u32) -> int {
    (tail - head) % (WORD as int)
}

/// The index after `i`.
pub open spec fn next_index(i: u32) -> int {
    (i + 1) % (WORD as int)
}

/// The slot that index `i` names.
pub open spec fn slot_of(i: int, cap: int) -> int {
    (i % (WORD as int)) % cap
}

/// Whether `n` slots can make a ring: a power of two that an index word holds.
pub open spec fn ring_size(n: nat) -> bool {
    n <= u32::MAX && exists|k: nat| n == #[trigger] pow2(k)
}

/// One ring slot.
#[derive(Debug)]
pub struct Slot<T>(T);

impl<T> Slot<T> {
    /// What the slot holds.
    pub closed spec fn holds(&self) -> T {
        self.0
    }

    pub fn new(v: T) -> (s: Self)
        ensures
            s.holds() == v,
    {
        Slot(v)
    }
}

/// The index words. The producer owns `tail` and `seqno_submit`, the consumer `head`,
/// `seqno_retired` and `status`.
#[derive(Debug)]
pub struct Indices {
    tail: u32,
    head: u32,
    seqno_submit: u64,
    seqno_retired: u64,
    status: u32,
}

/// The values of the index words.
pub struct IndexWords {
    pub tail: u32,
    pub head: u32,
    pub seqno_submit: u64,
    pub seqno_retired: u64,
    pub status: u32,
}

impl View for Indices {
    type V = IndexWords;

    closed spec fn view(&self) -> IndexWords {
        IndexWords {
            tail: self.tail,
            head: self.head,
            seqno_submit: self.seqno_submit,
            seqno_retired: self.seqno_retired,
            status: self.status,
        }
    }
}

impl Indices {
    /// All words zero.
    pub fn new() -> (i: Self)
        ensures
            i@ == (IndexWords {
                tail: 0,
                head: 0,
                seqno_submit: 0,
                seqno_retired: 0,
                status: 0,
            }),
    {
        Indices { tail: 0, head: 0, seqno_submit: 0, seqno_retired: 0, status: 0 }
    }
}

impl Default for Indices {
    fn default() -> (i: Self)
        ensures
            i@ == (IndexWords {
                tail: 0,
                head: 0,
                seqno_submit: 0,
                seqno_retired: 0,
                status: 0,
            }),
    {
        Indices::new()
    }
}

/// Errors of ring operations.
#[derive(Debug, Clone, Copy, PartialEq, Eq, Structural)]
pub enum RingError {
    /// The number of slots is not a power of two, or not one that an index word holds.
    BadGeometry,
    /// No slot is free: try again after the consumer has drained.
    Full,
}

/// A descriptor ring over slots and index words.
pub struct Ring<T: Copy> {
    slots: Vec<Slot<T>>,
    idx: Indices,
}

fn is_ring_size(n: usize) -> (b: bool)
    ensures
        b == ring_size(n as nat),
{
    if n == 0 || n > 0x8000_0000 {
        proof {
            lemma2_to64();
            if ring_size(n as nat) {
                let k = choose|k: nat| n as nat == #[trigger] pow2(k);
                lemma_pow2_pos(k);
                if k < 31 {
                    lemma_pow2_strictly_increases(k, 31);
                } else if k > 31 {
                    if k > 32 {
                        lemma_pow2_strictly_increases(32, k);
                    }
                }
            }
        }
        return false;
    }
    let mut p: usize = 1;
    proof {
        lemma2_to64();
    }
    let ghost mut k: nat = 0;
    while p < n
        invariant
            p == pow2(k),
            p <= 0x8000_0000,
            n <= 0x8000_0000,
            k > 0 ==> pow2((k - 1) as nat) < n,
            p >= 1,
        decreases 0x8000_0000 - p,
    {
        proof {
            lemma2_to64();
            vstd::arithmetic::power2::lemma_pow2_unfold(k + 1);
            if k >= 31 {
                if k > 31 {
                    lemma_pow2_strictly_increases(31, k);
                }
            } else {
                if k < 30 {
                    lemma_pow2_strictly_increases(k, 30);
                }
            }
        }
        p = p * 2;
        proof {
            k = k + 1;
        }
    }
    proof {
        if p == n {
            assert(n as nat == pow2(k));
        } else if ring_size(n as nat) {
            let j = choose|j: nat| n as nat == #[trigger] pow2(j);
            assert(k > 0) by {
                lemma2_to64();
            }
            if j >= k {
                if j > k {
                    lemma_pow2_strictly_increases(k, j);
                }
            } else if j < k - 1 {
                lemma_pow2_strictly_increases(j, (k - 1) as nat);
            }
        }
    }
    p == n
}

/// A ring size divides the number of values of an index word.
proof fn lemma_size_divides(n: nat)
    requires
        ring_size(n),
    ensures
        1 <= n <= 0x8000_0000,
        (WORD as int) % (n as int) == 0,
{
    lemma2_to64();
    let k = choose|k: nat| n == #[trigger] pow2(k);
    lemma_pow2_pos(k);
    if k > 31 {
        if k > 32 {
            lemma_pow2_strictly_increases(32, k);
        }
    } else {
        if k < 31 {
            lemma_pow2_strictly_increases(k, 31);
        }
        let m = (32 - k) as nat;
        lemma_pow2_adds(k, m);
        let q = pow2(m) as int;
        vstd::arithmetic::div_mod::lemma_mod_multiples_basic(q, n as int);
        assert(q * (n as int) == (n as int) * q) by (nonlinear_arith);
    }
}

/// Wrapping an index does not move the slot that it names.
proof fn lemma_slot_of(i: int, cap: int)
    requires
        ring_size(cap as nat),
        cap >= 0,
    ensures
        slot_of(i, cap) == i % cap,
        0 <= slot_of(i, cap) < cap,
{
    lemma_size_divides(cap as nat);
    let w = WORD as int;
    let q = w / cap;
    vstd::arithmetic::div_mod::lemma_fundamental_div_mod(w, cap);
    assert(w == cap * q);
    vstd::arithmetic::div_mod::lemma_fundamental_div_mod(i, w);
    let p = i / w;
    let r = i % w;
    assert(i == cap * (q * p) + r) by (nonlinear_arith)
        requires
            i == w * p + r,
            w == cap * q,
    ;
    vstd::arithmetic::div_mod::lemma_mod_multiples_vanish(q * p, r, cap);
    assert(cap * (q * p) + r == r + cap * (q * p));
}

/// Two indices less than a ring apart name different slots.
proof fn lemma_slots_differ(i: int, j: int, cap: int)
    requires
        ring_size(cap as nat),
        cap >= 0,
        i < j < i + cap,
    ensures
        slot_of(i, cap) != slot_of(j, cap),
{
    lemma_slot_of(i, cap);
    lemma_slot_of(j, cap);
    if i % cap == j % cap {
        vstd::arithmetic::div_mod::lemma_fundamental_div_mod(i, cap);
        vstd::arithmetic::div_mod::lemma_fundamental_div_mod(j, cap);
        let a = i / cap;
        let b = j / cap;
        assert(false) by (nonlinear_arith)
            requires
                i == cap * a + i % cap,
                j == cap * b + j % cap,
                i % cap == j % cap,
                i < j < i + cap,
                cap > 0,
        ;
    }
}

impl<T: Copy> Ring<T> {
    /// The values of the index words.
    pub closed spec fn words(&self) -> IndexWords {
        self.idx@
    }

    /// What the slots hold.
    pub closed spec fn cells(&self) -> Seq<T> {
        Seq::new(self.slots@.len(), |i: int| self.slots@[i].holds())
    }

    /// The number of slots makes a ring.
    pub closed spec fn wf(&self) -> bool {
        ring_size(self.slots@.len())
    }

    /// The number of slots.
    pub open spec fn size(&self) -> int {
        self.cells().len() as int
    }

    /// No more entries are outstanding than there are slots. Every ring that starts with
    /// fresh index words stays so.
    pub open spec fn consistent(&self) -> bool {
        distance(self.words().head, self.words().tail) <= self.size()
    }
}

impl<T: Copy> View for Ring<T> {
    type V = Seq<T>;

    /// The outstanding entries, oldest first.
    open spec fn view(&self) -> Seq<T> {
        Seq::new(
            distance(self.words().head, self.words().tail) as nat,
            |i: int| self.cells()[slot_of(self.words().head + i, self.size())],
        )
    }
}

/// What publishing an entry does, with the consumer's index as the producer last saw it: refused
/// while no slot is known to be free, else the entry stands in the next slot.
pub open spec fn push_post<T: Copy>(
    before: Ring<T>,
    item: T,
    seen_head: u32,
    r: Result<u64, RingError>,
    after: Ring<T>,
) -> bool {
    let next = next_index(before.words().tail);
    &&& after.wf()
    &&& if distance(seen_head, before.words().tail) < before.size() {
        &&& r == Ok::<u64, RingError>(next as u64)
        &&& after.words() == (IndexWords {
            tail: next as u32,
            seqno_submit: next as u64,
            ..before.words()
        })
        &&& after.cells() == before.cells().update(
            slot_of(before.words().tail as int, before.size()),
            item,
        )
    } else {
        r == Err::<u64, RingError>(RingError::Full) && after == before
    }
}

/// What consuming an entry does, with the producer's index as the consumer last saw it: the slot
/// at the consumer's index is given out, unless nothing is known to be published there.
pub open spec fn pop_post<T: Copy>(
    before: Ring<T>,
    seen_tail: u32,
    r: Option<T>,
    after: Ring<T>,
) -> bool {
    &&& after.wf()
    &&& after.cells() == before.cells()
    &&& if before.words().head == seen_tail {
        r is None && after == before
    } else {
        &&& r == Some(before.cells()[slot_of(before.words().head as int, before.size())])
        &&& after.words() == (IndexWords {
            head: next_index(before.words().head) as u32,
            ..before.words()
        })
    }
}

/// What publishing an entry comes to.
#[derive(Debug, Clone, Copy, PartialEq, Eq, Structural)]
pub struct Publish {
    /// The slot to write.
    pub slot: u32,
    /// The producer's index from then on.
    pub next: u32,
    pub seqno: u64,
}

/// Where the producer at `tail` publishes the next entry, with the consumer's index as it last
/// saw it. The seqno is one more than the producer's index.
pub fn plan_push(tail: u32, seen_head: u32, capacity: u32) -> (r: Result<Publish, RingError>)
    requires
        ring_size(capacity as nat),
    ensures
        r == if distance(seen_head, tail) >= capacity {
            Err::<Publish, RingError>(RingError::Full)
        } else {
            Ok(
                Publish {
                    slot: slot_of(tail as int, capacity as int) as u32,
                    next: next_index(tail) as u32,
                    seqno: next_index(tail) as u64,
                },
            )
        },
        0 <= slot_of(tail as int, capacity as int) < capacity,
{
    proof {
        lemma_size_divides(capacity as nat);
        lemma_slot_of(tail as int, capacity as int);
    }
    if tail.wrapping_sub(seen_head) >= capacity {
        return Err(RingError::Full);
    }
    let next: u32 = tail.wrapping_add(1);
    Ok(Publish { slot: tail % capacity, next, seqno: next as u64 })
}

/// What consuming an entry comes to.
#[derive(Debug, Clone, Copy, PartialEq, Eq, Structural)]
pub struct Consume {
    /// The slot to read.
    pub slot: u32,
    /// The consumer's index from then on.
    pub next: u32,
}

/// Where the consumer at `head` finds the oldest entry, with the producer's index as it last saw
/// it; `None` when there is none.
pub fn plan_pop(head: u32, seen_tail: u32, capacity: u32) -> (r: Option<Consume>)
    requires
        ring_size(capacity as nat),
    ensures
        r == if head == seen_tail {
            None
        } else {
            Some(
                Consume {
                    slot: slot_of(head as int, capacity as int) as u32,
                    next: next_index(head) as u32,
                },
            )
        },
        0 <= slot_of(head as int, capacity as int) < capacity,
{
    proof {
        lemma_size_divides(capacity as nat);
        lemma_slot_of(head as int, capacity as int);
    }
    if head == seen_tail {
        return None;
    }
    Some(Consume { slot: head % capacity, next: head.wrapping_add(1) })
}

/// Whether the submission with this seqno is done once `retired` is retired: that is at or less
/// than half of the 64-bit space past it, also where the count went past the largest number.
pub fn fence_signaled(retired: u64, seqno: u64) -> (b: bool)
    ensures
        b == signaled(retired, seqno),
{
    retired.wrapping_sub(seqno) < 0x8000_0000_0000_0000
}

/// Whether `n` slots can make a ring.
pub fn check_geometry(n: usize) -> (r: Result<u32, RingError>)
    ensures
        r == if ring_size(n as nat) {
            Ok::<u32, RingError>(n as u32)
        } else {
            Err(RingError::BadGeometry)
        },
{
    if is_ring_size(n) {
        Ok(n as u32)
    } else {
        Err(RingError::BadGeometry)
    }
}

impl<T: Copy> Ring<T> {
    /// A ring over these slots and words. The number of slots has to be a power of two that an
    /// index word holds.
    pub fn from_parts(slots: Vec<Slot<T>>, idx: Indices) -> (r: Result<Self, RingError>)
        ensures
            ring_size(slots@.len()) ==> {
                &&& r is Ok
                &&& r->Ok_0.wf()
                &&& r->Ok_0.words() == idx@
                &&& r->Ok_0.cells() == Seq::new(slots@.len(), |i: int| slots@[i].holds())
                &&& idx@.head == idx@.tail ==> r->Ok_0.consistent() && r->Ok_0@ == Seq::<T>::empty()
            },
            !ring_size(slots@.len()) ==> r == Err::<Self, RingError>(RingError::BadGeometry),
    {
        match check_geometry(slots.len()) {
            Ok(_) => Ok(Ring { slots, idx }),
            Err(e) => Err(e),
        }
    }

    pub fn capacity(&self) -> (n: u32)
        requires
            self.wf(),
        ensures
            n == self.size(),
    {
        self.slots.len() as u32
    }

    /// The number of outstanding entries.
    pub fn len(&self) -> (n: u32)
        ensures
            n == self@.len(),
    {
        self.idx.tail.wrapping_sub(self.idx.head)
    }

    pub fn is_empty(&self) -> (b: bool)
        ensures
            b == (self@.len() == 0),
    {
        self.len() == 0
    }

    /// Publishes an entry, with the consumer's index as the producer last saw it. The seqno is
    /// one more than the producer's index.
    pub fn push_seeing(&mut self, item: T, seen_head: u32) -> (r: Result<u64, RingError>)
        requires
            old(self).wf(),
        ensures
            push_post(*old(self), item, seen_head, r, *final(self)),
    {
        let plan = match plan_push(self.idx.tail, seen_head, self.capacity()) {
            Ok(p) => p,
            Err(e) => {
                return Err(e);
            },
        };
        self.slots.set(plan.slot as usize, Slot(item));
        self.idx.seqno_submit = plan.seqno;
        self.idx.tail = plan.next;
        assert(self.cells() =~= old(self).cells().update(plan.slot as int, item));
        Ok(plan.seqno)
    }

    /// Publishes an entry and gives its seqno; refused while the ring is full.
    pub fn push(&mut self, item: T) -> (r: Result<u64, RingError>)
        requires
            old(self).wf(),
        ensures
            final(self).wf(),
            final(self).size() == old(self).size(),
            old(self)@.len() >= old(self).size() ==> {
                &&& r == Err::<u64, RingError>(RingError::Full)
                &&& *final(self) == *old(self)
            },
            old(self)@.len() < old(self).size() ==> {
                let next = next_index(old(self).words().tail);
                &&& r == Ok::<u64, RingError>(next as u64)
                &&& final(self).words() == (IndexWords {
                    tail: next as u32,
                    seqno_submit: next as u64,
                    ..old(self).words()
                })
                &&& final(self)@ == old(self)@.push(item)
                &&& final(self).consistent()
            },
    {
        let seen: u32 = self.idx.head;
        let r = self.push_seeing(item, seen);
        proof {
            if r is Ok {
                let h = old(self).words().head as int;
                let t = old(self).words().tail as int;
                let n = old(self)@.len() as int;
                let cap = self.size();
                lemma_size_divides(cap as nat);
                assert(distance(self.words().head, self.words().tail) == n + 1);
                lemma_slot_of(t, cap);
                assert((h + n) % (WORD as int) == t);
                assert forall|i: int| 0 <= i < n + 1 implies #[trigger] self@[i] == old(
                    self,
                )@.push(item)[i] by {
                    lemma_slot_of(h + i, cap);
                    if i < n {
                        lemma_slots_differ(h + i, h + n, cap);
                        assert(slot_of(h + i, cap) != slot_of(t, cap));
                    }
                }
                assert(self@ =~= old(self)@.push(item));
            }
        }
        r
    }

    /// Consumes the oldest entry, with the producer's index as the consumer last saw it.
    pub fn pop_seeing(&mut self, seen_tail: u32) -> (r: Option<T>)
        requires
            old(self).wf(),
        ensures
            pop_post(*old(self), seen_tail, r, *final(self)),
    {
        match plan_pop(self.idx.head, seen_tail, self.capacity()) {
            Some(plan) => {
                let item = self.slots[plan.slot as usize].0;
                self.idx.head = plan.next;
                Some(item)
            },
            None => None,
        }
    }

    /// Consumes the oldest entry; `None` when there is none.
    pub fn pop(&mut self) -> (r: Option<T>)
        requires
            old(self).wf(),
        ensures
            final(self).wf(),
            final(self).size() == old(self).size(),
            old(self)@.len() == 0 ==> r is None && *final(self) == *old(self),
            old(self)@.len() > 0 ==> {
                &&& r == Some(old(self)@[0])
                &&& final(self)@ == old(self)@.drop_first()
                &&& final(self).words() == (IndexWords {
                    head: next_index(old(self).words().head) as u32,
                    ..old(self).words()
                })
                &&& old(self).consistent() ==> final(self).consistent()
            },
    {
        let seen: u32 = self.idx.tail;
        let r = self.pop_seeing(seen);
        proof {
            if r is Some {
                let h = old(self).words().head as int;
                let n = old(self)@.len() as int;
                let h2 = self.words().head as int;
                assert(self@.len() == n - 1);
                assert forall|i: int| 0 <= i < n - 1 implies self@[i]
                    == old(self)@.drop_first()[i] by {
                    assert((h2 + i) % (WORD as int) == (h + (i + 1)) % (WORD as int));
                }
                assert(self@ =~= old(self)@.drop_first());
            }
        }
        r
    }

    /// Publishes the highest retired seqno.
    pub fn retire(&mut self, seqno: u64)
        ensures
            final(self).wf() == old(self).wf(),
            final(self).cells() == old(self).cells(),
            final(self).words() == (IndexWords { seqno_retired: seqno, ..old(self).words() }),
    {
        self.idx.seqno_retired = seqno;
    }

    /// The highest retired seqno.
    pub fn retired(&self) -> (s: u64)
        ensures
            s == self.words().seqno_retired,
    {
        self.idx.seqno_retired
    }

    /// The highest submitted seqno.
    pub fn submitted(&self) -> (s: u64)
        ensures
            s == self.words().seqno_submit,
    {
        self.idx.seqno_submit
    }

    /// Whether the submission with this seqno is done: the retired seqno is at or less than half
    /// of the 64-bit space past it.
    pub fn is_fence_signaled(&self, seqno: u64) -> (b: bool)
        ensures
            b == signaled(self.words().seqno_retired, seqno),
    {
        fence_signaled(self.retired(), seqno)
    }

    /// Sets the status bits.
    pub fn set_status(&mut self, bits: u32)
        ensures
            final(self).wf() == old(self).wf(),
            final(self).cells() == old(self).cells(),
            final(self).words() == (IndexWords { status: bits, ..old(self).words() }),
    {
        self.idx.status = bits;
    }

    /// The status bits.
    pub fn status(&self) -> (s: u32)
        ensures
            s == self.words().status,
    {
        self.idx.status
    }
}

/// How far `to` is past `from`, counted past the largest number to 0.
pub open spec fn ahead(from: u64, to: u64) -> int {
    (to - from) % 0x1_0000_0000_0000_0000
}

/// Whether a fence on `seqno` is signaled once `retired` is retired.
pub open spec fn signaled(retired: u64, seqno: u64) -> bool {
    ahead(seqno, retired) < 0x8000_0000_0000_0000
}

/// A fence that is signaled stays so while retirement moves on, for half of the 64-bit space past
/// the fence, and over the end of the numbers.
pub proof fn law_fence_stays_signaled(before: u64, after: u64, seqno: u64)
    requires
        signaled(before, seqno),
        ahead(seqno, before) + ahead(before, after) < 0x8000_0000_0000_0000,
    ensures
        signaled(after, seqno),
{
}

/// Fences resolve in order: whatever retires a submission retires every earlier one within
/// half of the 64-bit space, also one from before the end of the numbers.
pub proof fn law_fences_resolve_in_order(retired: u64, seqno: u64, earlier: u64)
    requires
        signaled(retired, seqno),
        ahead(earlier, seqno) + ahead(seqno, retired) < 0x8000_0000_0000_0000,
    ensures
        signaled(retired, earlier),
{
}

/// Of two different seqnos less than half of the 64-bit space apart, retiring the earlier one
/// signals itself and not the later one.
pub proof fn law_fence_waits_for_its_turn(earlier: u64, later: u64)
    requires
        0 < ahead(earlier, later) < 0x8000_0000_0000_0000,
    ensures
        signaled(earlier, earlier),
        !signaled(earlier, later),
        signaled(later, earlier),
{
}

/// A producer that saw an old consumer index is only more careful: where it finds room, there
/// is room, and the slot that it writes holds no outstanding entry. `seen` is an index that the
/// consumer had, `head` the one that it has now.
pub proof fn law_stale_head_is_safe<T: Copy>(r: Ring<T>, seen: u32, head: u32)
    requires
        r.wf(),
        head == r.words().head,
        distance(seen, head) <= distance(seen, r.words().tail),
        distance(seen, r.words().tail) < r.size(),
    ensures
        r.consistent(),
        r@.len() < r.size(),
        forall|i: int|
            0 <= i < r@.len() ==> slot_of(r.words().tail as int, r.size()) != #[trigger] slot_of(
                r.words().head + i,
                r.size(),
            ),
{
    let h = head as int;
    let t = r.words().tail as int;
    let n = distance(head, r.words().tail);
    let cap = r.size();
    assert(n <= distance(seen, r.words().tail));
    assert((h + n) % (WORD as int) == t);
    assert(slot_of(h + n, cap) == slot_of(t, cap));
    assert forall|i: int| 0 <= i < r@.len() implies slot_of(r.words().tail as int, r.size())
        != #[trigger] slot_of(r.words().head + i, r.size()) by {
        lemma_slots_differ(h + i, h + n, cap);
    }
}

/// A consumer that saw an old producer index takes only what is published: where it finds an
/// entry, there is one, and it is the oldest.
pub proof fn law_stale_tail_is_safe<T: Copy>(r: Ring<T>, seen: u32)
    requires
        r.wf(),
        distance(r.words().head, seen) <= distance(r.words().head, r.words().tail),
        seen != r.words().head,
    ensures
        r@.len() > 0,
        r@[0] == r.cells()[slot_of(r.words().head as int, r.size())],
{
}

/// An operation on a ring.
pub enum RingOp<T> {
    Push(T),
    Pop,
}

/// What a ring of `cap` slots holds after some operations.
pub open spec fn queue_after<T>(start: Seq<T>, cap: int, ops: Seq<RingOp<T>>) -> Seq<T>
    decreases ops.len(),
{
    if ops.len() == 0 {
        start
    } else {
        let q = queue_after(start, cap, ops.drop_last());
        match ops.last() {
            RingOp::Push(x) => if q.len() < cap {
                q.push(x)
            } else {
                q
            },
            RingOp::Pop => if q.len() > 0 {
                q.drop_first()
            } else {
                q
            },
        }
    }
}

/// What the ring accepted during some operations, in order.
pub open spec fn accepted<T>(start: Seq<T>, cap: int, ops: Seq<RingOp<T>>) -> Seq<T>
    decreases ops.len(),
{
    if ops.len() == 0 {
        Seq::empty()
    } else {
        let q = queue_after(start, cap, ops.drop_last());
        let a = accepted(start, cap, ops.drop_last());
        match ops.last() {
            RingOp::Push(x) => if q.len() < cap {
                a.push(x)
            } else {
                a
            },
            RingOp::Pop => a,
        }
    }
}

/// What the ring gave out during some operations, in order.
pub open spec fn delivered<T>(start: Seq<T>, cap: int, ops: Seq<RingOp<T>>) -> Seq<T>
    decreases ops.len(),
{
    if ops.len() == 0 {
        Seq::empty()
    } else {
        let q = queue_after(start, cap, ops.drop_last());
        let d = delivered(start, cap, ops.drop_last());
        match ops.last() {
            RingOp::Push(_) => d,
            RingOp::Pop => if q.len() > 0 {
                d.push(q[0])
            } else {
                d
            },
        }
    }
}

/// Nothing is lost, doubled or reordered: what was given out, followed by what is outstanding,
/// is what was there followed by what was accepted.
pub proof fn law_lossless_fifo<T>(start: Seq<T>, cap: int, ops: Seq<RingOp<T>>)
    requires
        start.len() <= cap,
    ensures
        delivered(start, cap, ops) + queue_after(start, cap, ops) == start + accepted(
            start,
            cap,
            ops,
        ),
        queue_after(start, cap, ops).len() <= cap,
    decreases ops.len(),
{
    if ops.len() == 0 {
        assert(Seq::<T>::empty() + start =~= start + Seq::<T>::empty());
    } else {
        let before = ops.drop_last();
        law_lossless_fifo(start, cap, before);
        let q = queue_after(start, cap, before);
        let d = delivered(start, cap, before);
        let a = accepted(start, cap, before);
        match ops.last() {
            RingOp::Push(x) => {
                if q.len() < cap {
                    assert(d + q.push(x) =~= (d + q).push(x));
                    assert(start + a.push(x) =~= (start + a).push(x));
                }
            },
            RingOp::Pop => {
                if q.len() > 0 {
                    assert(d.push(q[0]) + q.drop_first() =~= d + q);
                }
            },
        }
    }
}

/// One step of the two ends of a ring, each of which knows the other's index as it last saw it:
/// `seen` counts what the other end had done by then.
pub enum EndStep<T> {
    Push { item: T, seen: nat, gave: Result<u64, RingError> },
    Pop { seen: nat, got: Option<T> },
}

/// The index word of an end that did `n` steps from fresh words.
pub open spec fn word_of(n: nat) -> u32 {
    (n as int % (WORD as int)) as u32
}

/// What the producer published in the first `n` steps, in order.
pub open spec fn published<T>(steps: Seq<EndStep<T>>, n: int) -> Seq<T>
    decreases n,
{
    if n <= 0 {
        Seq::empty()
    } else {
        match steps[n - 1] {
            EndStep::Push { item, gave, .. } => if gave is Ok {
                published(steps, n - 1).push(item)
            } else {
                published(steps, n - 1)
            },
            EndStep::Pop { .. } => published(steps, n - 1),
        }
    }
}

/// What the consumer took in the first `n` steps, in order.
pub open spec fn taken<T>(steps: Seq<EndStep<T>>, n: int) -> Seq<T>
    decreases n,
{
    if n <= 0 {
        Seq::empty()
    } else {
        match steps[n - 1] {
            EndStep::Push { .. } => taken(steps, n - 1),
            EndStep::Pop { got, .. } => match got {
                Some(x) => taken(steps, n - 1).push(x),
                None => taken(steps, n - 1),
            },
        }
    }
}

/// What the producer knew of the consumer after the first `n` steps.
pub open spec fn producer_knew<T>(steps: Seq<EndStep<T>>, n: int) -> nat
    decreases n,
{
    if n <= 0 {
        0
    } else {
        match steps[n - 1] {
            EndStep::Push { seen, .. } => seen,
            EndStep::Pop { .. } => producer_knew(steps, n - 1),
        }
    }
}

/// What the consumer knew of the producer after the first `n` steps.
pub open spec fn consumer_knew<T>(steps: Seq<EndStep<T>>, n: int) -> nat
    decreases n,
{
    if n <= 0 {
        0
    } else {
        match steps[n - 1] {
            EndStep::Push { .. } => consumer_knew(steps, n - 1),
            EndStep::Pop { seen, .. } => seen,
        }
    }
}

/// Whether step `i` takes the ring from one state to the next, and goes by an index that the
/// other end had at some time, no older than the one that this end went by before.
pub open spec fn end_step<T: Copy>(states: Seq<Ring<T>>, steps: Seq<EndStep<T>>, i: int) -> bool {
    match steps[i] {
        EndStep::Push { item, seen, gave } => {
            &&& producer_knew(steps, i) <= seen <= taken(steps, i).len()
            &&& push_post(states[i], item, word_of(seen), gave, states[i + 1])
        },
        EndStep::Pop { seen, got } => {
            &&& consumer_knew(steps, i) <= seen <= published(steps, i).len()
            &&& pop_post(states[i], word_of(seen), got, states[i + 1])
        },
    }
}

/// A run of the two ends, in any interleaving, on a ring with fresh index words.
pub open spec fn two_ends<T: Copy>(states: Seq<Ring<T>>, steps: Seq<EndStep<T>>) -> bool {
    &&& states.len() == steps.len() + 1
    &&& states[0].wf()
    &&& states[0].words().head == 0
    &&& states[0].words().tail == 0
    &&& forall|i: int| 0 <= i < steps.len() ==> #[trigger] end_step(states, steps, i)
}

/// Where a run stands after `n` steps.
spec fn run_holds<T: Copy>(states: Seq<Ring<T>>, steps: Seq<EndStep<T>>, n: int) -> bool {
    let r = states[n];
    let p = published(steps, n);
    let c = taken(steps, n);
    &&& r.wf()
    &&& r.size() == states[0].size()
    &&& producer_knew(steps, n) <= c.len() <= consumer_knew(steps, n) <= p.len()
    &&& p.len() <= producer_knew(steps, n) + r.size()
    &&& r.words().tail == word_of(p.len())
    &&& r.words().head == word_of(c.len())
    &&& forall|k: int| c.len() <= k < p.len() ==> r.cells()[slot_of(k, r.size())] == #[trigger] p[k]
    &&& forall|k: int| 0 <= k < c.len() ==> #[trigger] c[k] == p[k]
}

/// Counts that are less than a word apart are as far apart as their words.
proof fn lemma_words(from: nat, to: nat)
    requires
        from <= to < from + WORD,
    ensures
        distance(word_of(from), word_of(to)) == to - from,
        word_of(from) == word_of(to) ==> from == to,
        next_index(word_of(to)) == word_of(to + 1),
{
    let w = WORD as int;
    let a = from as int;
    let b = to as int;
    assert((b % w - a % w) % w == (b - a) % w);
    assert((b - a) % w == b - a);
    assert((b % w + 1) % w == (b + 1) % w);
}

proof fn lemma_run_push<T: Copy>(states: Seq<Ring<T>>, steps: Seq<EndStep<T>>, i: int)
    requires
        run_holds(states, steps, i),
        0 <= i,
        end_step(states, steps, i),
        steps[i] is Push,
    ensures
        run_holds(states, steps, i + 1),
{
    let a = states[i];
    let b = states[i + 1];
    let p = published(steps, i);
    let c = taken(steps, i);
    let cap = a.size();
    lemma_size_divides(cap as nat);
    match steps[i] {
        EndStep::Push { item, seen, gave } => {
            lemma_words(seen, p.len());
            if p.len() - seen < cap {
                let at = slot_of(a.words().tail as int, cap);
                lemma_slot_of(p.len() as int, cap);
                assert(published(steps, i + 1) == p.push(item));
                assert(taken(steps, i + 1) == c);
                assert(b.size() == cap);
                assert forall|k: int| c.len() <= k < p.len() + 1 implies b.cells()[slot_of(
                    k,
                    cap,
                )] == #[trigger] p.push(item)[k] by {
                    lemma_slot_of(k, cap);
                    if k < p.len() {
                        lemma_slots_differ(k, p.len() as int, cap);
                        assert(a.cells()[slot_of(k, cap)] == p[k]);
                    }
                }
                assert forall|k: int| 0 <= k < c.len() implies #[trigger] c[k] == p.push(item)[k] by {
                    assert(c[k] == p[k]);
                }
            }
        },
        _ => {},
    }
}

proof fn lemma_run_pop<T: Copy>(states: Seq<Ring<T>>, steps: Seq<EndStep<T>>, i: int)
    requires
        run_holds(states, steps, i),
        0 <= i,
        end_step(states, steps, i),
        steps[i] is Pop,
    ensures
        run_holds(states, steps, i + 1),
{
    let a = states[i];
    let p = published(steps, i);
    let c = taken(steps, i);
    let cap = a.size();
    lemma_size_divides(cap as nat);
    match steps[i] {
        EndStep::Pop { seen, got } => {
            lemma_words(c.len(), seen);
            lemma_words(c.len(), c.len());
            if seen != c.len() {
                lemma_slot_of(c.len() as int, cap);
                assert(a.cells()[slot_of(c.len() as int, cap)] == p[c.len() as int]);
                let d = taken(steps, i + 1);
                assert(d == c.push(p[c.len() as int]));
                assert(published(steps, i + 1) == p);
                assert forall|k: int| 0 <= k < d.len() implies #[trigger] d[k] == p[k] by {
                    if k < c.len() {
                        assert(c[k] == p[k]);
                    }
                }
            }
        },
        _ => {},
    }
}

proof fn lemma_run<T: Copy>(states: Seq<Ring<T>>, steps: Seq<EndStep<T>>, n: int)
    requires
        two_ends(states, steps),
        0 <= n <= steps.len(),
    ensures
        run_holds(states, steps, n),
    decreases n,
{
    if n > 0 {
        lemma_run(states, steps, n - 1);
        assert(end_step(states, steps, n - 1));
        if steps[n - 1] is Push {
            lemma_run_push(states, steps, n - 1);
        } else {
            lemma_run_pop(states, steps, n - 1);
        }
    }
}

/// The two ends of a ring lose, double and reorder nothing, however their steps interleave, for
/// however long, and however late each sees what the other did: the `k`-th entry that is taken is
/// the `k`-th that was published, and what is outstanding is the rest.
pub proof fn law_two_ends_are_lossless<T: Copy>(
    states: Seq<Ring<T>>,
    steps: Seq<EndStep<T>>,
    n: int,
)
    requires
        two_ends(states, steps),
        0 <= n <= steps.len(),
    ensures
        published(steps, n) == taken(steps, n) + states[n]@,
        states[n].consistent(),
{
    lemma_run(states, steps, n);
    let r = states[n];
    let p = published(steps, n);
    let c = taken(steps, n);
    let cap = r.size();
    let w = WORD as int;
    lemma_size_divides(cap as nat);
    lemma_words(c.len(), p.len());
    assert forall|k: int| 0 <= k < p.len() implies #[trigger] p[k] == (c + r@)[k] by {
        if k >= c.len() {
            lemma_slot_of(k, cap);
            lemma_slot_of(r.words().head + (k - c.len()), cap);
            assert((r.words().head + (k - c.len())) % w == k % w);
            assert(r.cells()[slot_of(k, cap)] == p[k]);
        }
    }
    assert(p =~= c + r@);
}

/// A consumer finds nothing only when it has taken all that it saw published, and then changes
/// nothing; otherwise it takes one entry. A producer is refused only when as many entries as the
/// ring holds were not seen taken, and then changes nothing.
pub proof fn law_two_ends_make_progress<T: Copy>(
    states: Seq<Ring<T>>,
    steps: Seq<EndStep<T>>,
    i: int,
)
    requires
        two_ends(states, steps),
        0 <= i < steps.len(),
    ensures
        steps[i] matches EndStep::Pop { seen, got } ==> {
            &&& got is None <==> seen == taken(steps, i).len()
            &&& got is None ==> states[i + 1] == states[i]
            &&& got is Some ==> states[i + 1]@.len() == states[i]@.len() - 1
        },
        steps[i] matches EndStep::Push { item, seen, gave } ==> {
            &&& gave is Err <==> published(steps, i).len() - seen >= states[i].size()
            &&& gave is Err ==> states[i + 1] == states[i]
            &&& gave is Ok ==> states[i + 1]@ == states[i]@.push(item)
        },
{
    lemma_run(states, steps, i);
    law_two_ends_are_lossless(states, steps, i);
    law_two_ends_are_lossless(states, steps, i + 1);
    assert(end_step(states, steps, i));
    let a = states[i];
    let p = published(steps, i);
    let c = taken(steps, i);
    lemma_size_divides(a.size() as nat);
    match steps[i] {
        EndStep::Push { item, seen, gave } => {
            lemma_words(seen, p.len());
            if gave is Ok {
                let q = states[i + 1]@;
                assert(p.push(item) =~= c + q);
                assert forall|k: int| 0 <= k < q.len() implies q[k] == a@.push(item)[k] by {
                    assert(p.push(item)[c.len() + k] == (c + q)[c.len() + k]);
                    if k < a@.len() {
                        assert(p[c.len() + k] == (c + a@)[c.len() + k]);
                    }
                }
                assert(q =~= a@.push(item));
            }
        },
        EndStep::Pop { seen, got } => {
            lemma_words(c.len(), seen);
        },
    }
}

/// The producer's index after `n` accepted entries, from fresh index words.
pub open spec fn index_after(n: nat) -> u32
    decreases n,
{
    if n == 0 {
        0
    } else {
        next_index(index_after((n - 1) as nat)) as u32
    }
}

/// Seqnos count submissions from one: from fresh index words the `n`-th accepted entry gets the
/// seqno `n`, up to the last value of an index word; there the count starts over at zero.
pub proof fn law_seqno_counts(n: nat)
    requires
        n >= 1,
    ensures
        next_index(index_after((n - 1) as nat)) == n % (WORD as nat),
        n <= u32::MAX ==> next_index(index_after((n - 1) as nat)) == n,
    decreases n,
{
    if n > 1 {
        law_seqno_counts((n - 1) as nat);
    }
}

/// A ring takes entries while fewer are outstanding than it has slots, and only then; every entry
/// gets the seqno behind the one before, counted in 32 bits.
pub proof fn law_ring_takes_what_it_has_slots_for<T: Copy>(
    ring: &mut Ring<T>,
    item: T,
    r: Result<u64, RingError>,
)
    requires
        old(ring).wf(),
        call_ensures(Ring::<T>::push, (ring, item), r),
    ensures
        r is Ok <==> old(ring)@.len() < old(ring).size(),
        r is Err ==> r == Err::<u64, RingError>(RingError::Full) && *final(ring) == *old(ring),
        r is Ok ==> {
            &&& final(ring)@.len() == old(ring)@.len() + 1
            &&& final(ring)@.last() == item
            &&& final(ring)@.drop_last() == old(ring)@
            &&& old(ring).words().tail < u32::MAX ==> r->Ok_0 == old(ring).words().tail + 1
            &&& old(ring).words().tail == u32::MAX ==> r->Ok_0 == 0
            &&& final(ring).words().seqno_submit == r->Ok_0
            &&& final(ring).words().head == old(ring).words().head
            &&& final(ring).words().seqno_retired == old(ring).words().seqno_retired
            &&& final(ring).words().status == old(ring).words().status
        },
{
    if r is Ok {
        assert(old(ring)@.push(item).drop_last() =~= old(ring)@);
    }
}

/// The oldest entry leaves first, and an empty ring gives none.
pub proof fn law_oldest_leaves_first<T: Copy>(ring: &mut Ring<T>, r: Option<T>)
    requires
        old(ring).wf(),
        call_ensures(Ring::<T>::pop, (ring,), r),
    ensures
        r is None <==> old(ring)@.len() == 0,
        r is None ==> *final(ring) == *old(ring),
        r is Some ==> {
            &&& r->0 == old(ring)@[0]
            &&& final(ring)@.len() == old(ring)@.len() - 1
            &&& forall|i: int|
                0 <= i < final(ring)@.len() ==> #[trigger] final(ring)@[i] == old(ring)@[i + 1]
            &&& final(ring).words().tail == old(ring).words().tail
            &&& final(ring).words().seqno_submit == old(ring).words().seqno_submit
            &&& final(ring).words().seqno_retired == old(ring).words().seqno_retired
        },
{
}

/// The slots follow each other round the ring: the producer writes, and the consumer reads, the slot
/// that the index names modulo the number of slots, and then goes on to the next index.
pub proof fn law_slots_go_round(
    tail: u32,
    seen_head: u32,
    capacity: u32,
    r: Result<Publish, RingError>,
    head: u32,
    seen_tail: u32,
    c: Option<Consume>,
)
    requires
        ring_size(capacity as nat),
        call_ensures(plan_push, (tail, seen_head, capacity), r),
        call_ensures(plan_pop, (head, seen_tail, capacity), c),
    ensures
        seen_head <= tail ==> (r is Ok <==> tail - seen_head < capacity),
        seen_head > tail ==> (r is Ok <==> tail + 0x1_0000_0000 - seen_head < capacity),
        r is Ok ==> r->Ok_0.slot == tail as int % capacity as int,
        r is Ok && tail < u32::MAX ==> r->Ok_0.next == tail + 1 && r->Ok_0.seqno == tail + 1,
        r is Ok && tail == u32::MAX ==> r->Ok_0.next == 0 && r->Ok_0.seqno == 0,
        c is None <==> head == seen_tail,
        c is Some ==> c->0.slot == head as int % capacity as int,
        c is Some && head < u32::MAX ==> c->0.next == head + 1,
        c is Some && head == u32::MAX ==> c->0.next == 0,
{
    lemma_slot_of(tail as int, capacity as int);
    lemma_slot_of(head as int, capacity as int);
}

/// A submission is done once it or a later one is retired, by less than half of the 64-bit space.
pub proof fn law_done_once_retired(seqno: u64, retired: u64, b: bool)
    requires
        call_ensures(fence_signaled, (retired, seqno), b),
    ensures
        retired == seqno ==> b,
        seqno <= retired && retired - seqno < 0x8000_0000_0000_0000 ==> b,
        seqno <= retired && retired - seqno >= 0x8000_0000_0000_0000 ==> !b,
        seqno > retired && seqno - retired <= 0x8000_0000_0000_0000 ==> !b,
        seqno > retired && seqno - retired > 0x8000_0000_0000_0000 ==> b,
{
}

/// As many slots as a power of two make a ring, up to two to the 31st, and no other number.
pub proof fn law_ring_sizes(n: usize, r: Result<u32, RingError>, k: nat)
    requires
        call_ensures(check_geometry, (n,), r),
        k < 31,
    ensures
        n == pow2(k) ==> r == Ok::<u32, RingError>(n as u32),
        n == 0 ==> r is Err,
        pow2(k) < n < pow2(k + 1) ==> r == Err::<u32, RingError>(RingError::BadGeometry),
        n > 0x8000_0000 ==> r is Err,
{
    lemma2_to64();
    lemma_pow2_strictly_increases(k, 31);
    if ring_size(n as nat) {
        lemma_size_divides(n as nat);
        let j = choose|j: nat| n as nat == #[trigger] pow2(j);
        if j < k {
            lemma_pow2_strictly_increases(j, k);
        } else if j > k + 1 {
            lemma_pow2_strictly_increases(k + 1, j);
        }
    }
}

/// Retiring and setting the status change one word each, which is then read back; the entries stay.
pub proof fn law_words_are_set<T: Copy>(
    ring: &mut Ring<T>,
    seqno: u64,
    other: &mut Ring<T>,
    bits: u32,
    retired: u64,
    status: u32,
    n: u32,
)
    requires
        call_ensures(Ring::<T>::retire, (ring, seqno), ()),
        call_ensures(Ring::<T>::set_status, (other, bits), ()),
        call_ensures(Ring::<T>::retired, (&*final(ring),), retired),
        call_ensures(Ring::<T>::status, (&*final(other),), status),
        call_ensures(Ring::<T>::len, (&*final(ring),), n),
    ensures
        retired == seqno,
        status == bits,
        n == old(ring)@.len(),
        final(ring)@ == old(ring)@,
        final(other)@ == old(other)@,
        final(ring).words().seqno_submit == old(ring).words().seqno_submit,
        final(ring).words().status == old(ring).words().status,
        final(other).words().seqno_retired == old(other).words().seqno_retired,
        final(other).words().seqno_submit == old(other).words().seqno_submit,
{
    assert(final(ring)@ =~= old(ring)@);
    assert(final(other)@ =~= old(other)@);
}

/// Either end works with what it last saw of the other.
pub proof fn law_ends_see<T: Copy>(
    ring: &mut Ring<T>,
    item: T,
    seen_head: u32,
    r: Result<u64, RingError>,
    other: &mut Ring<T>,
    seen_tail: u32,
    got: Option<T>,
    n: u32,
    empty: bool,
    seqno: u64,
    done: bool,
)
    requires
        old(ring).wf(),
        old(other).wf(),
        call_ensures(Ring::<T>::push_seeing, (ring, item, seen_head), r),
        call_ensures(Ring::<T>::pop_seeing, (other, seen_tail), got),
        call_ensures(Ring::<T>::capacity, (&*old(ring),), n),
        call_ensures(Ring::<T>::is_empty, (&*old(ring),), empty),
        call_ensures(Ring::<T>::is_fence_signaled, (&*old(ring), seqno), done),
    ensures
        push_post(*old(ring), item, seen_head, r, *final(ring)),
        pop_post(*old(other), seen_tail, got, *final(other)),
        n == old(ring).size(),
        empty <==> old(ring)@.len() == 0,
        old(ring).words().seqno_retired == seqno ==> done,
        got is None <==> old(other).words().head == seen_tail,
{
}

/// A ring over fresh words is empty, has a slot for each that it was made of, and counts from zero.
pub proof fn law_fresh_ring<T: Copy>(
    idx: Indices,
    slots: Vec<Slot<T>>,
    r: Result<Ring<T>, RingError>,
    k: nat,
)
    requires
        call_ensures(Indices::new, (), idx),
        call_ensures(Ring::<T>::from_parts, (slots, idx), r),
        slots@.len() == pow2(k),
        k < 32,
    ensures
        r is Ok,
        r->Ok_0@.len() == 0,
        r->Ok_0.size() == slots@.len(),
        r->Ok_0.words().seqno_submit == 0 && r->Ok_0.words().seqno_retired == 0,
        r->Ok_0.words().status == 0,
{
    lemma2_to64();
    if k < 31 {
        lemma_pow2_strictly_increases(k, 31);
    }
    assert(ring_size(slots@.len()));
}

} // verus!
