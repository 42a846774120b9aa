use infinigpu::ring::{
    check_geometry, fence_signaled, plan_pop, plan_push, Consume, Indices, Publish, Ring, RingError,
    Slot,
};
use loom::sync::atomic::{AtomicU32, AtomicU64, Ordering};

fn make(cap: usize) -> (Vec<Slot<u64>>, Indices) {
    let mut v = Vec::with_capacity(cap);
    for _ in 0..cap {
        v.push(Slot::new(0u64));
    }
    (v, Indices::new())
}

#[test]
fn rejects_non_power_of_two() {
    let (slots, idx) = make(3);
    assert_eq!(Ring::from_parts(slots, idx).err(), Some(RingError::BadGeometry));
}

#[test]
fn rejects_no_slots_and_takes_one() {
    let (slots, idx) = make(0);
    assert_eq!(Ring::from_parts(slots, idx).err(), Some(RingError::BadGeometry));
    let (slots, idx) = make(1);
    let mut ring = Ring::from_parts(slots, idx).unwrap();
    assert_eq!(ring.capacity(), 1);
    assert_eq!(ring.push(3), Ok(1));
    assert_eq!(ring.push(4), Err(RingError::Full));
    assert_eq!(ring.pop(), Some(3));
}

#[test]
fn push_pop_fifo() {
    let (slots, idx) = make(4);
    let mut ring = Ring::from_parts(slots, idx).unwrap();
    assert!(ring.is_empty());
    for i in 0..4u64 {
        assert_eq!(ring.push(i * 10).unwrap(), i + 1);
    }
    assert_eq!(ring.push(999).err(), Some(RingError::Full));
    for i in 0..4u64 {
        assert_eq!(ring.pop(), Some(i * 10));
    }
    assert_eq!(ring.pop(), None);
}

#[test]
fn wraps_around_indefinitely() {
    let (slots, idx) = make(2);
    let mut ring = Ring::from_parts(slots, idx).unwrap();
    for i in 0..1000u64 {
        assert_eq!(ring.push(i).unwrap(), i + 1);
        assert_eq!(ring.pop(), Some(i));
    }
    assert!(ring.is_empty());
    assert_eq!(ring.submitted(), 1000);
}

#[test]
fn fence_signaling_is_monotonic() {
    let (slots, idx) = make(2);
    let mut ring = Ring::from_parts(slots, idx).unwrap();
    assert!(!ring.is_fence_signaled(5));
    ring.retire(4);
    assert!(!ring.is_fence_signaled(5));
    ring.retire(5);
    assert!(ring.is_fence_signaled(5));
    assert!(ring.is_fence_signaled(4));
}

#[test]
fn a_fence_half_the_number_space_back_is_not_signaled() {
    let (slots, idx) = make(2);
    let mut ring = Ring::from_parts(slots, idx).unwrap();
    ring.retire(1 << 63);
    assert!(ring.is_fence_signaled(1));
    assert!(!ring.is_fence_signaled(0));
    assert_eq!(ring.retired(), 1 << 63);
}

#[test]
fn ends_that_see_each_other_late_lose_nothing() {
    let (slots, idx) = make(4);
    let mut ring = Ring::from_parts(slots, idx).unwrap();
    let (mut published, mut taken) = (Vec::new(), Vec::new());
    let (mut seen_head, mut seen_tail) = (0u32, 0u32);
    for round in 0..1000u64 {
        // The producer looks at the consumer every third round, the consumer every fifth.
        if round % 3 == 0 {
            seen_head = taken.len() as u32;
        }
        if round % 5 == 0 {
            seen_tail = published.len() as u32;
        }
        let full = published.len() as u32 - seen_head >= 4;
        match ring.push_seeing(round, seen_head) {
            Ok(_) => {
                assert!(!full);
                published.push(round);
            }
            Err(e) => {
                assert!(full);
                assert_eq!(e, RingError::Full);
            }
        }
        let nothing = taken.len() as u32 == seen_tail;
        match ring.pop_seeing(seen_tail) {
            Some(x) => {
                assert!(!nothing);
                taken.push(x);
            }
            None => assert!(nothing),
        }
        assert_eq!(ring.len() as usize, published.len() - taken.len());
    }
    assert!(taken.len() > 100);
    assert_eq!(published[..taken.len()], taken[..]);
}

#[test]
fn fences_resolve_over_the_end_of_the_numbers() {
    let (slots, idx) = make(2);
    let mut ring = Ring::from_parts(slots, idx).unwrap();
    ring.retire(u64::MAX);
    assert!(ring.is_fence_signaled(u64::MAX));
    assert!(!ring.is_fence_signaled(0));
    assert!(!ring.is_fence_signaled(1));
    ring.retire(1);
    assert!(ring.is_fence_signaled(u64::MAX));
    assert!(ring.is_fence_signaled(0));
    assert!(ring.is_fence_signaled(1));
    assert!(!ring.is_fence_signaled(2));
}

#[test]
fn status_bits_are_kept() {
    let (slots, idx) = make(2);
    let mut ring = Ring::from_parts(slots, idx).unwrap();
    assert_eq!(ring.status(), 0);
    ring.set_status(0xdead_beef);
    assert_eq!(ring.status(), 0xdead_beef);
    assert_eq!(ring.len(), 0);
}

#[test]
fn an_old_view_of_the_other_end_is_only_more_careful() {
    let mut ring = Ring::from_parts(make(2).0, Indices::default()).unwrap();
    assert_eq!(ring.push_seeing(1, 0), Ok(1));
    assert_eq!(ring.push_seeing(2, 0), Ok(2));
    assert_eq!(ring.pop_seeing(1), Some(1));
    assert_eq!(ring.pop_seeing(1), None);
    assert_eq!(ring.push_seeing(3, 0), Err(RingError::Full));
    assert_eq!(ring.push_seeing(3, 1), Ok(3));
    assert_eq!(ring.pop(), Some(2));
    assert_eq!(ring.pop(), Some(3));
    assert_eq!(ring.pop(), None);
}

#[test]
fn a_ring_behind_a_lock_is_lossless() {
    loom::model(|| {
        const CAP: usize = 2;
        const N: u64 = 3;

        let (slots, idx) = make(CAP);
        let store = loom::sync::Arc::new(loom::sync::Mutex::new(
            Ring::from_parts(slots, idx).unwrap(),
        ));

        let producer = {
            let store = loom::sync::Arc::clone(&store);
            loom::thread::spawn(move || {
                let mut i = 1u64;
                while i <= N {
                    let pushed = store.lock().unwrap().push(i);
                    match pushed {
                        Ok(seq) => {
                            assert_eq!(seq, i, "seqno must track the producer index");
                            i += 1;
                        }
                        Err(_) => loom::thread::yield_now(),
                    }
                }
            })
        };

        let mut expected = 1u64;
        while expected <= N {
            let popped = store.lock().unwrap().pop();
            match popped {
                Some(v) => {
                    assert_eq!(v, expected, "FIFO order / no loss / no duplication");
                    expected += 1;
                }
                None => loom::thread::yield_now(),
            }
        }

        producer.join().unwrap();
        assert_eq!(expected, N + 1);
    });
}

#[test]
fn both_ends_plan_from_the_words_alone() {
    assert_eq!(check_geometry(8), Ok(8));
    assert_eq!(check_geometry(6), Err(RingError::BadGeometry));
    assert_eq!(check_geometry(0), Err(RingError::BadGeometry));
    assert_eq!(plan_push(5, 1, 4), Err(RingError::Full));
    assert_eq!(plan_push(5, 2, 4), Ok(Publish { slot: 1, next: 6, seqno: 6 }));
    assert_eq!(plan_push(u32::MAX, u32::MAX, 4), Ok(Publish { slot: 3, next: 0, seqno: 0 }));
    assert_eq!(plan_pop(5, 5, 4), None);
    assert_eq!(plan_pop(5, 6, 4), Some(Consume { slot: 1, next: 6 }));
    assert_eq!(plan_pop(u32::MAX, 0, 4), Some(Consume { slot: 3, next: 0 }));
    assert!(fence_signaled(5, 5) && fence_signaled(5, 4) && !fence_signaled(5, 6));
}

/// A ring in shared words: the plans are the ring's, the words are atomics.
struct Shared {
    slots: Vec<AtomicU64>,
    tail: AtomicU32,
    head: AtomicU32,
}

impl Shared {
    fn push(&self, item: u64) -> Result<u64, RingError> {
        let tail = self.tail.load(Ordering::Relaxed);
        let head = self.head.load(Ordering::Acquire);
        let plan = plan_push(tail, head, self.slots.len() as u32)?;
        self.slots[plan.slot as usize].store(item, Ordering::Relaxed);
        self.tail.store(plan.next, Ordering::Release);
        Ok(plan.seqno)
    }

    fn pop(&self) -> Option<u64> {
        let head = self.head.load(Ordering::Relaxed);
        let tail = self.tail.load(Ordering::Acquire);
        let plan = plan_pop(head, tail, self.slots.len() as u32)?;
        let item = self.slots[plan.slot as usize].load(Ordering::Relaxed);
        self.head.store(plan.next, Ordering::Release);
        Some(item)
    }
}

#[test]
fn spsc_ordering_is_lossless_and_race_free() {
    loom::model(|| {
        const CAP: usize = 2;
        const N: u64 = 3;

        let ring = loom::sync::Arc::new(Shared {
            slots: (0..CAP).map(|_| AtomicU64::new(0)).collect(),
            tail: AtomicU32::new(0),
            head: AtomicU32::new(0),
        });

        let producer = {
            let ring = loom::sync::Arc::clone(&ring);
            loom::thread::spawn(move || {
                let mut i = 1u64;
                while i <= N {
                    match ring.push(i) {
                        Ok(seq) => {
                            assert_eq!(seq, i, "seqno must track the producer index");
                            i += 1;
                        }
                        Err(_) => loom::thread::yield_now(),
                    }
                }
            })
        };

        let mut expected = 1u64;
        while expected <= N {
            match ring.pop() {
                Some(v) => {
                    assert_eq!(v, expected, "FIFO order / no loss / no duplication");
                    expected += 1;
                }
                None => loom::thread::yield_now(),
            }
        }

        producer.join().unwrap();
        assert_eq!(expected, N + 1);
    });
}
