use queue::bound::fill_then_overflow;
use queue::bound::BoundQueue;
use queue::unbound::UnboundQueue;
use queue::drained_queue_is_empty;
use queue::push_pop_round_trip;
use queue::pushes_then_pops;
use queue::Queue;
use std::rc::Rc;

#[test]
fn is_empty() {
    let q = BoundQueue::<i32>::new(10);
    assert_eq!(q.is_empty(), true);
}

#[test]
fn bound_test_push_pop() {
    let mut q = BoundQueue::<i32>::new(10);
    for i in 1..=10 {
        q.push(i);
        assert_eq!(q.pop(), Some(i));
    }
}

#[test]
fn bound_into_iter() {
    let mut q = BoundQueue::<i32>::new(10);
    q.push(1);
    q.push(2);
    q.push(3);

    let mut iter = q.into_iter();
    assert_eq!(iter.next(), Some(1));
    assert_eq!(iter.next(), Some(2));
    assert_eq!(iter.next(), Some(3));
    assert_eq!(iter.next(), None);
}

#[test]
fn bound_iter() {
    let mut q = BoundQueue::<String>::new(10);
    q.push(1.to_string());
    q.push(2.to_string());
    q.push(3.to_string());

    let mut iter = q.iter();
    assert_eq!(iter.next(), Some(&"1".to_string()));
    assert_eq!(iter.next(), Some(&"2".to_string()));
    assert_eq!(iter.next(), Some(&"3".to_string()));
    assert_eq!(iter.next(), None);
}

#[test]
fn bound_iter_mut() {
    let mut q = BoundQueue::<i32>::new(10);
    q.push(1);
    q.push(2);
    q.push(3);

    let mut iter = q.iter_mut();
    assert_eq!(iter.next(), Some(&mut 1));
    assert_eq!(iter.next(), Some(&mut 2));
    assert_eq!(iter.next(), Some(&mut 3));
    assert_eq!(iter.next(), None);
}

#[test]
fn unbound_test_push_pop() {
    let mut q = UnboundQueue::<i32>::new();
    for i in 1..=10 {
        q.push(i);
        assert_eq!(q.pop(), Some(i));
    }
    for i in 1..=10 {
        q.push(i);
    }
    for i in 1..=10 {
        assert_eq!(q.pop(), Some(i));
    }
}

#[test]
fn unbound_into_iter() {
    let mut q = UnboundQueue::<i32>::new();
    q.push(1);
    q.push(2);
    q.push(3);

    let mut iter = q.into_iter();
    assert_eq!(iter.next(), Some(1));
    assert_eq!(iter.next(), Some(2));
    assert_eq!(iter.next(), Some(3));
    assert_eq!(iter.next(), None);
}

#[test]
fn unbound_iter() {
    let mut q = UnboundQueue::<String>::new();
    q.push(1.to_string());
    q.push(2.to_string());
    q.push(3.to_string());

    let mut iter = q.iter();
    assert_eq!(iter.next(), Some(&"1".to_string()));
    assert_eq!(iter.next(), Some(&"2".to_string()));
    assert_eq!(iter.next(), Some(&"3".to_string()));
    assert_eq!(iter.next(), None);
}

#[test]
fn unbound_iter_mut() {
    let mut q = UnboundQueue::<i32>::new();
    q.push(1);
    q.push(2);
    q.push(3);

    let mut iter = q.iter_mut();
    assert_eq!(iter.next(), Some(&mut 1));
    assert_eq!(iter.next(), Some(&mut 2));
    assert_eq!(iter.next(), Some(&mut 3));
    assert_eq!(iter.next(), None);
}

#[test]
fn iter_mut_writes_stick() {
    let mut b = BoundQueue::<i32>::new(5);
    b.push(1);
    b.push(2);
    {
        let mut it = b.iter_mut();
        while let Some(x) = it.next() {
            *x += 10;
        }
    }
    assert_eq!(b.pop(), Some(11));
    assert_eq!(b.pop(), Some(12));

    let mut u = UnboundQueue::<i32>::new();
    u.push(1);
    u.push(2);
    {
        let mut it = u.iter_mut();
        while let Some(x) = it.next() {
            *x += 10;
        }
    }
    assert_eq!(u.pop(), Some(11));
    assert_eq!(u.pop(), Some(12));
}

#[test]
fn get_mut_write_seen_by_pop() {
    let mut b = BoundQueue::<i32>::new(4);
    b.push(1);
    b.push(2);
    b.push(3);
    *b.get_mut(1) = 20;
    assert_eq!(b.pop(), Some(1));
    assert_eq!(b.pop(), Some(20));
    assert_eq!(b.pop(), Some(3));

    let mut u = UnboundQueue::<i32>::new();
    u.push(1);
    u.push(2);
    u.push(3);
    *u.get_mut(0) = 10;
    *u.get_mut(2) = 30;
    assert_eq!(u.pop(), Some(10));
    assert_eq!(u.pop(), Some(2));
    assert_eq!(u.pop(), Some(30));
}

#[test]
fn get_mut_across_wraparound() {
    // Cycle the indices so the live range wraps past the end of the raw
    // storage, then write through get_mut at a wrapped position.
    let mut q = BoundQueue::<i32>::new(3);
    q.push(1);
    q.push(2);
    q.push(3);
    assert_eq!(q.pop(), Some(1));
    assert_eq!(q.pop(), Some(2));
    q.push(4);
    q.push(5);
    *q.get_mut(2) = 50;
    assert_eq!(q.pop(), Some(3));
    assert_eq!(q.pop(), Some(4));
    assert_eq!(q.pop(), Some(50));
    assert_eq!(q.pop(), None);
}

#[test]
fn fifo_order_bound() {
    let mut q = BoundQueue::<u32>::new(5);
    let out = pushes_then_pops(&mut q, vec![7, 8, 9, 10, 11]);
    assert_eq!(out, vec![7, 8, 9, 10, 11]);
}

#[test]
fn fifo_order_unbound() {
    let mut q = UnboundQueue::<u32>::new();
    let out = pushes_then_pops(&mut q, vec![7, 8, 9, 10, 11]);
    assert_eq!(out, vec![7, 8, 9, 10, 11]);
}

#[test]
fn round_trip_both_engines() {
    let mut b = BoundQueue::<i64>::new(1);
    assert_eq!(push_pop_round_trip(&mut b, -3), Some(-3));
    let mut u = UnboundQueue::<i64>::new();
    assert_eq!(push_pop_round_trip(&mut u, 42), Some(42));
}

#[test]
fn empty_after_drain_bound() {
    let mut q = BoundQueue::<u8>::new(4);
    q.push(1);
    q.push(2);
    let (drained, empty_now, extra) = drained_queue_is_empty(&mut q);
    assert_eq!(drained, vec![1, 2]);
    assert!(empty_now);
    assert_eq!(extra, None);
    assert!(q.is_empty());
}

#[test]
fn empty_after_drain_unbound() {
    let mut q = UnboundQueue::<u8>::new();
    q.push(9);
    q.push(8);
    q.push(7);
    let (drained, empty_now, extra) = drained_queue_is_empty(&mut q);
    assert_eq!(drained, vec![9, 8, 7]);
    assert!(empty_now);
    assert_eq!(extra, None);
    assert!(q.is_empty());
}

#[test]
fn capacity_boundary() {
    let mut q = BoundQueue::<u16>::new(3);
    assert_eq!(q.cap(), 4);
    let full = fill_then_overflow(&mut q, vec![1, 2, 3], 4);
    assert!(full);
    // The overflowing push discarded its item silently.
    assert_eq!(q.pop(), Some(1));
    assert_eq!(q.pop(), Some(2));
    assert_eq!(q.pop(), Some(3));
    assert_eq!(q.pop(), None);
}

#[test]
fn is_full_at_wraparound() {
    // Cycle the indices so that tail sits in the last raw slot and head is
    // zero: fullness must still be reported at that boundary.
    let mut q = BoundQueue::<u8>::new(2);
    q.push(1);
    q.push(2);
    assert!(q.is_full());
    assert_eq!(q.pop(), Some(1));
    assert!(!q.is_full());
    q.push(3);
    assert!(q.is_full());
    assert_eq!(q.pop(), Some(2));
    assert_eq!(q.pop(), Some(3));
    assert_eq!(q.pop(), None);
}

#[test]
fn bound_wraparound_order() {
    let mut q = BoundQueue::<u32>::new(3);
    q.push(1);
    q.push(2);
    q.push(3);
    assert_eq!(q.pop(), Some(1));
    q.push(4);
    assert_eq!(q.pop(), Some(2));
    assert_eq!(q.pop(), Some(3));
    assert_eq!(q.pop(), Some(4));
    assert_eq!(q.pop(), None);
}

#[test]
fn bound_scenario_requested_three() {
    let mut q = BoundQueue::<i32>::new(3);
    q.push(1);
    q.push(2);
    q.push(3);
    assert_eq!(q.is_empty(), false);
    assert_eq!(q.pop(), Some(1));
    assert_eq!(q.pop(), Some(2));
    assert_eq!(q.pop(), Some(3));
    assert_eq!(q.pop(), None);
}

#[test]
fn unbound_scenario_interleaved() {
    let mut q = UnboundQueue::<String>::new();
    q.push("a".to_string());
    q.push("b".to_string());
    assert_eq!(q.pop(), Some("a".to_string()));
    q.push("c".to_string());
    assert_eq!(q.pop(), Some("b".to_string()));
    assert_eq!(q.pop(), Some("c".to_string()));
    assert_eq!(q.pop(), None);
}

#[test]
fn no_leak_bound() {
    let tracer = Rc::new(0u8);
    {
        let mut q = BoundQueue::<Rc<u8>>::new(10);
        q.push(Rc::clone(&tracer));
        q.push(Rc::clone(&tracer));
        q.push(Rc::clone(&tracer));
        assert_eq!(Rc::strong_count(&tracer), 4);
        let popped = q.pop();
        assert!(popped.is_some());
        drop(popped);
        assert_eq!(Rc::strong_count(&tracer), 3);
        // The queue is dropped here with two elements still resident.
    }
    // Every resident element was released exactly once.
    assert_eq!(Rc::strong_count(&tracer), 1);
}

#[test]
fn no_leak_unbound() {
    let tracer = Rc::new(0u8);
    {
        let mut q = UnboundQueue::<Rc<u8>>::new();
        for _ in 0..5 {
            q.push(Rc::clone(&tracer));
        }
        assert_eq!(Rc::strong_count(&tracer), 6);
        let popped = q.pop();
        assert!(popped.is_some());
        drop(popped);
        assert_eq!(Rc::strong_count(&tracer), 5);
        // The queue is dropped here with four elements still resident.
    }
    assert_eq!(Rc::strong_count(&tracer), 1);
}

#[test]
fn unbound_slot_reuse() {
    // Pops free their slots; later pushes reuse them, so the chain stays
    // correct across many cycles.
    let mut q = UnboundQueue::<usize>::new();
    for round in 0..4usize {
        for i in 0..3usize {
            q.push(round * 10 + i);
        }
        for i in 0..3usize {
            assert_eq!(q.pop(), Some(round * 10 + i));
        }
    }
    assert!(q.is_empty());
}

#[test]
fn push_on_full_discards_silently() {
    let mut q = BoundQueue::<i32>::new(1);
    q.push(5);
    assert!(q.is_full());
    q.push(6);
    assert_eq!(q.pop(), Some(5));
    assert_eq!(q.pop(), None);
}

#[test]
fn pop_on_fresh_queues() {
    let mut b = BoundQueue::<i32>::new(0);
    assert_eq!(b.pop(), None);
    assert!(b.is_full());
    let mut u = UnboundQueue::<i32>::new();
    assert_eq!(u.pop(), None);
    assert!(u.is_empty());
}
