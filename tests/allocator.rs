use record_store::IdentityAllocator;
use std::sync::{Arc, Mutex};

#[test]
fn fresh_allocator_starts_at_zero() {
    let mut a = IdentityAllocator::new();
    assert_eq!(a.next(), Some(0));
    assert_eq!(a.next(), Some(1));
    assert_eq!(a.peek(), 2);
}

#[test]
fn run_of_calls_gives_distinct_values_in_range() {
    let mut a = IdentityAllocator::starting_at(10);
    let before = a.peek();
    let mut seen: Vec<u64> = Vec::new();
    for _ in 0..50 {
        seen.push(a.next().unwrap());
    }
    let after = a.peek();
    let mut sorted = seen.clone();
    sorted.sort();
    sorted.dedup();
    assert_eq!(sorted.len(), 50);
    assert!(seen.iter().all(|&v| v >= before && v < after));
    assert_eq!(after, 60);
}

#[test]
fn shared_allocator_under_a_lock_never_repeats() {
    let shared = Arc::new(Mutex::new(IdentityAllocator::new()));
    let writers: Vec<Arc<Mutex<IdentityAllocator>>> = (0..4).map(|_| Arc::clone(&shared)).collect();
    let mut all: Vec<u64> = Vec::new();
    for round in 0..100 {
        for (k, w) in writers.iter().enumerate() {
            if (round + k) % 3 != 0 {
                all.push(w.lock().unwrap().next().unwrap());
            }
        }
    }
    let n = all.len();
    let after = shared.lock().unwrap().peek();
    all.sort();
    all.dedup();
    assert_eq!(all.len(), n);
    assert!(all.iter().all(|&v| v < after));
    assert_eq!(after as usize, n);
}

#[test]
fn exhausted_allocator_returns_none_without_wrapping() {
    let mut a = IdentityAllocator::starting_at(u64::MAX - 1);
    assert!(!a.is_exhausted());
    assert_eq!(a.next(), Some(u64::MAX - 1));
    assert!(a.is_exhausted());
    assert_eq!(a.next(), None);
    assert_eq!(a.peek(), u64::MAX);
}
