use neuroforge::history::{History, HISTORY_CAPACITY};

#[test]
fn history_starts_empty_with_capacity_100() {
    let h: History<f64> = History::new();
    assert_eq!(h.capacity(), 100);
    assert_eq!(HISTORY_CAPACITY, 100);
    assert!(h.is_empty());
    assert!(h.last().is_none());
}

#[test]
fn history_never_exceeds_capacity() {
    let mut h: History<usize> = History::new();
    for i in 0..250 {
        h.push(i);
        assert!(h.len() <= 100);
    }
    assert_eq!(h.len(), 100);
    assert_eq!(*h.get(0), 150);
    assert_eq!(*h.get(99), 249);
    assert_eq!(h.last(), Some(&249));
}

#[test]
fn history_evicts_oldest_first() {
    let mut h: History<(f64, f64)> = History::with_capacity(3);
    h.push((0.0, 0.1));
    h.push((1.0, 0.2));
    h.push((2.0, 0.3));
    h.push((3.0, 0.4));
    assert_eq!(h.len(), 3);
    assert_eq!(*h.get(0), (1.0, 0.2));
    assert_eq!(h.last(), Some(&(3.0, 0.4)));
}

#[test]
fn history_below_capacity_keeps_everything() {
    let mut h: History<i32> = History::with_capacity(5);
    h.push(7);
    h.push(8);
    assert_eq!(h.len(), 2);
    assert_eq!(*h.get(0), 7);
    assert_eq!(*h.get(1), 8);
}

#[test]
fn history_of_capacity_zero_keeps_nothing() {
    let mut h: History<i32> = History::with_capacity(0);
    h.push(1);
    assert!(h.is_empty());
}
