use itermore::CircularArrayWindows;
use itermore::IntoIter;
use itermore::IterCircularArrayWindows;

fn circ(v: Vec<i32>, n: usize) -> CircularArrayWindows<i32> {
    IntoIter::new(v).circular_array_windows(n)
}

#[test]
fn circular_array_windows_infer() {
    let s = vec![0, 1, 0, 1];
    let mut it = circ(s.clone(), 2);
    while let Some(w) = it.next() {
        assert_eq!(w[0] + w[1], 1);
    }
    let mut it = circ(s, 6);
    while let Some(w) = it.next() {
        assert_eq!(w[0] + w[1] + w[2] + w[3] + w[4] + w[5], 3);
    }
}

#[test]
fn circular_array_windows_size_hint() {
    let iter = circ((0..6).collect(), 1);
    assert_eq!(iter.size_hint(), (6, Some(6)));
    assert_eq!(iter.len(), 6);
    assert_eq!(iter.count(), 6);

    let iter = circ((0..6).collect(), 3);
    assert_eq!(iter.size_hint(), (6, Some(6)));
    assert_eq!(iter.len(), 6);
    assert_eq!(iter.count(), 6);

    let iter = circ((0..6).collect(), 5);
    assert_eq!(iter.size_hint(), (6, Some(6)));
    assert_eq!(iter.len(), 6);
    assert_eq!(iter.count(), 6);

    let iter = circ((0..6).collect(), 7);
    assert_eq!(iter.size_hint(), (6, Some(6)));
    assert_eq!(iter.len(), 6);
    assert_eq!(iter.count(), 6);

    let mut iter = circ((0..6).collect(), 4);
    assert_eq!(iter.next(), Some(vec![0, 1, 2, 3]));
    assert_eq!(iter.size_hint(), (5, Some(5)));
    assert_eq!(iter.len(), 5);
    assert_eq!(iter.count(), 5);
}

#[test]
fn circular_array_windows_wraps() {
    let mut iter = circ(vec![1, 2, 3, 4], 2);
    assert_eq!(iter.next(), Some(vec![1, 2]));
    assert_eq!(iter.next(), Some(vec![2, 3]));
    assert_eq!(iter.next(), Some(vec![3, 4]));
    assert_eq!(iter.next(), Some(vec![4, 1]));
    assert_eq!(iter.next(), None);

    let mut iter = circ(vec![1], 3);
    assert_eq!(iter.next(), Some(vec![1, 1, 1]));
    assert_eq!(iter.next(), None);
}
