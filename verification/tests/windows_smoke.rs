use itermore::ArrayWindows;
use itermore::IntoIter;
use itermore::IterArrayWindows;

fn windows_of(v: Vec<i32>, n: usize) -> ArrayWindows<i32> {
    IntoIter::new(v).array_windows(n)
}

#[test]
fn windows_infer() {
    let s = vec![0, 1, 0, 1, 0, 1];
    let mut it = windows_of(s.clone(), 2);
    while let Some(w) = it.next() {
        assert_eq!(w[0] + w[1], 1);
    }
    let mut it = windows_of(s, 4);
    while let Some(w) = it.next() {
        assert_eq!(w[0] + w[1] + w[2] + w[3], 2);
    }
}

#[test]
fn windows_size_hint() {
    let iter = windows_of((0..6).collect(), 1);
    assert_eq!(iter.size_hint(), (6, Some(6)));

    let iter = windows_of((0..6).collect(), 3);
    assert_eq!(iter.size_hint(), (4, Some(4)));

    let iter = windows_of((0..6).collect(), 5);
    assert_eq!(iter.size_hint(), (2, Some(2)));

    let iter = windows_of((0..6).collect(), 7);
    assert_eq!(iter.size_hint(), (0, Some(0)));
}

#[test]
fn windows_count() {
    let iter = windows_of((0..6).collect(), 1);
    assert_eq!(iter.count(), 6);

    let iter = windows_of((0..6).collect(), 3);
    assert_eq!(iter.count(), 4);

    let iter = windows_of((0..6).collect(), 5);
    assert_eq!(iter.count(), 2);

    let iter = windows_of((0..6).collect(), 7);
    assert_eq!(iter.count(), 0);

    let iter = windows_of((0..6).filter(|x| x % 2 == 0).collect(), 2);
    assert_eq!(iter.count(), 2);

    let iter = windows_of(Vec::new(), 2);
    assert_eq!(iter.count(), 0);
}

#[test]
fn windows_nth() {
    let mut iter = windows_of((0..6).collect(), 4);
    assert_eq!(iter.nth(1), Some(vec![1, 2, 3, 4]));
    assert_eq!(iter.nth(0), Some(vec![2, 3, 4, 5]));
    assert_eq!(iter.nth(1), None);
}
