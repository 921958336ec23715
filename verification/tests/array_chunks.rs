use itermore::ArrayChunks;
use itermore::IntoIter;
use itermore::IterArrayChunks;

fn chunks_of(v: Vec<i32>, n: usize) -> ArrayChunks<i32> {
    IntoIter::new(v).array_chunks(n)
}

fn drain_cursor(mut c: IntoIter<i32>) -> Vec<i32> {
    let mut out = Vec::new();
    while let Some(x) = c.next() {
        out.push(x);
    }
    out
}

#[test]
fn array_chunks_debug() {
    let iter = chunks_of((0..6).collect(), 2);
    let _ = format!("{:?}", iter);
}

#[test]
fn array_chunks_clone() {
    let mut iter = chunks_of((0..6).collect(), 2);
    let mut iter2 = iter.clone();
    assert_eq!(iter.next(), Some(vec![0, 1]));
    assert_eq!(iter2.next(), Some(vec![0, 1]));
}

#[test]
fn array_chunks_infer() {
    let s = vec![1, 1, 2, -2, 6, 0, 3, 1];
    let mut it = chunks_of(s, 3);
    while let Some(c) = it.next() {
        assert_eq!(c[0] + c[1] + c[2], 4);
    }
}

#[test]
fn array_chunks_size_hint() {
    let iter = chunks_of((0..6).collect(), 1);
    assert_eq!(iter.size_hint(), (6, Some(6)));

    let iter = chunks_of((0..6).collect(), 3);
    assert_eq!(iter.size_hint(), (2, Some(2)));

    let iter = chunks_of((0..6).collect(), 5);
    assert_eq!(iter.size_hint(), (1, Some(1)));

    let iter = chunks_of((0..6).collect(), 7);
    assert_eq!(iter.size_hint(), (0, Some(0)));
}

#[test]
fn array_chunks_count() {
    let iter = chunks_of((0..6).collect(), 1);
    assert_eq!(iter.count(), 6);

    let iter = chunks_of((0..6).collect(), 3);
    assert_eq!(iter.count(), 2);

    let iter = chunks_of((0..6).collect(), 5);
    assert_eq!(iter.count(), 1);

    let iter = chunks_of((0..6).collect(), 7);
    assert_eq!(iter.count(), 0);

    let iter = chunks_of((0..6).filter(|x| x % 2 == 0).collect(), 2);
    assert_eq!(iter.count(), 1);

    let iter = chunks_of(Vec::new(), 2);
    assert_eq!(iter.count(), 0);
}

#[test]
fn array_chunks_remainder() {
    let mut iter = chunks_of((0..4).collect(), 2);
    assert_eq!(iter.next(), Some(vec![0, 1]));
    assert_eq!(iter.next(), Some(vec![2, 3]));
    assert_eq!(iter.next(), None);
    assert_eq!(drain_cursor(iter.into_remainder().unwrap()), vec![]);

    let mut iter = chunks_of((0..5).collect(), 2);
    assert_eq!(iter.next(), Some(vec![0, 1]));
    assert_eq!(iter.next(), Some(vec![2, 3]));
    assert_eq!(iter.next(), None);
    assert_eq!(drain_cursor(iter.into_remainder().unwrap()), vec![4]);

    let mut iter = chunks_of((0..5).collect(), 2);
    assert_eq!(iter.next(), Some(vec![0, 1]));
    assert!(iter.into_remainder().is_none());
}

#[test]
fn array_chunks_next_back() {
    let mut iter = chunks_of((0..7).collect(), 2);
    assert_eq!(iter.next(), Some(vec![0, 1]));
    assert_eq!(iter.next_back(), Some(vec![4, 5]));
    assert_eq!(iter.next(), Some(vec![2, 3]));
    assert_eq!(iter.next_back(), None);
    assert_eq!(iter.next(), None);
}

#[test]
fn array_chunks_next_back_remainder() {
    let mut iter = chunks_of((0..7).collect(), 2);
    assert_eq!(iter.next(), Some(vec![0, 1]));
    assert_eq!(iter.next_back(), Some(vec![4, 5]));
    assert_eq!(iter.next(), Some(vec![2, 3]));
    assert_eq!(drain_cursor(iter.into_remainder().unwrap()), vec![6]);
}

#[test]
fn array_chunks_nth() {
    let mut iter = chunks_of((0..6).collect(), 2);
    assert_eq!(iter.nth(1), Some(vec![2, 3]));
    assert_eq!(iter.nth(0), Some(vec![4, 5]));
    assert_eq!(iter.nth(1), None);
}

#[test]
fn array_chunks_len() {
    let iter = chunks_of((0..6).collect(), 1);
    assert_eq!(iter.len(), 6);

    let iter = chunks_of((0..6).collect(), 2);
    assert_eq!(iter.len(), 3);

    let iter = chunks_of((0..6).collect(), 3);
    assert_eq!(iter.len(), 2);

    let iter = chunks_of((0..6).collect(), 4);
    assert_eq!(iter.len(), 1);

    let iter = chunks_of((0..6).collect(), 5);
    assert_eq!(iter.len(), 1);

    let iter = chunks_of((0..6).collect(), 6);
    assert_eq!(iter.len(), 1);

    let iter = chunks_of((0..6).collect(), 7);
    assert_eq!(iter.len(), 0);

    let iter = chunks_of(Vec::new(), 2);
    assert_eq!(iter.len(), 0);
}
