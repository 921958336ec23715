use itermore::Combinations;
use itermore::IntoIter;
use itermore::IterCombinations;

fn combos(v: Vec<i32>, k: usize) -> Combinations<i32> {
    IntoIter::new(v).combinations(k)
}

fn drain(mut it: Combinations<i32>) -> Vec<Vec<i32>> {
    let mut out = Vec::new();
    while let Some(c) = it.next() {
        out.push(c);
    }
    out
}

#[test]
fn combinations_debug() {
    let iter = combos((0..6).collect(), 2);
    let _ = format!("{:?}", iter);
}

#[test]
fn combinations_clone() {
    let mut iter = combos((0..6).collect(), 2);
    let mut iter2 = iter.clone();
    assert_eq!(iter.next(), Some(vec![0, 1]));
    assert_eq!(iter2.next(), Some(vec![0, 1]));
}

#[test]
fn combinations_smoke() {
    let v = drain(combos((1..5).collect(), 1));
    assert_eq!(v, [[1], [2], [3], [4]]);

    let v = drain(combos((1..5).collect(), 2));
    assert_eq!(v, [[1, 2], [1, 3], [1, 4], [2, 3], [2, 4], [3, 4]]);

    let v = drain(combos((1..5).collect(), 3));
    assert_eq!(v, [[1, 2, 3], [1, 2, 4], [1, 3, 4], [2, 3, 4]]);

    let v = drain(combos((1..5).collect(), 4));
    assert_eq!(v, [[1, 2, 3, 4]]);

    let v = drain(combos((1..5).collect(), 5));
    assert!(v.is_empty());
}

#[test]
fn combinations_edge_cases() {
    let mut it = combos((1..2).collect(), 1);
    assert_eq!(it.next(), Some(vec![1]));
    assert!(it.next().is_none());

    let mut it = combos((1..2).collect(), 2);
    assert!(it.next().is_none());
    assert!(it.next().is_none());
    assert!(it.next().is_none());

    let mut it = combos((1..3).collect(), 3);
    assert!(it.next().is_none());
    assert!(it.next().is_none());
    assert!(it.next().is_none());
    assert!(it.next().is_none());
    assert!(it.next().is_none());
}
