use itermore::IntoIter;
use itermore::IterSorted;

#[test]
fn sorted() {
    let mut it = IntoIter::new(vec![1, 3, 2]).sorted();
    let mut v = Vec::new();
    while let Some(x) = it.next() {
        v.push(x);
    }
    assert_eq!(v, [1, 2, 3]);
}

#[test]
fn sorted_with_repeats() {
    let mut it = itermore::sorted(vec![4, -1, 4, 0, -1]);
    let mut v = Vec::new();
    while let Some(x) = it.next() {
        v.push(x);
    }
    assert_eq!(v, [-1, -1, 0, 4, 4]);
}
