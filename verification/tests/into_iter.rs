use itermore::IntoIter;

#[test]
fn into_iter_as_slice() {
    let arr: Vec<i32> = vec![1, 2, 3];
    let mut iter = IntoIter::new(arr);
    assert_eq!(iter.as_slice(), vec![1, 2, 3]);
    assert_eq!(iter.next(), Some(1));
    assert_eq!(iter.as_slice(), vec![2, 3]);
    assert_eq!(iter.next(), Some(2));
    assert_eq!(iter.as_slice(), vec![3]);
    assert_eq!(iter.next(), Some(3));
    assert_eq!(iter.as_slice(), vec![]);
    assert_eq!(iter.next(), None);
    assert_eq!(iter.as_slice(), vec![]);
    assert_eq!(iter.next(), None);
    assert_eq!(iter.as_slice(), vec![]);
}

#[test]
fn into_iter_as_mut_slice() {
    let arr: Vec<i32> = vec![1, 2, 3];
    let mut iter = IntoIter::new(arr);
    assert_eq!(iter.next(), Some(1));
    {
        let old = iter.replace(0, 4);
        assert_eq!(old, 2);
    }
    assert_eq!(iter.next(), Some(4));
    assert_eq!(iter.next(), Some(3));
    assert_eq!(iter.next(), None);
    assert_eq!(iter.next(), None);
}

#[test]
fn into_iter_debug() {
    let arr: Vec<i32> = vec![1, 2, 3];
    let mut iter = IntoIter::new(arr);
    assert_eq!(iter.next(), Some(1));
    assert_eq!(iter.debug_string(), "IntoIter([2, 3])");
}

#[test]
fn into_iter_clone() {
    let arr: Vec<i32> = vec![1, 2, 3];
    let mut iter = IntoIter::new(arr);
    assert_eq!(iter.next(), Some(1));
    let mut iter2 = iter.clone();
    assert_eq!(iter.next(), Some(2));
    assert_eq!(iter2.next(), Some(2));
    assert_eq!(iter.next(), Some(3));
    assert_eq!(iter2.next(), Some(3));
    assert_eq!(iter.next(), None);
    assert_eq!(iter2.next(), None);
}

#[test]
fn into_iter_size_hint() {
    let arr: Vec<i32> = vec![1, 2, 3];
    let mut iter = IntoIter::new(arr);
    assert_eq!(iter.size_hint(), (3, Some(3)));
    assert_eq!(iter.next(), Some(1));
    assert_eq!(iter.size_hint(), (2, Some(2)));
    assert_eq!(iter.next(), Some(2));
    assert_eq!(iter.size_hint(), (1, Some(1)));
    assert_eq!(iter.next(), Some(3));
    assert_eq!(iter.size_hint(), (0, Some(0)));
    assert_eq!(iter.next(), None);
    assert_eq!(iter.size_hint(), (0, Some(0)));
    assert_eq!(iter.next(), None);
    assert_eq!(iter.size_hint(), (0, Some(0)));
}

#[test]
fn into_iter_count() {
    let arr: Vec<i32> = vec![];
    let iter = IntoIter::new(arr);
    assert_eq!(iter.count(), 0);

    let arr: Vec<i32> = vec![1];
    let iter = IntoIter::new(arr);
    assert_eq!(iter.count(), 1);

    let arr: Vec<i32> = vec![1, 2];
    let iter = IntoIter::new(arr);
    assert_eq!(iter.count(), 2);

    let arr: Vec<i32> = vec![1, 2, 3];
    let iter = IntoIter::new(arr);
    assert_eq!(iter.count(), 3);
}

#[test]
fn into_iter_len() {
    let arr: Vec<i32> = vec![1, 2, 3];
    let mut iter = IntoIter::new(arr);
    assert_eq!(iter.len(), 3);
    assert_eq!(iter.next(), Some(1));
    assert_eq!(iter.len(), 2);
    assert_eq!(iter.next(), Some(2));
    assert_eq!(iter.len(), 1);
    assert_eq!(iter.next(), Some(3));
    assert_eq!(iter.len(), 0);
    assert_eq!(iter.next(), None);
    assert_eq!(iter.len(), 0);
    assert_eq!(iter.next(), None);
    assert_eq!(iter.len(), 0);
}

#[test]
fn into_iter_next_back() {
    let arr: Vec<i32> = vec![1, 2, 3];
    let mut iter = IntoIter::new(arr);
    assert_eq!(iter.next_back(), Some(3));
    assert_eq!(iter.next(), Some(1));
    assert_eq!(iter.next_back(), Some(2));
    assert_eq!(iter.next_back(), None);
    assert_eq!(iter.next(), None);
}

#[test]
fn into_iter_cursor_scenario() {
    let mut iter = IntoIter::new(vec![1, 2, 3]);
    assert_eq!(iter.next(), Some(1));
    assert_eq!(iter.as_slice(), vec![2, 3]);
    let mut twin = iter.clone();
    assert_eq!(iter.next(), Some(2));
    assert_eq!(twin.next(), Some(2));
    assert_eq!(iter.next(), Some(3));
    assert_eq!(iter.next(), None);
    assert_eq!(twin.next(), Some(3));
    assert_eq!(twin.next(), None);
}
