use itermore::IntoIter;
use itermore::collect;
use itermore::collect_exact;
use itermore::collect_owned;
use itermore::collect_reversed;
use itermore::next_chunk;

fn drain(mut c: IntoIter<i32>) -> Vec<i32> {
    let mut out = Vec::new();
    while let Some(x) = c.next() {
        out.push(x);
    }
    out
}

#[test]
fn next_chunk_fewer() {
    let mut iter = IntoIter::new(vec![1, 2, 3]);
    let res: Result<Vec<i32>, IntoIter<i32>> = next_chunk(&mut iter, 4);
    let mut rem = res.unwrap_err();
    assert_eq!(rem.next(), Some(1));
    assert_eq!(rem.next(), Some(2));
    assert_eq!(rem.next(), Some(3));
}

#[test]
fn collect_shortfall_remainder() {
    let iter = IntoIter::new(vec![1, 2, 3]);
    let res = collect_owned(iter, 4);
    let rem = res.unwrap_err();
    assert_eq!(drain(rem), vec![1, 2, 3]);
}

#[test]
fn collect_by_ref_leaves_rest() {
    let mut iter = IntoIter::new(vec![1, 2, 3, 4]);
    let got = collect(&mut iter, 3);
    assert_eq!(got, Some(vec![1, 2, 3]));
    assert_eq!(drain(iter), vec![4]);
}

#[test]
fn collect_by_ref_shortfall_drops() {
    let mut iter = IntoIter::new(vec![1, 2, 3]);
    let got = collect(&mut iter, 4);
    assert_eq!(got, None);
    assert_eq!(iter.len(), 0);
    assert_eq!(iter.next(), None);
}

#[test]
fn collect_zero_size() {
    let mut iter = IntoIter::new(vec![7, 8]);
    let got = collect(&mut iter, 0);
    assert_eq!(got, Some(vec![]));
    assert_eq!(iter.len(), 2);

    let mut empty = IntoIter::new(Vec::<i32>::new());
    assert_eq!(collect(&mut empty, 0), Some(vec![]));
}

#[test]
fn collect_exact_in_order() {
    let mut iter = IntoIter::new(vec![5, 6, 7]);
    let got = collect_exact(&mut iter, 2);
    assert_eq!(got, vec![5, 6]);
    assert_eq!(drain(iter), vec![7]);
}

#[test]
fn collect_reversed_orders() {
    let mut iter = IntoIter::new(vec![1, 2, 3]);
    let got = collect_reversed(&mut iter, 3);
    assert_eq!(got, Some(vec![3, 2, 1]));

    let mut iter = IntoIter::new(vec![1, 2]);
    assert_eq!(collect_reversed(&mut iter, 3), None);
}
