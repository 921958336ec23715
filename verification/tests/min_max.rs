use itermore::IntoIter;
use itermore::IterMinMax;

fn mm(v: Vec<i64>) -> Option<(i64, i64)> {
    IntoIter::new(v).min_max()
}

#[test]
fn min_max() {
    assert_eq!(mm(Vec::new()), None);

    assert_eq!(mm(vec![1]), Some((1, 1)));

    assert_eq!(mm(vec![1, 2]), Some((1, 2)));
    assert_eq!(mm(vec![2, 1]), Some((1, 2)));

    assert_eq!(mm(vec![1, 2, 3]), Some((1, 3)));
    assert_eq!(mm(vec![1, 3, 2]), Some((1, 3)));
    assert_eq!(mm(vec![2, 1, 3]), Some((1, 3)));
    assert_eq!(mm(vec![2, 3, 1]), Some((1, 3)));
    assert_eq!(mm(vec![3, 1, 2]), Some((1, 3)));
    assert_eq!(mm(vec![3, 2, 1]), Some((1, 3)));
}

#[test]
fn min_max_longer() {
    assert_eq!(mm(vec![2, 3, 1, 4]), Some((1, 4)));
    assert_eq!(mm(vec![5, 5, 5, 5, 5]), Some((5, 5)));
    assert_eq!(mm(vec![-7, 0, 7, -7, 7]), Some((-7, 7)));
}

#[test]
fn min_max_by() {
    let rev = |a: &i64, b: &i64| std::cmp::Reverse(a).cmp(&std::cmp::Reverse(b));
    let mmb = |v: Vec<i64>| IntoIter::new(v).min_max_by(rev);
    assert_eq!(mmb(Vec::new()), None);

    assert_eq!(mmb(vec![1]), Some((1, 1)));

    assert_eq!(mmb(vec![1, 2]), Some((2, 1)));
    assert_eq!(mmb(vec![2, 1]), Some((2, 1)));

    assert_eq!(mmb(vec![1, 2, 3]), Some((3, 1)));
    assert_eq!(mmb(vec![1, 3, 2]), Some((3, 1)));
    assert_eq!(mmb(vec![2, 1, 3]), Some((3, 1)));
    assert_eq!(mmb(vec![2, 3, 1]), Some((3, 1)));
    assert_eq!(mmb(vec![3, 1, 2]), Some((3, 1)));
    assert_eq!(mmb(vec![3, 2, 1]), Some((3, 1)));
}

#[test]
fn min_max_by_key() {
    let key = |item: &i64| -item;
    let mmk = |v: Vec<i64>| IntoIter::new(v).min_max_by_key(key);
    assert_eq!(mmk(Vec::new()), None);

    assert_eq!(mmk(vec![1]), Some((1, 1)));

    assert_eq!(mmk(vec![1, 2]), Some((2, 1)));
    assert_eq!(mmk(vec![2, 1]), Some((2, 1)));

    assert_eq!(mmk(vec![1, 2, 3]), Some((3, 1)));
    assert_eq!(mmk(vec![1, 3, 2]), Some((3, 1)));
    assert_eq!(mmk(vec![2, 1, 3]), Some((3, 1)));
    assert_eq!(mmk(vec![2, 3, 1]), Some((3, 1)));
    assert_eq!(mmk(vec![3, 1, 2]), Some((3, 1)));
    assert_eq!(mmk(vec![3, 2, 1]), Some((3, 1)));
}
