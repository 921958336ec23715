use itermore::CombinationsWithReps;
use itermore::IntoIter;
use itermore::IterCombinationsWithReps;

fn combos(v: Vec<i32>, k: usize) -> CombinationsWithReps<i32> {
    IntoIter::new(v).with_reps(k)
}

fn drain(mut it: CombinationsWithReps<i32>) -> Vec<Vec<i32>> {
    let mut out = Vec::new();
    while let Some(c) = it.next() {
        out.push(c);
    }
    out
}

#[test]
fn combinations_with_reps_debug() {
    let iter = combos((0..6).collect(), 2);
    let _ = format!("{:?}", iter);
}

#[test]
fn combinations_with_reps_clone() {
    let mut iter = combos((0..6).collect(), 2);
    let mut iter2 = iter.clone();
    assert_eq!(iter.next(), Some(vec![0, 0]));
    assert_eq!(iter2.next(), Some(vec![0, 0]));
}

#[test]
fn combinations_with_reps_smoke() {
    let v = drain(combos((1..5).collect(), 1));
    assert_eq!(v, [[1], [2], [3], [4]]);

    println!("here");
    let v = drain(combos((1..3).collect(), 2));
    assert_eq!(v, [[1, 1], [1, 2], [2, 1], [2, 2]]);

    let v = drain(combos((1..4).collect(), 2));
    assert_eq!(
        v,
        [
            [1, 1],
            [1, 2],
            [1, 3],
            [2, 1],
            [2, 2],
            [2, 3],
            [3, 1],
            [3, 2],
            [3, 3]
        ]
    );

    let v = drain(combos((1..4).collect(), 3));
    assert_eq!(v.len(), 27);
    assert_eq!(
        &v[..8],
        [
            [1, 1, 1],
            [1, 1, 2],
            [1, 1, 3],
            [1, 2, 1],
            [1, 2, 2],
            [1, 2, 3],
            [1, 3, 1],
            [1, 3, 2]
        ]
    );

    let v = drain(combos((1..5).collect(), 4));
    assert_eq!(v.len(), 256);
}
