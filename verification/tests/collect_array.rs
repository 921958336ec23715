use itermore::IntoIter;
use itermore::IterCollectArray;

#[test]
fn collect_array() {
    let arr: Vec<i32> = IntoIter::new((0..0).collect::<Vec<i32>>()).collect_array(0);
    assert_eq!(arr, vec![]);

    let arr: Vec<i32> = IntoIter::new((0..3).collect::<Vec<i32>>()).collect_array(3);
    assert_eq!(arr, vec![0, 1, 2]);

    let arr: Vec<i32> = IntoIter::new((0..3).rev().collect::<Vec<i32>>()).collect_array(3);
    assert_eq!(arr, vec![2, 1, 0]);

    let arr: Vec<i32> = IntoIter::new((0..10).take(3).collect::<Vec<i32>>()).collect_array(3);
    assert_eq!(arr, vec![0, 1, 2]);
}
