use itermore::IntoIter;
use itermore::IterPowerSet;

#[test]
fn power_set_construct() {
    let ps = IntoIter::new(vec![1, 2]).power_set();
    let _ = format!("{:?}", ps);
}
