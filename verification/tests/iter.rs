use chos_lib::iter::min_max;

#[test]
fn min_max_of_pairs() {
    assert_eq!(min_max(&[]), None);
    assert_eq!(min_max(&[(3, 4)]), Some((3, 4)));
    assert_eq!(min_max(&[(3, 4), (1, 2), (5, 9), (2, 7)]), Some((1, 9)));
}
