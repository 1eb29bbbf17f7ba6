use std::collections::HashSet;

use modiom::selection::missing_ids;

#[test]
fn missing_ids_are_requested_but_not_found() {
    let set = |v: &[u64]| v.iter().copied().collect::<HashSet<u64>>();
    assert_eq!(missing_ids(&vec![5, 3, 5, 9, 1], &vec![9, 4]), set(&[5, 3, 1]));
    assert_eq!(missing_ids(&vec![], &vec![1]), set(&[]));
    assert_eq!(missing_ids(&vec![2, 2], &vec![]), set(&[2]));
    assert_eq!(missing_ids(&vec![7], &vec![7]), set(&[]));
}
