use rusteroids::sweep::clean_vec;

#[test]
fn clean_vec_with_nothing_to_remove() {
    let mut v = vec![1, 2, 3];
    clean_vec(&mut v, vec![]);
    assert_eq!(v, vec![1, 2, 3]);
}

#[test]
fn clean_vec_swaps_the_last_entry_in() {
    let mut v = vec![10, 11, 12, 13, 14];
    clean_vec(&mut v, vec![1]);
    assert_eq!(v, vec![10, 14, 12, 13]);
}

#[test]
fn clean_vec_removes_from_the_back_first() {
    let mut v = vec![10, 11, 12, 13, 14, 15];
    clean_vec(&mut v, vec![0, 2, 5]);
    // 15 goes, then 12 is replaced by 14, then 10 by 13
    assert_eq!(v, vec![13, 11, 14]);
}

#[test]
fn clean_vec_can_empty_the_list() {
    let mut v = vec!["a", "b", "c"];
    clean_vec(&mut v, vec![0, 1, 2]);
    assert!(v.is_empty());
}

#[test]
fn clean_vec_keeps_exactly_the_unlisted_entries() {
    let mut v: Vec<u32> = (0..50).collect();
    let stale: Vec<usize> = (0..50).filter(|i| i % 3 == 0).collect();
    clean_vec(&mut v, stale);
    v.sort();
    let expected: Vec<u32> = (0..50).filter(|i| i % 3 != 0).collect();
    assert_eq!(v, expected);
}
