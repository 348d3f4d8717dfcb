use proxichat::sweep::remove_marked;

#[test]
fn nothing_marked_keeps_all() {
    let mut items = vec![1, 2, 3];
    remove_marked(&mut items, &vec![false, false, false]);
    assert_eq!(items, vec![1, 2, 3]);
}

#[test]
fn everything_marked_keeps_none() {
    let mut items = vec![1, 2, 3];
    remove_marked(&mut items, &vec![true, true, true]);
    assert!(items.is_empty());
}

#[test]
fn empty_list_stays_empty() {
    let mut items: Vec<u8> = Vec::new();
    remove_marked(&mut items, &Vec::new());
    assert!(items.is_empty());
}

#[test]
fn marked_items_leave_and_order_stays() {
    let mut items = vec!['a', 'b', 'c', 'd', 'e', 'f'];
    remove_marked(&mut items, &vec![true, false, true, true, false, false]);
    assert_eq!(items, vec!['b', 'e', 'f']);
}

#[test]
fn neighbours_at_both_ends_leave() {
    let mut items = vec![0, 1, 2, 3, 4, 5, 6];
    remove_marked(&mut items, &vec![true, true, false, false, false, true, true]);
    assert_eq!(items, vec![2, 3, 4]);
}

#[test]
fn every_pattern_of_marks_on_five_items() {
    for pattern in 0u32..32 {
        let marks: Vec<bool> = (0..5).map(|i| pattern & (1 << i) != 0).collect();
        let mut items: Vec<usize> = (0..5).collect();
        remove_marked(&mut items, &marks);
        let expected: Vec<usize> = (0..5).filter(|i| !marks[*i]).collect();
        assert_eq!(items, expected);
        assert_eq!(items.len(), 5 - pattern.count_ones() as usize);
    }
}

#[test]
fn items_need_not_be_copied() {
    let mut items = vec![String::from("x"), String::from("y"), String::from("z")];
    remove_marked(&mut items, &vec![false, true, false]);
    assert_eq!(items, vec![String::from("x"), String::from("z")]);
}
