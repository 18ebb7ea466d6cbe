use chat_app::collections::ActiveVec;

#[test]
fn new_list_is_empty_and_has_no_active_element() {
    let mut list: ActiveVec<u32> = ActiveVec::new();
    assert_eq!(list.len(), 0);
    assert!(list.is_empty());
    assert_eq!(list.get_active_index(), None);
    assert_eq!(list.get_active(), None);
    assert_eq!(list.get_active_mut(), None);
    assert_eq!(list.iter().count(), 0);
}

#[test]
fn first_push_makes_the_element_active() {
    let mut list = ActiveVec::new();
    list.push("a");
    assert_eq!(list.get_active_index(), Some(0));
    assert_eq!(list.get_active(), Some(&"a"));
    list.push("b");
    list.push("c");
    assert_eq!(list.get_active_index(), Some(0));
    assert_eq!(list.len(), 3);
    assert!(!list.is_empty());
    assert_eq!(list.iter().copied().collect::<Vec<&str>>(), vec!["a", "b", "c"]);
}

#[test]
fn next_wraps_to_the_start() {
    let mut list = ActiveVec::from(vec![10, 20, 30]);
    assert_eq!(list.get_active(), Some(&10));
    list.next();
    assert_eq!(list.get_active_index(), Some(1));
    list.next();
    assert_eq!(list.get_active(), Some(&30));
    list.next();
    assert_eq!(list.get_active_index(), Some(0));
}

#[test]
fn prev_wraps_to_the_end() {
    let mut list = ActiveVec::from(vec![10, 20, 30]);
    list.prev();
    assert_eq!(list.get_active_index(), Some(2));
    list.prev();
    assert_eq!(list.get_active_index(), Some(1));
    list.prev();
    assert_eq!(list.get_active_index(), Some(0));
}

#[test]
fn next_and_prev_do_nothing_in_an_empty_list() {
    let mut list: ActiveVec<u8> = ActiveVec::new();
    list.next();
    list.prev();
    assert_eq!(list.get_active_index(), None);
    assert!(list.is_empty());
}

#[test]
fn single_element_stays_active() {
    let mut list = ActiveVec::from(vec!['x']);
    list.next();
    assert_eq!(list.get_active_index(), Some(0));
    list.prev();
    assert_eq!(list.get_active_index(), Some(0));
}

#[test]
fn active_element_can_be_changed_in_place() {
    let mut list = ActiveVec::from(vec![1, 2, 3]);
    list.next();
    if let Some(slot) = list.get_active_mut() {
        *slot = 20;
    }
    assert_eq!(list.iter().copied().collect::<Vec<i32>>(), vec![1, 20, 3]);
    assert_eq!(list.get_active(), Some(&20));
}

#[test]
fn list_from_an_empty_vec_has_no_active_element() {
    let list: ActiveVec<i32> = ActiveVec::from(Vec::new());
    assert_eq!(list.get_active_index(), None);
    assert_eq!(list.len(), 0);
}

#[test]
fn push_after_moving_keeps_the_active_element() {
    let mut list = ActiveVec::from(vec![1, 2]);
    list.next();
    list.push(3);
    assert_eq!(list.get_active_index(), Some(1));
    list.next();
    assert_eq!(list.get_active(), Some(&3));
}
