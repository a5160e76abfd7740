use central_api_lib::timelocked_hashmap::TimedHashMap;

#[test]
fn new_map_is_empty() {
    let m: TimedHashMap<&str> = TimedHashMap::new();
    assert_eq!(m.len(), 0);
    assert!(!m.contains_key(&1));
    assert!(m.front_with_time().is_none());
    assert!(m.keys().is_empty());
}

#[test]
fn insert_then_contains_and_remove_gives_value_back() {
    let mut m = TimedHashMap::new();
    m.insert(7, "seven", 100);
    assert!(m.contains_key(&7));
    assert!(!m.contains_key(&8));
    assert_eq!(m.remove(&7), Some("seven"));
    assert!(!m.contains_key(&7));
    assert_eq!(m.remove(&7), None);
    assert_eq!(m.len(), 0);
}

#[test]
fn entries_come_out_in_insertion_order_with_times() {
    let mut m = TimedHashMap::new();
    m.insert(3, 'c', 10);
    m.insert(1, 'a', 20);
    m.insert(2, 'b', 30);
    assert_eq!(m.keys(), vec![3, 1, 2]);
    assert_eq!(m.values(), vec![&'c', &'a', &'b']);
    assert_eq!(m.front_with_time(), Some((3, &'c', 10)));
    assert_eq!(m.pop_front(), Some((3, 'c', 10)));
    assert_eq!(m.pop_front(), Some((1, 'a', 20)));
    assert_eq!(m.pop_front(), Some((2, 'b', 30)));
    assert_eq!(m.pop_front(), None);
}

#[test]
fn reinserting_a_key_moves_it_to_the_back_with_new_value() {
    let mut m = TimedHashMap::new();
    m.insert(1, "one", 5);
    m.insert(2, "two", 6);
    m.insert(1, "uno", 7);
    assert_eq!(m.len(), 2);
    assert_eq!(m.keys(), vec![2, 1]);
    assert_eq!(m.front_with_time(), Some((2, &"two", 6)));
    assert_eq!(m.remove(&1), Some("uno"));
}

#[test]
fn stored_times_never_run_backwards() {
    let mut m = TimedHashMap::new();
    m.insert(1, (), 500);
    m.insert(2, (), 100);
    assert_eq!(m.pop_front(), Some((1, (), 500)));
    assert_eq!(m.pop_front(), Some((2, (), 500)));
}

#[test]
fn removing_from_the_middle_keeps_the_order() {
    let mut m = TimedHashMap::new();
    for k in 0..5u64 {
        m.insert(k, k * 10, k);
    }
    assert_eq!(m.remove(&2), Some(20));
    assert_eq!(m.keys(), vec![0, 1, 3, 4]);
    assert_eq!(m.values(), vec![&0, &10, &30, &40]);
}
