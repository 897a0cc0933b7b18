use rust_server_api::batch::BatchScheduler;

#[test]
fn groups_are_consecutive_and_bounded() {
    let mut s: BatchScheduler<char> = BatchScheduler::new(5, 2);
    assert_eq!(s.next_group(), Some((0, 2)));
    s.complete(1, 'B');
    s.complete(0, 'A');
    assert_eq!(s.next_group(), Some((2, 4)));
    s.complete(3, 'D');
    s.complete(2, 'C');
    assert_eq!(s.next_group(), Some((4, 5)));
    s.complete(4, 'E');
    assert_eq!(s.next_group(), None);
    assert_eq!(s.into_results(), vec!['A', 'B', 'C', 'D', 'E']);
}

#[test]
fn results_follow_input_order_whatever_the_completion_order() {
    let mut s: BatchScheduler<String> = BatchScheduler::new(5, 2);
    let mut order = vec![];
    while let Some((start, end)) = s.next_group() {
        for i in (start..end).rev() {
            order.push(i);
            s.complete(i, format!("task{}", i));
        }
    }
    assert_eq!(order, vec![1, 0, 3, 2, 4]);
    let r = s.into_results();
    assert_eq!(r, vec!["task0", "task1", "task2", "task3", "task4"]);
}

#[test]
fn next_group_waits_for_the_group_in_flight() {
    let mut s: BatchScheduler<u8> = BatchScheduler::new(3, 2);
    assert_eq!(s.next_group(), Some((0, 2)));
    s.complete(0, 0);
    assert!(!s.is_group_done());
    assert_eq!(s.next_group(), None);
    s.complete(1, 1);
    assert!(s.is_group_done());
    assert_eq!(s.next_group(), Some((2, 3)));
}

#[test]
fn cancel_stops_new_groups_but_keeps_the_running_one() {
    let mut s: BatchScheduler<u8> = BatchScheduler::new(4, 2);
    assert_eq!(s.next_group(), Some((0, 2)));
    s.cancel();
    s.complete(0, 7);
    s.complete(1, 8);
    assert_eq!(s.next_group(), None);
    assert_eq!(*s.slot(0), Some(7));
    assert_eq!(*s.slot(2), None);
    assert_eq!(s.launched_count(), 2);
}

#[test]
fn empty_run_has_no_group() {
    let mut s: BatchScheduler<u8> = BatchScheduler::new(0, 3);
    assert_eq!(s.total_tasks(), 0);
    assert_eq!(s.next_group(), None);
    assert!(s.into_results().is_empty());
}

#[test]
fn group_larger_than_run() {
    let mut s: BatchScheduler<u8> = BatchScheduler::new(3, 10);
    assert_eq!(s.next_group(), Some((0, 3)));
    assert_eq!(s.group_start_index(), 0);
}
