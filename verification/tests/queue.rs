use libscroll::circular_backqueue::ForgetfulLogQueue;

#[test]
fn freshest_item_at_position_zero() {
    let mut q: ForgetfulLogQueue<u32> = ForgetfulLogQueue::new(3);
    q.push(1);
    q.push(2);
    q.push(3);
    assert_eq!(q.get(0), Some(&3));
    assert_eq!(q.get(1), Some(&2));
    assert_eq!(q.get(2), Some(&1));
    assert_eq!(q.get(3), None);
    assert_eq!(q.size(), 3);
}

#[test]
fn capacity_one_queue() {
    let mut q: ForgetfulLogQueue<u32> = ForgetfulLogQueue::new(1);
    q.push(7);
    assert_eq!(q.get(0), Some(&7));
    assert_eq!(q.get(1), None);
    q.push(8);
    assert_eq!(q.get(0), Some(&8));
    assert_eq!(q.size(), 1);
}

#[test]
fn fifo_forgetting_keeps_most_recent() {
    let mut q: ForgetfulLogQueue<u32> = ForgetfulLogQueue::new(3);
    for x in 1..=5u32 {
        q.push(x);
        assert!(q.size() <= 3);
    }
    assert_eq!(q.get(0), Some(&5));
    assert_eq!(q.get(1), Some(&4));
    assert_eq!(q.get(2), Some(&3));
    assert_eq!(q.get(3), None);
}

#[test]
fn replace_current_overwrites_in_place() {
    let mut q: ForgetfulLogQueue<u32> = ForgetfulLogQueue::new(3);
    q.push(1);
    q.push(2);
    q.replace_cur(9);
    assert_eq!(q.get(0), Some(&9));
    assert_eq!(q.get(1), Some(&1));
    assert_eq!(q.size(), 2);
}

#[test]
fn clear_resets_contents_not_capacity() {
    let mut q: ForgetfulLogQueue<u32> = ForgetfulLogQueue::new(2);
    q.push(1);
    q.push(2);
    assert!(!q.empty());
    q.clear();
    assert!(q.empty());
    assert_eq!(q.size(), 0);
    assert_eq!(q.get(0), None);
    q.push(5);
    assert_eq!(q.get(0), Some(&5));
}

#[test]
fn all_exposes_every_live_item() {
    let mut q: ForgetfulLogQueue<u32> = ForgetfulLogQueue::new(2);
    q.push(1);
    q.push(2);
    q.push(3);
    let mut items = q.all().clone();
    items.sort();
    assert_eq!(items, vec![2, 3]);
}

#[test]
fn get_or_avg_returns_exact_hit() {
    let mut q: ForgetfulLogQueue<(u64, i64)> = ForgetfulLogQueue::new(4);
    q.push((10, 4));
    q.push((20, 8));
    assert_eq!(q.get_or_avg(0), (20, 8));
    assert_eq!(q.get_or_avg(1), (10, 4));
}

#[test]
fn get_or_avg_falls_back_to_mean_with_zero_timestamp() {
    let mut q: ForgetfulLogQueue<(u64, i64)> = ForgetfulLogQueue::new(4);
    q.push((10, 4));
    q.push((20, 8));
    assert_eq!(q.get_or_avg(7), (0, 6));
}

#[test]
fn get_or_avg_mean_truncates_toward_zero() {
    let mut q: ForgetfulLogQueue<(u64, i64)> = ForgetfulLogQueue::new(4);
    q.push((10, -5));
    q.push((20, -6));
    assert_eq!(q.get_or_avg(9), (0, -5));
}

#[test]
fn partially_filled_queue_has_no_deeper_past() {
    let mut q: ForgetfulLogQueue<u32> = ForgetfulLogQueue::new(3);
    q.push(42);
    assert_eq!(q.get(0), Some(&42));
    assert_eq!(q.get(1), None);
    assert_eq!(q.get(2), None);
}

#[test]
fn get_or_avg_single_element_mean() {
    let mut q: ForgetfulLogQueue<(u64, i64)> = ForgetfulLogQueue::new(2);
    q.push((5, 9));
    assert_eq!(q.get_or_avg(3), (0, 9));
}
