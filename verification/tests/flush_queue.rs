use starfish::flush_queue::FlushQueue;

/// Runs operations at positions `0..n`; their actions finish in the order
/// `finish_order`.  An operation's post step runs once its action finished
/// and the position it waits for has left the queue.  Returns the order of
/// the post steps.
fn run_ops(n: u64, finish_order: &[u64]) -> Vec<u64> {
    let mut queue = FlushQueue::new();
    for i in 0..n {
        queue.register(i);
    }
    assert_eq!(queue.len(), n as usize);
    let mut finished = vec![false; n as usize];
    let mut posted = vec![false; n as usize];
    let mut result = vec![];
    for &i in finish_order {
        finished[i as usize] = true;
        // Run every post step that may run now.
        loop {
            let mut progressed = false;
            for j in 0..n {
                if finished[j as usize] && !posted[j as usize] && queue.waits_for(j).is_none() {
                    posted[j as usize] = true;
                    result.push(j);
                    assert!(queue.finish(j));
                    progressed = true;
                }
            }
            if !progressed {
                break;
            }
        }
    }
    assert!(queue.is_empty());
    result
}

#[test]
fn test_run_with_ordered_post_op() {
    let expected: Vec<u64> = (0..5).collect();
    for order in [
        vec![0, 1, 2, 3, 4],
        vec![4, 3, 2, 1, 0],
        vec![2, 0, 4, 1, 3],
        vec![1, 3, 0, 4, 2],
    ] {
        assert_eq!(run_ops(5, &order), expected);
    }
}

#[test]
fn waits_for_the_closest_lower_position() {
    let mut q = FlushQueue::new();
    q.register(10);
    q.register(20);
    q.register(20);
    q.register(30);
    assert_eq!(q.len(), 3);
    assert_eq!(q.waits_for(10), None);
    assert_eq!(q.waits_for(20), Some(10));
    assert_eq!(q.waits_for(25), Some(20));
    assert_eq!(q.waits_for(31), Some(30));
    assert_eq!(q.pending_up_to(20), Some(20));
    assert_eq!(q.pending_up_to(9), None);
    assert_eq!(q.last(), Some(30));
    // Two operations share position 20: it leaves with the second.
    assert!(!q.finish(20));
    assert_eq!(q.waits_for(25), Some(20));
    assert!(q.finish(20));
    assert_eq!(q.waits_for(25), Some(10));
    assert!(q.finish(10));
    assert!(q.finish(30));
    assert!(q.is_empty());
    assert_eq!(q.last(), None);
}

#[test]
fn last_entry_counts_operations_at_the_newest_position() {
    let mut q = FlushQueue::new();
    assert_eq!(q.last_entry(), None);
    q.register(4);
    q.register(7);
    q.register(7);
    assert_eq!(q.last_entry(), Some((7, 2)));
    assert!(!q.finish(7));
    assert_eq!(q.last_entry(), Some((7, 1)));
    assert!(q.finish(7));
    assert_eq!(q.last_entry(), Some((4, 1)));
}
