use starfish::smp::{channel_plan, shard_queues, ChannelEnd, PollFn, Route, SmpPollFn, SmpQueues};

#[test]
fn work_for_this_shard_runs_locally() {
    let q = SmpQueues::new(1, 3, vec!["to0", "to1", "to2"]);
    assert_eq!(q.reactor_id(), 1);
    assert_eq!(q.smp_count(), 3);
    assert_eq!(q.submit_to(1), Route::Local);
    assert_eq!(q.submit_to(0), Route::Remote(0));
    assert_eq!(q.submit_to(2), Route::Remote(2));
    assert_eq!(*q.queue(2), "to2");
    assert!(!q.poll_queues(1));
    assert!(!q.pure_poll_queues(1));
}

#[test]
fn smp_poller_does_no_work_yet() {
    let q = SmpQueues::new(0, 1, vec![()]);
    let p = SmpPollFn::new(&q, 0);
    assert!(!p.poll());
    assert!(!p.pure_poll());
    assert!(!p.try_enter_interrupt_mode());
    p.exit_interrupt_mode();
}

#[test]
fn channel_plan_for_four_shards() {
    let plan = channel_plan(4);
    let end = |pair, first| ChannelEnd { pair, first };
    // Pairs are made for (0,0) (0,1) (0,2) (0,3) (1,1) (1,2) ... (3,3).
    assert_eq!(plan[0], vec![end(0, false), end(1, true), end(2, true), end(3, true)]);
    assert_eq!(plan[1], vec![end(1, false), end(4, false), end(5, true), end(6, true)]);
    assert_eq!(plan[2], vec![end(2, false), end(5, false), end(7, false), end(8, true)]);
    assert_eq!(plan[3], vec![end(3, false), end(6, false), end(8, false), end(9, false)]);
}

#[test]
fn channel_plan_connects_every_pair_once() {
    let n = 6;
    let plan = channel_plan(n);
    let mut seen = vec![0; n * (n + 1) / 2];
    for r in 0..n {
        for c in 0..n {
            let e = plan[r][c];
            assert_eq!(e.pair, plan[c][r].pair);
            if r != c {
                assert_ne!(e.first, plan[c][r].first);
            }
            if r <= c {
                seen[e.pair] += 1;
            }
        }
    }
    assert!(seen.iter().all(|k| *k == 1));
    assert!(channel_plan(0).is_empty());
}

#[test]
fn every_shard_gets_its_row_of_the_plan() {
    let n = 3;
    let plan = channel_plan(n);
    let qs = shard_queues(n);
    assert_eq!(qs.len(), n);
    for r in 0..n {
        assert_eq!(qs[r].reactor_id(), r);
        assert_eq!(qs[r].smp_count(), n);
        for c in 0..n {
            assert_eq!(*qs[r].queue(c), plan[r][c]);
        }
    }
    // Shard 0's channel to shard 2 and shard 2's channel to shard 0 are the
    // two ends of one pair.
    assert_eq!(qs[0].queue(2).pair, qs[2].queue(0).pair);
    assert!(qs[0].queue(2).first && !qs[2].queue(0).first);
}
