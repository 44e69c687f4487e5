use std::sync::mpsc::channel;

use voxel_core::thread_work_dispatcher::{count_idle, first_idle, ready_outputs, ThreadWorkDispatcher, ThreadWorkDispatcherError};

#[test]
fn first_idle_picks_the_lowest_marked_worker() {
    assert_eq!(first_idle(&vec![false, true, true]), Some(1));
    assert_eq!(first_idle(&vec![true]), Some(0));
    assert_eq!(first_idle(&vec![false, false]), None);
    assert_eq!(first_idle(&vec![]), None);
}

#[test]
fn count_idle_counts_marked_workers() {
    assert_eq!(count_idle(&vec![true, false, true, true]), 3);
    assert_eq!(count_idle(&vec![false]), 0);
    assert_eq!(count_idle(&vec![]), 0);
}

#[test]
fn ready_outputs_keeps_delivered_payloads_in_order() {
    let polled: Vec<Result<u32, ()>> = vec![Ok(3), Err(()), Ok(1), Ok(2), Err(())];
    assert_eq!(ready_outputs(polled), vec![3, 1, 2]);
    let none: Vec<Result<u32, ()>> = vec![Err(()), Err(())];
    assert!(ready_outputs(none).is_empty());
}

#[test]
fn dispatch_work_to_uses_the_given_statuses() {
    let (tx0, rx0) = channel::<u32>();
    let (tx1, rx1) = channel::<u32>();
    let (_otx0, orx0) = channel::<u32>();
    let (_otx1, orx1) = channel::<u32>();
    let d = ThreadWorkDispatcher::from_channels(vec![tx0, tx1], vec![orx0, orx1]);
    assert!(matches!(
        d.dispatch_work_to(&vec![false, false], 5),
        Err(ThreadWorkDispatcherError::NoIdleThreadsAvailable)
    ));
    assert!(d.dispatch_work_to(&vec![false, true], 6).is_ok());
    assert_eq!(rx1.try_recv(), Ok(6));
    assert!(rx0.try_recv().is_err());
    // Worker 1 now reads as working, worker 0 as idle.
    assert!(d.dispatch_work(7).is_ok());
    assert_eq!(rx0.try_recv(), Ok(7));
    assert_eq!(d.idle_threads(), 0);
}

#[test]
fn collect_outputs_takes_one_ready_output_per_worker_in_order() {
    let (tx0, _rx0) = channel::<u32>();
    let (tx1, _rx1) = channel::<u32>();
    let (tx2, _rx2) = channel::<u32>();
    let (otx0, orx0) = channel::<u32>();
    let (_otx1, orx1) = channel::<u32>();
    let (otx2, orx2) = channel::<u32>();
    let d = ThreadWorkDispatcher::from_channels(vec![tx0, tx1, tx2], vec![orx0, orx1, orx2]);
    otx2.send(20).unwrap();
    otx0.send(10).unwrap();
    otx0.send(11).unwrap();
    assert_eq!(&*d.collect_outputs(), &[10, 20]);
    let mut it = d.iter_outputs();
    assert_eq!(it.next(), Some(11));
    assert_eq!(it.next(), None);
    assert_eq!(d.iter_outputs().next(), None);
}

#[test]
fn iter_outputs_polls_lazily() {
    let (tx0, _rx0) = channel::<u32>();
    let (tx1, _rx1) = channel::<u32>();
    let (otx0, orx0) = channel::<u32>();
    let (otx1, orx1) = channel::<u32>();
    let d = ThreadWorkDispatcher::from_channels(vec![tx0, tx1], vec![orx0, orx1]);
    assert!(d.dispatch_work(1).is_ok());
    assert!(d.dispatch_work(2).is_ok());
    otx0.send(10).unwrap();
    otx1.send(20).unwrap();
    {
        let mut it = d.iter_outputs();
        assert_eq!(it.next(), Some(10));
        // Dropped here: worker 1 is not polled and stays working.
    }
    assert_eq!(d.idle_threads(), 1);
    let mut it = d.iter_outputs();
    assert_eq!(it.next(), Some(20));
    assert_eq!(it.next(), None);
    assert_eq!(d.idle_threads(), 2);
}
