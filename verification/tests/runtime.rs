use std::sync::mpsc::channel;
use std::time::Duration;

use voxel_core::interval::Interval;
use voxel_core::keybinds::KeyAction;
use voxel_core::settings::Settings;
use voxel_core::thread_work_dispatcher::{ThreadStatus, ThreadWorkDispatcher, ThreadWorkDispatcherError};

#[test]
fn thread_status_reads_back() {
    let s = ThreadStatus::idle();
    assert!(s.is_idle() && !s.is_working());
    s.set_working();
    assert!(s.is_working() && !s.is_idle());
    s.set_idle();
    assert!(s.is_idle());
    assert!(ThreadStatus::working().is_working());
}

#[test]
fn dispatcher_hands_work_to_idle_workers() {
    let (in_tx, in_rx) = channel::<u32>();
    let (out_tx, out_rx) = channel::<u32>();
    let d = ThreadWorkDispatcher::from_channels(vec![in_tx], vec![out_rx]);
    assert_eq!(d.idle_threads(), 1);
    assert!(d.dispatch_work(7).is_ok());
    assert_eq!(d.idle_threads(), 0);
    assert!(matches!(d.dispatch_work(8), Err(ThreadWorkDispatcherError::NoIdleThreadsAvailable)));
    let item = in_rx.recv().unwrap();
    out_tx.send(item * 2).unwrap();
    let outputs = d.collect_outputs();
    assert_eq!(&*outputs, &[14]);
    assert_eq!(d.idle_threads(), 1);
    assert!(d.iter_outputs().next().is_none());
}

#[test]
fn dispatcher_reports_closed_channels() {
    let (in_tx, in_rx) = channel::<u32>();
    let (_out_tx, out_rx) = channel::<u32>();
    drop(in_rx);
    let d = ThreadWorkDispatcher::from_channels(vec![in_tx], vec![out_rx]);
    assert!(matches!(d.dispatch_work(1), Err(ThreadWorkDispatcherError::SendError(_))));
}

#[test]
fn interval_runs_when_due() {
    let mut i = Interval::new(Duration::ZERO);
    let mut ran = false;
    i.tick(|| ran = true);
    assert!(ran);
    let mut never = Interval::new(Duration::from_secs(3600));
    let mut ran2 = false;
    never.tick(|| ran2 = true);
    assert!(!ran2);
}

#[test]
fn default_settings() {
    let s = Settings::default();
    assert_eq!(s.resolution, (1000, 1000));
    assert!(!s.fullscreen && !s.borderless);
    assert_ne!(KeyAction::Jump, KeyAction::Crouch);
}

#[test]
fn run_if_due_runs_only_when_due() {
    let mut i = Interval::new(Duration::from_secs(3600));
    let mut count = 0;
    i.run_if_due(false, || count += 1);
    assert_eq!(count, 0);
    i.run_if_due(true, || count += 1);
    assert_eq!(count, 1);
}
