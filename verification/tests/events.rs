use voxel_core::event::{EventIterator, EventQueue, EventReader};

fn drain(it: &mut EventIterator<'_, u32>) -> Vec<u32> {
    let mut out = vec![];
    while let Some(e) = it.next() {
        out.push(*e);
    }
    out
}

#[test]
fn reader_sees_each_event_once() {
    let mut q: EventQueue<u32> = EventQueue::new();
    let mut r = EventReader::from_queue(&q);
    q.send(1);
    q.send(2);
    assert_eq!(drain(&mut r.read(&q)), vec![1, 2]);
    assert_eq!(drain(&mut r.read(&q)), Vec::<u32>::new());
    q.send(3);
    assert_eq!(drain(&mut r.read(&q)), vec![3]);
    assert_eq!(q.event_count(), 3);
}

#[test]
fn reader_created_late_skips_earlier_events() {
    let mut q: EventQueue<u32> = EventQueue::new();
    q.send(1);
    let mut r = EventReader::from_queue(&q);
    q.send(2);
    assert_eq!(drain(&mut r.read(&q)), vec![2]);
}

#[test]
fn events_survive_one_update() {
    let mut q: EventQueue<u32> = EventQueue::new();
    let mut r = EventReader::from_queue(&q);
    q.send(10);
    q.update();
    q.send(11);
    assert_eq!(drain(&mut r.read(&q)), vec![10, 11]);
}

#[test]
fn events_are_dropped_after_two_updates() {
    let mut q: EventQueue<u32> = EventQueue::new();
    let mut r = EventReader::from_queue(&q);
    q.send(10);
    q.update();
    q.update();
    q.send(12);
    assert_eq!(drain(&mut r.read(&q)), vec![12]);
}

#[test]
fn iterator_counts_what_it_returns() {
    let mut q: EventQueue<u32> = EventQueue::new();
    let mut counter: u32 = 0;
    q.send(5);
    q.send(6);
    q.update();
    q.send(7);
    {
        let mut it = EventIterator::new(&q, &mut counter);
        assert_eq!(it.next(), Some(&5));
    }
    assert_eq!(counter, 1);
    {
        let mut it = EventIterator::new(&q, &mut counter);
        assert_eq!(drain(&mut it), vec![6, 7]);
    }
    assert_eq!(counter, 3);
}

#[test]
fn iterating_advances_the_callers_counter() {
    let mut q = EventQueue::<u32>::new();
    let mut c: u32 = 0;
    q.send(5);
    {
        let mut it = EventIterator::new(&q, &mut c);
        assert_eq!(it.next(), Some(&5));
        assert_eq!(it.next(), None);
    }
    assert_eq!(c, 1);
    {
        let mut it = EventIterator::new(&q, &mut c);
        assert_eq!(it.next(), None);
    }
    assert_eq!(c, 1);
}

#[test]
fn updates_drop_events_two_updates_after_their_send() {
    let mut q = EventQueue::<u32>::new();
    q.send(1);
    q.update();
    q.send(2);
    let mut c: u32 = 0;
    {
        let mut it = EventIterator::new(&q, &mut c);
        assert_eq!(it.next(), Some(&1));
        assert_eq!(it.next(), Some(&2));
        assert_eq!(it.next(), None);
    }
    assert_eq!(c, 2);
    q.update();
    q.update();
    let mut c2: u32 = 0;
    {
        let mut it = EventIterator::new(&q, &mut c2);
        assert_eq!(it.next(), None);
    }
    assert_eq!(c2, 2);
}
