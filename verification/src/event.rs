//! Double-buffered event queues, and readers that see each event once.
use vstd::prelude::*;

verus! {

/// Events of one type, kept for two updates: the events sent before the last update
/// (`queue_old`) and those sent since (`queue_new`). Events are numbered in the order they
/// were sent, starting at `0`.
pub struct EventQueue<E> {
    queue_old: Vec<E>,
    queue_old_state_event_count: u32,
    queue_new: Vec<E>,
    queue_new_state_event_count: u32,
    event_count: u32,
}

impl<E> EventQueue<E> {
    /// The number of the oldest event still kept.
    pub closed spec fn first_number(self) -> int {
        self.queue_old_state_event_count as int
    }

    /// The number of the first event sent since the last update.
    pub closed spec fn new_number(self) -> int {
        self.queue_new_state_event_count as int
    }

    /// The number of events sent so far.
    pub closed spec fn count(self) -> int {
        self.event_count as int
    }

    /// The events kept, oldest first: those before the last update, then those since.
    pub closed spec fn events(self) -> Seq<E> {
        self.queue_old@ + self.queue_new@
    }

    /// The events sent since the last update.
    pub closed spec fn new_events(self) -> Seq<E> {
        self.queue_new@
    }

    /// The kept events are numbered consecutively up to the number of events sent. Every
    /// queue keeps this.
    #[verifier::type_invariant]
    pub open spec fn wf(self) -> bool {
        &&& self.first_number() + self.events().len() == self.count()
        &&& self.first_number() <= self.new_number() <= self.count()
        &&& self.new_number() + self.new_events().len() == self.count()
        &&& self.new_events() == self.events().subrange(
            self.new_number() - self.first_number(),
            self.events().len() as int,
        )
        &&& self.count() <= u32::MAX
    }

    /// An empty queue.
    pub fn new() -> (r: Self)
        ensures
            r.wf(),
            r.events() == Seq::<E>::empty(),
            r.count() == 0,
            r.first_number() == 0,
            r.new_number() == 0,
    {
        let queue_old: Vec<E> = Vec::new();
        let queue_new: Vec<E> = Vec::new();
        assert(queue_new@ =~= (queue_old@ + queue_new@).subrange(0, 0));
        let r = Self {
            queue_old,
            queue_new,
            queue_old_state_event_count: 0,
            queue_new_state_event_count: 0,
            event_count: 0,
        };
        proof {
            assert(r.events() =~= Seq::<E>::empty());
            assert(r.events().subrange(0, 0) =~= r.new_events());
        }
        r
    }

    /// The number of events sent so far.
    pub fn event_count(&self) -> (r: u32)
        ensures
            r == self.count(),
    {
        self.event_count
    }

    /// Appends an event; it gets the next number.
    pub fn send(&mut self, event: E)
        requires
            old(self).count() < u32::MAX,
        ensures
            final(self).wf(),
            final(self).events() == old(self).events().push(event),
            final(self).new_events() == old(self).new_events().push(event),
            final(self).count() == old(self).count() + 1,
            final(self).first_number() == old(self).first_number(),
            final(self).new_number() == old(self).new_number(),
    {
        let mut q = EventQueue::new();
        std::mem::swap(self, &mut q);
        proof {
            use_type_invariant(&q);
        }
        let EventQueue {
            queue_old,
            queue_old_state_event_count,
            mut queue_new,
            queue_new_state_event_count,
            event_count,
        } = q;
        let ghost start = queue_new_state_event_count - queue_old_state_event_count;
        queue_new.push(event);
        assert(queue_old@ + queue_new@ =~= (q.queue_old@ + q.queue_new@).push(event));
        assert(queue_new@ =~= (queue_old@ + queue_new@).subrange(start, (queue_old@ + queue_new@).len() as int));
        let r = EventQueue {
            queue_old,
            queue_old_state_event_count,
            queue_new,
            queue_new_state_event_count,
            event_count: event_count + 1,
        };
        proof {
            assert(r.queue_old@ + r.queue_new@ =~= (q.queue_old@ + q.queue_new@).push(event));
            assert(r.new_events() =~= r.events().subrange(
                r.new_number() - r.first_number(),
                r.events().len() as int,
            ));
        }
        *self = r;
    }

    /// Drops the events sent before the previous update; those sent since become the old ones.
    pub fn update(&mut self)
        ensures
            final(self).wf(),
            final(self).events() == old(self).new_events(),
            final(self).new_events() == Seq::<E>::empty(),
            final(self).first_number() == old(self).new_number(),
            final(self).new_number() == old(self).count(),
            final(self).count() == old(self).count(),
    {
        let mut q = EventQueue::new();
        std::mem::swap(self, &mut q);
        proof {
            use_type_invariant(&q);
        }
        let EventQueue { queue_old, queue_old_state_event_count, queue_new, queue_new_state_event_count, event_count } = q;
        let kept = queue_new.len() as u32;
        let empty: Vec<E> = Vec::new();
        assert(queue_new@ + empty@ =~= queue_new@);
        assert(empty@ =~= (queue_new@ + empty@).subrange(queue_new@.len() as int, queue_new@.len() as int));
        let r = EventQueue {
            queue_old: queue_new,
            queue_old_state_event_count: queue_new_state_event_count,
            queue_new: empty,
            queue_new_state_event_count: queue_new_state_event_count + kept,
            event_count,
        };
        proof {
            assert(r.queue_old@ + r.queue_new@ =~= r.queue_old@);
            assert(r.queue_old@.subrange(
                r.queue_old@.len() as int,
                r.queue_old@.len() as int,
            ) =~= Seq::<E>::empty());
        }
        *self = r;
    }
}

/// The events at and after number `counter` (or after the oldest kept event, whichever comes
/// later) that a queue still keeps.
pub open spec fn unread_events<E>(queue: EventQueue<E>, counter: int) -> Seq<E> {
    let start = if counter > queue.first_number() {
        counter
    } else {
        queue.first_number()
    };
    let skip = if start - queue.first_number() < queue.events().len() {
        start - queue.first_number()
    } else {
        queue.events().len() as int
    };
    queue.events().skip(skip)
}

/// The events of a queue that a reader has not seen, in order; reading one advances the
/// reader's counter.
pub struct EventIterator<'a, E> {
    queue_old: &'a [E],
    queue_new: &'a [E],
    old_index: usize,
    new_index: usize,
    last_event_counter: &'a mut u32,
}

impl<'a, E> EventIterator<'a, E> {
    /// The events still to be returned.
    pub closed spec fn remaining(self) -> Seq<E> {
        self.queue_old@.skip(self.old_index as int) + self.queue_new@.skip(self.new_index as int)
    }

    /// The reader's counter as it stands.
    pub closed spec fn counter(self) -> int {
        *self.last_event_counter as int
    }

    /// The reader's counter that this iterator advances; the reader sees its final value once
    /// the iterator is gone.
    pub closed spec fn counter_ref(self) -> &'a mut u32 {
        self.last_event_counter
    }

    /// Every remaining event can still be counted in a `u32`.
    pub closed spec fn wf(self) -> bool {
        &&& self.old_index <= self.queue_old@.len()
        &&& self.new_index <= self.queue_new@.len()
        &&& self.counter() + self.remaining().len() <= u32::MAX
    }

    /// The unread events of `event_queue` for a reader whose counter is `last_event_counter`.
    /// The counter is first raised to the number of the oldest event kept.
    pub fn new(event_queue: &'a EventQueue<E>, last_event_counter: &'a mut u32) -> (r: Self)
        ensures
            r.wf(),
            r.remaining() == unread_events(*event_queue, *old(last_event_counter) as int),
            r.counter() == (if *old(last_event_counter) > event_queue.first_number() {
                *old(last_event_counter) as int
            } else {
                event_queue.first_number()
            }),
            *final(r.counter_ref()) == *final(last_event_counter),
    {
        proof {
            use_type_invariant(event_queue);
        }
        if *last_event_counter < event_queue.queue_old_state_event_count {
            *last_event_counter = event_queue.queue_old_state_event_count;
        }
        let counter = *last_event_counter;
        let old_skip = counter - event_queue.queue_old_state_event_count;
        let queue_old_sliced_index = if (old_skip as usize) < event_queue.queue_old.len() {
            old_skip as usize
        } else {
            event_queue.queue_old.len()
        };
        let new_skip = counter.saturating_sub(event_queue.queue_new_state_event_count);
        let queue_new_sliced_index = if (new_skip as usize) < event_queue.queue_new.len() {
            new_skip as usize
        } else {
            event_queue.queue_new.len()
        };
        let r = Self {
            queue_old: event_queue.queue_old.as_slice(),
            queue_new: event_queue.queue_new.as_slice(),
            old_index: queue_old_sliced_index,
            new_index: queue_new_sliced_index,
            last_event_counter,
        };
        proof {
            let q = *event_queue;
            let all = q.events();
            let skip = unread_events(q, *old(last_event_counter) as int);
            assert(r.remaining() =~= skip);
        }
        r
    }

    /// The next unread event, counting it as read.
    pub fn next(&mut self) -> (r: Option<&'a E>)
        requires
            old(self).wf(),
        ensures
            final(self).wf(),
            old(self).remaining().len() == 0 ==> r is None,
            old(self).remaining().len() == 0 ==> final(self).remaining() == old(self).remaining(),
            old(self).remaining().len() == 0 ==> final(self).counter() == old(self).counter(),
            old(self).remaining().len() > 0 ==> r == Some(&old(self).remaining()[0]),
            old(self).remaining().len() > 0 ==> final(self).remaining() == old(self).remaining().drop_first(),
            old(self).remaining().len() > 0 ==> final(self).counter() == old(self).counter() + 1,
            *final(final(self).counter_ref()) == *final(old(self).counter_ref()),
    {
        if self.old_index < self.queue_old.len() {
            let item = &self.queue_old[self.old_index];
            self.old_index = self.old_index + 1;
            *self.last_event_counter = *self.last_event_counter + 1;
            proof {
                assert(self.remaining() =~= old(self).remaining().drop_first());
            }
            Some(item)
        } else if self.new_index < self.queue_new.len() {
            let item = &self.queue_new[self.new_index];
            self.new_index = self.new_index + 1;
            *self.last_event_counter = *self.last_event_counter + 1;
            proof {
                assert(self.remaining() =~= old(self).remaining().drop_first());
            }
            Some(item)
        } else {
            None
        }
    }
}

/// The iterator's count is the current value of the reader's counter that it advances; once
/// the iterator is gone, that counter keeps its last value.
pub proof fn lemma_counter_ref<'a, E>(it: EventIterator<'a, E>)
    ensures
        it.counter() == *it.counter_ref() as int,
        has_resolved(it) ==> *it.counter_ref() == *final(it.counter_ref()),
{
}

/// A reader of one queue that remembers how many events it has seen.
pub struct EventReader {
    last_event_counter: u32,
}

impl EventReader {
    /// The counter: the number of the next event this reader has not seen.
    pub closed spec fn counter(self) -> int {
        self.last_event_counter as int
    }

    /// A reader that has seen every event sent to `queue` so far.
    pub fn from_queue<E>(queue: &EventQueue<E>) -> (r: Self)
        ensures
            r.counter() == queue.count(),
    {
        Self { last_event_counter: queue.event_count }
    }

    /// The events of `queue` that this reader has not seen yet.
    pub fn read<'a, E>(&'a mut self, queue: &'a EventQueue<E>) -> (r: EventIterator<'a, E>)
        ensures
            r.wf(),
            r.remaining() == unread_events(*queue, old(self).counter()),
            r.counter() == (if old(self).counter() > queue.first_number() {
                old(self).counter()
            } else {
                queue.first_number() as int
            }),
            final(self).counter() == *final(r.counter_ref()),
    {
        EventIterator::new(queue, &mut self.last_event_counter)
    }
}

/// A reader that has caught up with a queue has nothing to read.
pub proof fn lemma_caught_up_reads_nothing<E>(queue: EventQueue<E>)
    requires
        queue.wf(),
    ensures
        unread_events(queue, queue.count()) == Seq::<E>::empty(),
{
    assert(unread_events(queue, queue.count()) =~= Seq::<E>::empty());
}

/// Reading every unread event of a queue leaves a reader that has not run ahead of the queue
/// counting exactly the events sent so far.
pub proof fn lemma_read_all_counts_every_event<E>(queue: EventQueue<E>, counter: int)
    requires
        queue.wf(),
        counter <= queue.count(),
    ensures
        (if counter > queue.first_number() {
            counter
        } else {
            queue.first_number()
        }) + unread_events(queue, counter).len() == queue.count(),
{
}

/// An event sent to a queue is read, after the events that were already unread, by every
/// reader that has not run ahead of the queue.
pub proof fn lemma_sent_event_is_unread<E>(
    before: EventQueue<E>,
    after: EventQueue<E>,
    event: E,
    counter: int,
)
    requires
        before.wf(),
        after.wf(),
        after.events() == before.events().push(event),
        after.first_number() == before.first_number(),
        after.count() == before.count() + 1,
        counter <= before.count(),
    ensures
        unread_events(after, counter) == unread_events(before, counter).push(event),
{
    let start = if counter > before.first_number() {
        counter
    } else {
        before.first_number()
    };
    let skip = start - before.first_number();
    assert(after.events().skip(skip) =~= before.events().skip(skip).push(event));
}

/// An update does not change what a reader reads once it has seen every event sent before
/// the previous update.
pub proof fn lemma_update_keeps_unread<E>(
    before: EventQueue<E>,
    after: EventQueue<E>,
    counter: int,
)
    requires
        before.wf(),
        after.wf(),
        after.events() == before.new_events(),
        after.first_number() == before.new_number(),
        after.count() == before.count(),
        before.new_number() <= counter,
    ensures
        unread_events(after, counter) == unread_events(before, counter),
{
    let k = before.new_number() - before.first_number();
    if counter <= before.count() {
        assert(unread_events(after, counter) =~= unread_events(before, counter));
    } else {
        assert(unread_events(after, counter) =~= Seq::<E>::empty());
        assert(unread_events(before, counter) =~= Seq::<E>::empty());
    }
}

} // verus!
