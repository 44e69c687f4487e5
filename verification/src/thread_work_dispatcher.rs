//! Hands work items to idle worker threads over channels and collects their outputs.
use vstd::prelude::*;

use std::sync::atomic::AtomicU8;
use std::sync::mpsc::{Receiver, SendError, Sender, TryRecvError};

use crate::utils::vec_into_boxed_slice;

verus! {

#[verifier::external_type_specification]
#[verifier::external_body]
#[verifier::reject_recursive_types(T)]
pub struct ExSender<T>(Sender<T>);

#[verifier::external_type_specification]
#[verifier::external_body]
#[verifier::reject_recursive_types(T)]
pub struct ExReceiver<T>(Receiver<T>);

#[verifier::external_type_specification]
#[verifier::external_body]
#[verifier::reject_recursive_types(T)]
pub struct ExSendError<T>(SendError<T>);

#[verifier::external_type_specification]
#[verifier::external_body]
pub struct ExTryRecvError(TryRecvError);

/// `Sender::send` succeeds or fails depending on whether the receiving end is still alive,
/// which nothing here can observe; nothing is claimed of its result.
pub assume_specification<T>[ Sender::<T>::send ](sender: &Sender<T>, t: T) -> Result<
    (),
    SendError<T>,
>;

/// `Receiver::try_recv` returns whatever another thread has sent, if anything; nothing is
/// claimed of its result.
pub assume_specification<T>[ Receiver::<T>::try_recv ](receiver: &Receiver<T>) -> Result<
    T,
    TryRecvError,
>;

/// Whether a worker thread is busy: `1` while working, `0` while idle. The value is shared
/// with the worker, so a read can only be trusted at the moment it is made.
pub struct ThreadStatus(AtomicU8);

/// The status value of an idle thread.
pub const THREAD_IDLE: u8 = 0;

/// The status value of a working thread.
pub const THREAD_WORKING: u8 = 1;

impl ThreadStatus {
    /// Whether the status read now is "working".
    pub fn is_working(&self) -> bool {
        self.0.load(std::sync::atomic::Ordering::Relaxed) == THREAD_WORKING
    }

    /// Whether the status read now is "idle".
    pub fn is_idle(&self) -> bool {
        self.0.load(std::sync::atomic::Ordering::Relaxed) == THREAD_IDLE
    }

    /// Marks the thread as working.
    pub fn set_working(&self) {
        self.0.store(THREAD_WORKING, std::sync::atomic::Ordering::Relaxed);
    }

    /// Marks the thread as idle.
    pub fn set_idle(&self) {
        self.0.store(THREAD_IDLE, std::sync::atomic::Ordering::Relaxed);
    }

    /// A status that starts idle.
    pub fn idle() -> Self {
        Self(AtomicU8::new(THREAD_IDLE))
    }

    /// A status that starts working.
    pub fn working() -> Self {
        Self(AtomicU8::new(THREAD_WORKING))
    }
}

/// Why a work item could not be handed out.
#[verifier::reject_recursive_types(T)]
pub enum ThreadWorkDispatcherError<T> {
    /// The chosen worker's channel is closed; the item comes back inside the error.
    SendError(SendError<T>),
    /// Every worker was busy when asked.
    NoIdleThreadsAvailable,
}

/// One input channel, one output channel and one status per worker thread.
#[verifier::reject_recursive_types(I)]
#[verifier::reject_recursive_types(O)]
pub struct ThreadWorkDispatcher<I, O> {
    senders: Vec<Sender<I>>,
    receivers: Vec<Receiver<O>>,
    threads_status: Vec<ThreadStatus>,
}

impl<I, O> ThreadWorkDispatcher<I, O> {
    #[verifier::type_invariant]
    closed spec fn inv(self) -> bool {
        &&& self.senders@.len() == self.receivers@.len()
        &&& self.receivers@.len() == self.threads_status@.len()
    }

    /// The number of worker threads.
    pub closed spec fn num_threads(self) -> nat {
        self.threads_status@.len()
    }

    /// A dispatcher over the channels of already started workers, all of them idle; worker
    /// `i` reads from `senders[i]`'s channel and writes to `receivers[i]`'s.
    pub fn from_channels(senders: Vec<Sender<I>>, receivers: Vec<Receiver<O>>) -> (r: Self)
        requires
            senders@.len() == receivers@.len(),
        ensures
            r.num_threads() == senders@.len(),
    {
        let mut threads_status: Vec<ThreadStatus> = Vec::new();
        let n = senders.len();
        let mut i: usize = 0;
        while i < n
            invariant
                i <= n,
                threads_status@.len() == i,
            decreases n - i,
        {
            threads_status.push(ThreadStatus::idle());
            i += 1;
        }
        Self { senders, receivers, threads_status }
    }

    /// Reads the status of every worker, in worker order: `true` for a worker that reads as
    /// idle. What each read gives depends on the workers' history, so only the length is known.
    fn idle_statuses(&self) -> (r: Vec<bool>)
        ensures
            r@.len() == self.num_threads(),
    {
        let mut idle: Vec<bool> = Vec::new();
        let mut i: usize = 0;
        while i < self.threads_status.len()
            invariant
                i <= self.threads_status@.len(),
                idle@.len() == i,
            decreases self.threads_status@.len() - i,
        {
            idle.push(self.threads_status[i].is_idle());
            i += 1;
        }
        idle
    }

    /// The number of workers that read as idle.
    pub fn idle_threads(&self) -> (r: usize)
        ensures
            r <= self.num_threads(),
    {
        let idle = self.idle_statuses();
        proof {
            lemma_filter_len(idle@);
        }
        count_idle(&idle)
    }

    /// Polls the output channel of every worker once, in worker order.
    fn poll_outputs(&self) -> (r: Vec<Result<O, TryRecvError>>)
        ensures
            r@.len() == self.num_threads(),
    {
        proof {
            use_type_invariant(self);
        }
        let mut polled: Vec<Result<O, TryRecvError>> = Vec::new();
        let mut i: usize = 0;
        while i < self.receivers.len()
            invariant
                i <= self.receivers@.len(),
                self.receivers@.len() == self.threads_status@.len(),
                polled@.len() == i,
            decreases self.receivers@.len() - i,
        {
            polled.push(self.receivers[i].try_recv());
            i += 1;
        }
        polled
    }

    /// Marks as idle every worker whose poll delivered an output.
    fn mark_delivered_idle(&self, polled: &Vec<Result<O, TryRecvError>>)
        requires
            polled@.len() == self.num_threads(),
    {
        let mut i: usize = 0;
        while i < polled.len()
            invariant
                i <= polled@.len(),
                polled@.len() == self.threads_status@.len(),
            decreases polled@.len() - i,
        {
            if polled[i].is_ok() {
                self.threads_status[i].set_idle();
            }
            i += 1;
        }
    }

    /// Takes at most one ready output from each worker, in worker order, and marks every
    /// worker that delivered one as idle.
    pub fn collect_outputs(&self) -> (r: Box<[O]>)
        ensures
            r@.len() <= self.num_threads(),
    {
        let polled = self.poll_outputs();
        self.mark_delivered_idle(&polled);
        proof {
            lemma_ok_payloads_len(polled@);
        }
        vec_into_boxed_slice(ready_outputs(polled))
    }

    /// Hands `input` to the first worker that reads as idle, marking it as working.
    pub fn dispatch_work(&self, input: I) -> (r: Result<(), ThreadWorkDispatcherError<I>>)
        ensures
            self.num_threads() == 0 ==> r matches Err(ThreadWorkDispatcherError::NoIdleThreadsAvailable),
    {
        let idle = self.idle_statuses();
        self.dispatch_work_to(&idle, input)
    }

    /// Hands `input` to the first worker that `idle` marks as idle, marking it as working;
    /// `idle` holds the statuses as read, one per worker. Refuses with
    /// `NoIdleThreadsAvailable` exactly when no worker is marked idle; otherwise the result
    /// is that of the send.
    pub fn dispatch_work_to(&self, idle: &Vec<bool>, input: I) -> (r: Result<(), ThreadWorkDispatcherError<I>>)
        requires
            idle@.len() == self.num_threads(),
        ensures
            (r matches Err(ThreadWorkDispatcherError::NoIdleThreadsAvailable)) <==> (forall|j: int|
                0 <= j < idle@.len() ==> !idle@[j]),
    {
        proof {
            use_type_invariant(self);
        }
        match first_idle(idle) {
            Some(i) => {
                self.threads_status[i].set_working();
                match self.senders[i].send(input) {
                    Ok(()) => Ok(()),
                    Err(err) => Err(ThreadWorkDispatcherError::SendError(err)),
                }
            },
            None => Err(ThreadWorkDispatcherError::NoIdleThreadsAvailable),
        }
    }

    /// The ready outputs, polled lazily: each call of `next` on the result polls the workers
    /// from where the previous call stopped, in worker order, and returns the first output it
    /// finds, marking that worker idle. A worker is polled at most once.
    pub fn iter_outputs(&self) -> (r: OutputIter<'_, I, O>)
        ensures
            r.position() == 0,
            r.polls() == Seq::<bool>::empty(),
            r.num_threads() == self.num_threads(),
    {
        OutputIter { dispatcher: self, index: 0, polls: Ghost(Seq::empty()) }
    }
}

/// The outputs of a dispatcher's workers, polled one worker at a time.
#[verifier::reject_recursive_types(I)]
#[verifier::reject_recursive_types(O)]
pub struct OutputIter<'a, I, O> {
    dispatcher: &'a ThreadWorkDispatcher<I, O>,
    index: usize,
    polls: Ghost<Seq<bool>>,
}

impl<'a, I, O> OutputIter<'a, I, O> {
    #[verifier::type_invariant]
    closed spec fn inv(self) -> bool {
        &&& self.index <= self.dispatcher.num_threads()
        &&& self.polls@.len() == self.index
    }

    /// The first worker not yet polled.
    pub closed spec fn position(self) -> int {
        self.index as int
    }

    /// For each worker polled so far, in worker order, whether its poll delivered an output.
    pub closed spec fn polls(self) -> Seq<bool> {
        self.polls@
    }

    /// The number of workers of the dispatcher.
    pub closed spec fn num_threads(self) -> nat {
        self.dispatcher.num_threads()
    }

    /// Polls the workers from the first one not yet polled until one delivers an output,
    /// marks that worker idle and returns the output; `None` once every worker has been
    /// polled. Every worker polled on the way that had nothing is passed over, and polling
    /// stops right after the worker that delivered.
    pub fn next(&mut self) -> (r: Option<O>)
        ensures
            final(self).num_threads() == old(self).num_threads(),
            old(self).position() <= final(self).position() <= final(self).num_threads(),
            final(self).polls().len() == final(self).position(),
            final(self).polls().take(old(self).position()) == old(self).polls(),
            r is None ==> final(self).position() == final(self).num_threads()
                && forall|j: int| old(self).position() <= j < final(self).position() ==> !(#[trigger] final(self).polls()[j]),
            r is Some ==> old(self).position() < final(self).position()
                && final(self).polls()[final(self).position() - 1]
                && forall|j: int| old(self).position() <= j < final(self).position() - 1 ==> !(#[trigger] final(self).polls()[j]),
    {
        proof {
            use_type_invariant(&*self);
            use_type_invariant(self.dispatcher);
        }
        let dispatcher = self.dispatcher;
        let start = self.index;
        let mut i = start;
        let ghost mut seen = self.polls@;
        assert(seen.take(start as int) =~= seen);
        while i < dispatcher.receivers.len()
            invariant
                start <= i <= dispatcher.receivers@.len(),
                dispatcher.receivers@.len() == dispatcher.threads_status@.len(),
                self.dispatcher == dispatcher,
                *old(self) == *self,
                start == self.index,
                self.polls@.len() == start,
                seen.len() == i,
                seen.take(start as int) == self.polls@,
                forall|j: int| start <= j < i ==> !(#[trigger] seen[j]),
            decreases dispatcher.receivers@.len() - i,
        {
            match dispatcher.receivers[i].try_recv() {
                Ok(output) => {
                    dispatcher.threads_status[i].set_idle();
                    let ghost polls = seen.push(true);
                    proof {
                        assert(polls.take(start as int) =~= seen.take(start as int));
                    }
                    *self = OutputIter { dispatcher, index: i + 1, polls: Ghost(polls) };
                    return Some(output);
                },
                Err(_) => {},
            }
            proof {
                assert(seen.push(false).take(start as int) =~= seen.take(start as int));
                seen = seen.push(false);
            }
            i += 1;
        }
        *self = OutputIter { dispatcher, index: i, polls: Ghost(seen) };
        None
    }
}

/// The position of the first worker marked idle, if any.
pub fn first_idle(idle: &Vec<bool>) -> (r: Option<usize>)
    ensures
        r matches Some(i) ==> i < idle@.len() && idle@[i as int] && forall|j: int| 0 <= j < i ==> !idle@[j],
        r is None ==> forall|j: int| 0 <= j < idle@.len() ==> !idle@[j],
{
    let mut i: usize = 0;
    while i < idle.len()
        invariant
            i <= idle@.len(),
            forall|j: int| 0 <= j < i ==> !idle@[j],
        decreases idle@.len() - i,
    {
        if idle[i] {
            return Some(i);
        }
        i += 1;
    }
    None
}

/// The number of workers marked idle.
pub fn count_idle(idle: &Vec<bool>) -> (r: usize)
    ensures
        r == idle@.filter(|b: bool| b).len(),
{
    let mut count: usize = 0;
    let mut i: usize = 0;
    while i < idle.len()
        invariant
            i <= idle@.len(),
            count == idle@.take(i as int).filter(|b: bool| b).len(),
            count <= i,
        decreases idle@.len() - i,
    {
        proof {
            assert(idle@.take(i + 1).drop_last() =~= idle@.take(i as int));
            idle@.take(i as int).lemma_filter_push(idle@[i as int], |b: bool| b);
            assert(idle@.take(i as int).push(idle@[i as int]) =~= idle@.take(i + 1));
            lemma_filter_len(idle@.take(i + 1));
        }
        if idle[i] {
            count += 1;
        }
        i += 1;
    }
    proof {
        assert(idle@.take(idle@.len() as int) =~= idle@);
    }
    count
}

proof fn lemma_filter_len(s: Seq<bool>)
    ensures
        s.filter(|b: bool| b).len() <= s.len(),
    decreases s.len(),
{
    if s.len() > 0 {
        lemma_filter_len(s.drop_last());
        s.drop_last().lemma_filter_push(s.last(), |b: bool| b);
        assert(s.drop_last().push(s.last()) =~= s);
    }
}

/// The payloads of the polls that delivered one, in poll order.
pub open spec fn ok_payloads<O, E>(polled: Seq<Result<O, E>>) -> Seq<O>
    decreases polled.len(),
{
    if polled.len() == 0 {
        Seq::empty()
    } else {
        let rest = ok_payloads(polled.drop_last());
        match polled.last() {
            Ok(o) => rest.push(o),
            Err(_) => rest,
        }
    }
}

proof fn lemma_ok_payloads_len<O, E>(polled: Seq<Result<O, E>>)
    ensures
        ok_payloads(polled).len() <= polled.len(),
    decreases polled.len(),
{
    if polled.len() > 0 {
        lemma_ok_payloads_len(polled.drop_last());
    }
}

/// The payloads of the polls that delivered one, in poll order.
pub fn ready_outputs<O, E>(polled: Vec<Result<O, E>>) -> (r: Vec<O>)
    ensures
        r@ == ok_payloads(polled@),
{
    let ghost all = polled@;
    let len = polled.len();
    let mut rest = polled;
    let mut out: Vec<O> = Vec::new();
    let mut k: usize = 0;
    while rest.len() > 0
        invariant
            k <= all.len(),
            all.len() == len,
            k + rest@.len() == all.len(),
            rest@ == all.skip(k as int),
            out@ == ok_payloads(all.take(k as int)),
        decreases rest@.len(),
    {
        let item = rest.remove(0);
        proof {
            assert(all.take(k + 1).drop_last() =~= all.take(k as int));
            assert(item == all[k as int]);
            assert(rest@ =~= all.skip(k + 1));
        }
        match item {
            Ok(o) => {
                out.push(o);
            },
            Err(_) => {},
        }
        k += 1;
    }
    proof {
        assert(all.take(k as int) =~= all);
    }
    out
}

} // verus!
