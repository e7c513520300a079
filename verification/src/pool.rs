//! The pool: a fixed set of workers and the right to submit jobs to their
//! channel, from construction to shutdown.
use crate::channel::{ChannelView, JobChannel};
use crate::error::PoolError;
use crate::worker::Worker;
use vstd::prelude::*;

verus! {

/// The handles that are present in `threads`, in the order of `threads`.
pub open spec fn present<H>(threads: Seq<Option<H>>) -> Seq<H>
    decreases threads.len(),
{
    if threads.len() == 0 {
        Seq::empty()
    } else {
        match threads.last() {
            Some(handle) => present(threads.drop_last()).push(handle),
            None => present(threads.drop_last()),
        }
    }
}

/// What submitting a job gives, for a pool that takes jobs or not, while the
/// channel is `channel`.
pub open spec fn submit_result<T>(accepting: bool, channel: ChannelView<T>) -> Result<
    (),
    PoolError,
> {
    if !accepting {
        Err(PoolError::QueueClosed)
    } else if !channel.takes_jobs() {
        Err(PoolError::SendFailure)
    } else {
        Ok(())
    }
}

/// The channel after `job` was submitted: a pool that takes jobs sends it, a
/// pool that is shutting down leaves the channel alone.
pub open spec fn channel_after_submit<T>(
    accepting: bool,
    channel: ChannelView<T>,
    job: T,
) -> ChannelView<T> {
    if accepting {
        channel.send(job)
    } else {
        channel
    }
}

/// Whether `spawn` can start worker `id`.
pub open spec fn can_start<H, E, F: Fn(usize) -> Result<H, E>>(spawn: F, id: usize) -> bool {
    exists|handle: H| call_ensures(spawn, (id,), Ok::<H, E>(handle))
}

/// Whether `spawn` starts every worker of a pool of `size`, whenever it is
/// asked.
pub open spec fn never_fails<H, E, F: Fn(usize) -> Result<H, E>>(spawn: F, size: usize) -> bool {
    forall|id: usize, cause: E| id < size ==> !call_ensures(spawn, (id,), Err::<H, E>(cause))
}

/// Takes the handle out of every record in `workers`, first to last.
fn take_threads<H>(workers: &mut Vec<Worker<H>>) -> (handles: Vec<H>)
    ensures
        final(workers)@.len() == old(workers)@.len(),
        forall|i: int|
            0 <= i < old(workers)@.len() ==> {
                &&& (#[trigger] final(workers)@[i]).id() == old(workers)@[i].id()
                &&& final(workers)@[i].thread() is None
            },
        handles@ == present(Seq::new(old(workers)@.len(), |i: int| old(workers)@[i].thread())),
{
    let ghost held = Seq::new(old(workers)@.len(), |i: int| old(workers)@[i].thread());
    let mut handles: Vec<H> = Vec::new();
    let count = workers.len();
    let mut index: usize = 0;
    while index < count
        invariant
            index <= count,
            count == workers@.len(),
            count == old(workers)@.len(),
            held == Seq::new(old(workers)@.len(), |i: int| old(workers)@[i].thread()),
            forall|i: int|
                0 <= i < count ==> (#[trigger] workers@[i]).id() == old(workers)@[i].id(),
            forall|i: int| 0 <= i < index ==> (#[trigger] workers@[i]).thread() is None,
            forall|i: int| index <= i < count ==> workers@[i] == old(workers)@[i],
            handles@ == present(held.take(index as int)),
        decreases count - index,
    {
        let taken = workers[index].take_thread();
        assert(held.take(index + 1).drop_last() =~= held.take(index as int));
        match taken {
            Some(handle) => {
                handles.push(handle);
            },
            None => {},
        }
        index = index + 1;
    }
    assert(held.take(count as int) =~= held);
    handles
}

/// Where every handle is present, all of them come out, in their order.
pub proof fn lemma_present_all<H>(threads: Seq<Option<H>>)
    requires
        forall|i: int| 0 <= i < threads.len() ==> threads[i] is Some,
    ensures
        present(threads).len() == threads.len(),
        forall|i: int|
            0 <= i < threads.len() ==> threads[i] == Some(#[trigger] present(threads)[i]),
    decreases threads.len(),
{
    if threads.len() > 0 {
        lemma_present_all(threads.drop_last());
    }
}

/// Where no handle is present, none comes out.
pub proof fn lemma_present_none<H>(threads: Seq<Option<H>>)
    requires
        forall|i: int| 0 <= i < threads.len() ==> threads[i] is None,
    ensures
        present(threads).len() == 0,
    decreases threads.len(),
{
    if threads.len() > 0 {
        lemma_present_none(threads.drop_last());
    }
}

/// The mathematical content of a pool.
#[verifier::ext_equal]
pub struct PoolView<H> {
    /// The workers' ids, in the order in which the workers were started.
    pub ids: Seq<usize>,
    /// For each worker, the handle of its thread while the pool holds it.
    pub threads: Seq<Option<H>>,
    /// Whether the pool still takes jobs.
    pub accepting: bool,
}

impl<H> PoolView<H> {
    /// What holds of a pool from its construction on: it has at least one
    /// worker, worker `i` has id `i`, and it holds every worker's thread
    /// while it takes jobs and none once it has shut down.
    pub open spec fn wf(self) -> bool {
        &&& self.ids.len() >= 1
        &&& self.threads.len() == self.ids.len()
        &&& forall|i: int| 0 <= i < self.ids.len() ==> self.ids[i] == i
        &&& forall|i: int|
            0 <= i < self.threads.len() ==> (self.accepting <==> self.threads[i] is Some)
    }

    /// The number of workers.
    pub open spec fn size(self) -> nat {
        self.ids.len()
    }

    /// The pool after shutdown: the same workers, no thread held, no job
    /// taken.
    pub open spec fn shut_down(self) -> Self {
        PoolView {
            ids: self.ids,
            threads: Seq::new(self.threads.len(), |i: int| None),
            accepting: false,
        }
    }
}

/// Shutdown keeps what holds of every pool, and the pool's size with it.
pub proof fn lemma_shut_down_keeps_wf<H>(pool: PoolView<H>)
    requires
        pool.wf(),
    ensures
        pool.shut_down().wf(),
        pool.shut_down().size() == pool.size(),
        pool.shut_down().shut_down() == pool.shut_down(),
{
    assert(pool.shut_down().shut_down().threads =~= pool.shut_down().threads);
}

/// A pool of workers. `H` is the handle by which a worker's thread is
/// joined; the pool keeps one per worker until shutdown.
#[derive(Debug)]
pub struct ThreadPool<H> {
    workers: Vec<Worker<H>>,
    accepting: bool,
}

impl<H> View for ThreadPool<H> {
    type V = PoolView<H>;

    closed spec fn view(&self) -> PoolView<H> {
        PoolView {
            ids: Seq::new(self.workers@.len(), |i: int| self.workers@[i].id()),
            threads: Seq::new(self.workers@.len(), |i: int| self.workers@[i].thread()),
            accepting: self.accepting,
        }
    }
}

impl<H> ThreadPool<H> {
    /// Builds a pool of `size` workers. Worker `id` is started by
    /// `spawn(id)`, for the ids `0`, `1`, ... in this order; the first
    /// thread that does not start ends the construction with
    /// [`PoolError::WorkerSpawnFailure`].
    ///
    /// On that error the handles of the workers started so far are dropped,
    /// not joined: their threads are left to themselves. The caller closes
    /// the channel it gave them, so that they end.
    pub fn new<E, F>(size: usize, spawn: F) -> (result: Result<ThreadPool<H>, PoolError>) where
        F: Fn(usize) -> Result<H, E>,

        requires
            forall|id: usize| id < size ==> call_requires(spawn, (id,)),
        ensures
            size == 0 ==> (result matches Err(error) && error == PoolError::InvalidSize),
            size > 0 && never_fails::<H, E, F>(spawn, size) ==> result is Ok,
            match result {
                Ok(pool) => {
                    &&& size > 0
                    &&& pool@.wf()
                    &&& pool@.accepting
                    &&& pool@.size() == size
                    &&& forall|id: usize|
                        id < size ==> call_ensures(
                            spawn,
                            (id,),
                            Ok::<H, E>(#[trigger] pool@.threads[id as int]->Some_0),
                        )
                },
                Err(error) => {
                    &&& size == 0 ==> error == PoolError::InvalidSize
                    &&& size > 0 ==> error == PoolError::WorkerSpawnFailure
                    &&& size > 0 ==> exists|id: usize, cause: E|
                        {
                            &&& id < size
                            &&& #[trigger] call_ensures(spawn, (id,), Err::<H, E>(cause))
                            &&& forall|earlier: usize|
                                earlier < id ==> #[trigger] can_start::<H, E, F>(spawn, earlier)
                        }
                },
            },
    {
        if size == 0 {
            return Err(PoolError::InvalidSize);
        }
        let mut workers: Vec<Worker<H>> = Vec::new();
        let mut id: usize = 0;
        while id < size
            invariant
                id <= size,
                workers@.len() == id,
                forall|i: usize| i < size ==> call_requires(spawn, (i,)),
                forall|i: int| 0 <= i < id ==> (#[trigger] workers@[i]).id() == i,
                forall|i: int| 0 <= i < id ==> (#[trigger] workers@[i]).thread() is Some,
                forall|i: usize|
                    i < id ==> call_ensures(
                        spawn,
                        (i,),
                        Ok::<H, E>(#[trigger] workers@[i as int].thread()->Some_0),
                    ),
                forall|i: usize| i < id ==> #[trigger] can_start::<H, E, F>(spawn, i),
            decreases size - id,
        {
            let spawned = spawn(id);
            let ghost outcome = spawned;
            match Worker::new(id, spawned) {
                Ok(worker) => {
                    assert(call_ensures(spawn, (id,), Ok::<H, E>(outcome->Ok_0)));
                    workers.push(worker);
                },
                Err(error) => {
                    assert(call_ensures(spawn, (id,), Err::<H, E>(outcome->Err_0)));
                    return Err(error);
                },
            }
            id = id + 1;
        }
        Ok(ThreadPool { workers, accepting: true })
    }

    /// The number of workers, which never changes.
    pub fn size(&self) -> (size: usize)
        ensures
            size == self@.size(),
    {
        self.workers.len()
    }

    /// The pool's records of its workers, in the order in which the workers
    /// were started.
    pub fn workers(&self) -> (workers: &Vec<Worker<H>>)
        ensures
            workers@.len() == self@.size(),
            forall|i: int|
                0 <= i < workers@.len() ==> {
                    &&& (#[trigger] workers@[i]).id() == self@.ids[i]
                    &&& workers@[i].thread() == self@.threads[i]
                },
    {
        &self.workers
    }

    /// Whether the pool still takes jobs.
    pub fn is_accepting(&self) -> (accepting: bool)
        ensures
            accepting == self@.accepting,
    {
        self.accepting
    }

    /// Submits `job`: a pool that takes jobs sends it to `channel`, where it
    /// waits behind the jobs sent before it. A pool that has begun to shut
    /// down refuses it and does not touch the channel. Never waits.
    pub fn execute<T>(&self, channel: &mut JobChannel<T>, job: T) -> (result: Result<
        (),
        PoolError,
    >)
        ensures
            result == submit_result(self@.accepting, old(channel)@),
            final(channel)@ == channel_after_submit(self@.accepting, old(channel)@, job),
    {
        if !self.accepting {
            return Err(PoolError::QueueClosed);
        }
        match channel.send(job) {
            Ok(()) => Ok(()),
            Err(_) => Err(PoolError::SendFailure),
        }
    }

    /// Shuts the pool down: it takes no more jobs, `channel` is closed, and
    /// the handles of the workers' threads leave the pool, in the order in
    /// which the workers were started. The caller joins them in that order;
    /// each worker ends once it finds the channel closed and drained.
    ///
    /// A second shutdown finds nothing left to hand out.
    pub fn shutdown<T>(&mut self, channel: &mut JobChannel<T>) -> (handles: Vec<H>)
        ensures
            final(self)@ == old(self)@.shut_down(),
            final(channel)@ == old(channel)@.close(),
            handles@ == present(old(self)@.threads),
            old(self)@.wf() ==> final(self)@.wf(),
            old(self)@.wf() && old(self)@.accepting ==> {
                &&& handles@.len() == old(self)@.size()
                &&& forall|i: int|
                    0 <= i < handles@.len() ==> old(self)@.threads[i] == Some(
                        #[trigger] handles@[i],
                    )
            },
            old(self)@.wf() && !old(self)@.accepting ==> handles@.len() == 0,
    {
        self.accepting = false;
        channel.close();
        let handles = take_threads(&mut self.workers);
        assert(self@.ids == old(self)@.ids);
        proof {
            if old(self)@.wf() {
                lemma_shut_down_keeps_wf(old(self)@);
                if old(self)@.accepting {
                    lemma_present_all(old(self)@.threads);
                } else {
                    lemma_present_none(old(self)@.threads);
                }
            }
        }
        handles
    }
}

} // verus!
