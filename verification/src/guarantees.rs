//! What holds of every run of a pool, proved over the state machine of
//! [`crate::model`].
use crate::channel::Received;
use crate::error::PoolError;
use crate::model::{in_flight, shut, submitted, Event, PoolModel, Slot};
use crate::pool::submit_result;
use vstd::multiset::Multiset;
use vstd::prelude::*;

verus! {

/// What links the parts of a pool of `size` workers that has gone through
/// `events`.
pub open spec fn consistent<T>(state: PoolModel<T>, size: nat, events: Seq<Event<T>>) -> bool {
    &&& state.workers.len() == size
    &&& state.accepting == !shut(events)
    &&& state.channel.closed == shut(events)
    &&& state.accepted == submitted(events)
    &&& state.started + state.channel.pending == state.accepted
    &&& state.finished.to_multiset().add(in_flight(state.workers)) == state.started.to_multiset()
    &&& forall|i: int|
        0 <= i < size && state.workers[i] is Terminated ==> state.channel.closed
            && state.channel.pending.len() == 0
    &&& size == 1 ==> state.finished + state.workers[0].in_hand() == state.started
}

proof fn lemma_in_hand_multiset<T>(slot: Slot<T>)
    ensures
        slot matches Slot::Executing(job) ==> slot.in_hand().to_multiset() == Multiset::singleton(
            job,
        ),
        !(slot is Executing) ==> slot.in_hand().to_multiset() == Multiset::<T>::empty(),
        slot.in_hand().to_multiset().len() <= 1,
{
    broadcast use vstd::seq_lib::group_to_multiset_ensures;

    if let Slot::Executing(job) = slot {
        assert(Seq::<T>::empty().push(job) =~= seq![job]);
    }
}

proof fn lemma_in_flight_of_idle<T>(workers: Seq<Slot<T>>)
    requires
        forall|i: int| 0 <= i < workers.len() ==> !(workers[i] is Executing),
    ensures
        in_flight(workers) == Multiset::<T>::empty(),
    decreases workers.len(),
{
    if workers.len() > 0 {
        lemma_in_flight_of_idle(workers.drop_last());
        lemma_in_hand_multiset(workers.last());
    }
}

proof fn lemma_in_flight_update<T>(workers: Seq<Slot<T>>, id: int, slot: Slot<T>)
    requires
        0 <= id < workers.len(),
    ensures
        forall|job: T|
            #[trigger] in_flight(workers.update(id, slot)).count(job)
                + workers[id].in_hand().to_multiset().count(job) == in_flight(workers).count(job)
                + slot.in_hand().to_multiset().count(job),
    decreases workers.len(),
{
    let updated = workers.update(id, slot);
    assert(in_flight(updated) == in_flight(updated.drop_last()).add(
        updated.last().in_hand().to_multiset(),
    ));
    if id == workers.len() - 1 {
        assert(updated.drop_last() =~= workers.drop_last());
    } else {
        lemma_in_flight_update(workers.drop_last(), id, slot);
        assert(updated.drop_last() =~= workers.drop_last().update(id, slot));
    }
}

/// No more jobs are in hand than there are workers.
pub proof fn lemma_in_flight_len<T>(workers: Seq<Slot<T>>)
    ensures
        in_flight(workers).len() <= workers.len(),
    decreases workers.len(),
{
    if workers.len() > 0 {
        lemma_in_flight_len(workers.drop_last());
        lemma_in_hand_multiset(workers.last());
    }
}

proof fn lemma_shut_grows<T>(events: Seq<Event<T>>)
    requires
        events.len() > 0,
    ensures
        shut(events) <==> shut(events.drop_last()) || events.last() is Shutdown,
{
    let earlier = events.drop_last();
    if shut(earlier) {
        let i = choose|i: int| 0 <= i < earlier.len() && earlier[i] is Shutdown;
        assert(events[i] is Shutdown);
    }
    if events.last() is Shutdown {
        assert(events[events.len() - 1] is Shutdown);
    }
    if shut(events) {
        let i = choose|i: int| 0 <= i < events.len() && events[i] is Shutdown;
        if i < events.len() - 1 {
            assert(earlier[i] is Shutdown);
        }
    }
}

proof fn lemma_step_keeps_consistent<T>(
    state: PoolModel<T>,
    size: nat,
    events: Seq<Event<T>>,
)
    requires
        events.len() > 0,
        consistent(state, size, events.drop_last()),
    ensures
        consistent(state.step(events.last()), size, events),
{
    broadcast use vstd::seq_lib::group_to_multiset_ensures;

    let next = state.step(events.last());
    lemma_shut_grows(events);
    match events.last() {
        Event::Submit(_) => {},
        Event::Shutdown => {},
        Event::Receive(id) => {
            if id < state.workers.len() && state.workers[id as int].state().receives() {
                let before = state.workers[id as int];
                let after = next.workers[id as int];
                lemma_in_flight_update(state.workers, id as int, after);
                lemma_in_hand_multiset(before);
                lemma_in_hand_multiset(after);
                match state.channel.receive() {
                    Received::Job(_) => {
                        assert(next.started + next.channel.pending =~= next.accepted);
                        assert(next.finished.to_multiset().add(in_flight(next.workers))
                            =~= next.started.to_multiset());
                    },
                    _ => {
                        assert(in_flight(next.workers) =~= in_flight(state.workers));
                    },
                }
            }
        },
        Event::Complete(id) => {
            if id < state.workers.len() {
                let before = state.workers[id as int];
                let after = next.workers[id as int];
                lemma_in_flight_update(state.workers, id as int, after);
                lemma_in_hand_multiset(before);
                lemma_in_hand_multiset(after);
                match before {
                    Slot::Executing(job) => {
                        assert(next.finished =~= state.finished.push(job));
                        assert(next.finished.to_multiset().add(in_flight(next.workers))
                            =~= next.started.to_multiset());
                    },
                    _ => {
                        assert(next.workers =~= state.workers);
                    },
                }
            }
        },
    }
}

/// Every state that a pool of `size` workers reaches is consistent with the
/// events that led to it.
pub proof fn lemma_runs_are_consistent<T>(size: nat, events: Seq<Event<T>>)
    ensures
        consistent(PoolModel::<T>::start(size).after(events), size, events),
    decreases events.len(),
{
    let start = PoolModel::<T>::start(size);
    if events.len() == 0 {
        lemma_in_flight_of_idle(start.workers);
        assert(start.finished.to_multiset().add(in_flight(start.workers))
            =~= start.started.to_multiset());
    } else {
        lemma_runs_are_consistent::<T>(size, events.drop_last());
        lemma_step_keeps_consistent(start.after(events.drop_last()), size, events);
    }
}

/// The size of a pool is fixed: whatever happens, it has the workers it was
/// built with.
pub proof fn lemma_size_is_fixed<T>(size: nat, events: Seq<Event<T>>)
    ensures
        PoolModel::<T>::start(size).after(events).workers.len() == size,
{
    lemma_runs_are_consistent::<T>(size, events);
}

/// A worker that has left its loop stays out of it, whatever happens next.
pub proof fn lemma_terminated_is_final<T>(state: PoolModel<T>, event: Event<T>, id: int)
    requires
        0 <= id < state.workers.len(),
        state.workers[id] is Terminated,
    ensures
        state.step(event).workers.len() == state.workers.len(),
        state.step(event).workers[id] is Terminated,
{
}

/// Jobs leave the channel in the order in which they were submitted: the
/// jobs handed to workers so far, followed by the jobs that still wait, are
/// the jobs submitted before the shutdown.
pub proof fn lemma_delivery_in_order<T>(size: nat, events: Seq<Event<T>>)
    ensures
        ({
            let state = PoolModel::<T>::start(size).after(events);
            state.started + state.channel.pending == submitted(events)
        }),
{
    lemma_runs_are_consistent::<T>(size, events);
}

/// No job is lost and none is repeated: at every moment each job submitted
/// before the shutdown is, as often as it was submitted, either waiting in
/// the channel, in a worker's hand, or finished.
pub proof fn lemma_no_job_lost_or_repeated<T>(size: nat, events: Seq<Event<T>>)
    ensures
        ({
            let state = PoolModel::<T>::start(size).after(events);
            submitted(events).to_multiset() == state.finished.to_multiset().add(
                in_flight(state.workers),
            ).add(state.channel.pending.to_multiset())
        }),
{
    let state = PoolModel::<T>::start(size).after(events);
    lemma_runs_are_consistent::<T>(size, events);
    vstd::seq_lib::lemma_multiset_commutative(state.started, state.channel.pending);
}

/// Once every worker has left its loop, every job submitted before the
/// shutdown has run to its end exactly as often as it was submitted: the
/// channel is drained and no job is in hand.
pub proof fn lemma_shutdown_runs_every_job_once<T>(size: nat, events: Seq<Event<T>>)
    requires
        size >= 1,
        PoolModel::<T>::start(size).after(events).all_terminated(),
    ensures
        ({
            let state = PoolModel::<T>::start(size).after(events);
            &&& shut(events)
            &&& state.channel.pending.len() == 0
            &&& in_flight(state.workers) == Multiset::<T>::empty()
            &&& state.finished.to_multiset() == submitted(events).to_multiset()
        }),
{
    let state = PoolModel::<T>::start(size).after(events);
    lemma_runs_are_consistent::<T>(size, events);
    assert(state.workers[0] is Terminated);
    lemma_in_flight_of_idle(state.workers);
}

/// At no moment do more jobs run than the pool has workers.
pub proof fn lemma_bounded_concurrency<T>(size: nat, events: Seq<Event<T>>)
    ensures
        in_flight(PoolModel::<T>::start(size).after(events).workers).len() <= size,
{
    lemma_runs_are_consistent::<T>(size, events);
    lemma_in_flight_len(PoolModel::<T>::start(size).after(events).workers);
}

/// Until the shutdown every submission succeeds, however many jobs wait:
/// the job joins the end of the queue.
pub proof fn lemma_accepted_until_shutdown<T>(size: nat, events: Seq<Event<T>>, job: T)
    requires
        !shut(events),
    ensures
        ({
            let state = PoolModel::<T>::start(size).after(events);
            &&& submit_result(state.accepting, state.channel) == Ok::<(), PoolError>(())
            &&& state.step(Event::Submit(job)).channel.pending == state.channel.pending.push(job)
            &&& state.step(Event::Submit(job)).accepted == state.accepted.push(job)
        }),
{
    lemma_runs_are_consistent::<T>(size, events);
}

/// While a job is in a worker's hand the shutdown is not over: the worker
/// has not left its loop, so its thread cannot be joined yet.
pub proof fn lemma_shutdown_waits_for_jobs<T>(state: PoolModel<T>, id: int)
    requires
        0 <= id < state.workers.len(),
        state.workers[id] is Executing,
    ensures
        !state.all_terminated(),
{
}

/// A job submitted after the shutdown is refused and leaves no trace: the
/// pool is as if the job had never been submitted, so no worker ever gets it.
pub proof fn lemma_refused_after_shutdown<T>(size: nat, events: Seq<Event<T>>, job: T)
    requires
        shut(events),
    ensures
        ({
            let state = PoolModel::<T>::start(size).after(events);
            &&& submit_result(state.accepting, state.channel) == Err::<(), PoolError>(
                PoolError::QueueClosed,
            )
            &&& state.step(Event::Submit(job)) == state
        }),
{
    lemma_runs_are_consistent::<T>(size, events);
}

/// With a single worker the jobs run in the order of their submission: at
/// every moment the finished jobs, then the job in hand, then the waiting
/// jobs are the jobs submitted before the shutdown, and once the worker has
/// left its loop the finished jobs are exactly those, in that order.
pub proof fn lemma_single_worker_runs_in_order<T>(events: Seq<Event<T>>)
    ensures
        ({
            let state = PoolModel::<T>::start(1).after(events);
            &&& state.finished + state.workers[0].in_hand() + state.channel.pending == submitted(
                events,
            )
            &&& state.all_terminated() ==> state.finished == submitted(events)
        }),
{
    let state = PoolModel::<T>::start(1).after(events);
    lemma_runs_are_consistent::<T>(1, events);
    if state.all_terminated() {
        assert(state.workers[0] is Terminated);
    }
}

/// The moves by which worker `id` winds down while `backlog` jobs wait: it
/// reports the job in hand, then takes and reports one waiting job after
/// the other, and receives once more to find the channel drained.
pub open spec fn wind_down<T>(id: nat, backlog: nat) -> Seq<Event<T>>
    decreases backlog,
{
    if backlog == 0 {
        seq![Event::Complete(id), Event::Receive(id)]
    } else {
        seq![Event::Complete(id), Event::Receive(id)] + wind_down(id, (backlog - 1) as nat)
    }
}

/// Whether `events` are moves of workers only.
pub open spec fn workers_only<T>(events: Seq<Event<T>>) -> bool {
    forall|i: int| 0 <= i < events.len() ==> events[i] is Receive || events[i] is Complete
}

proof fn lemma_after_both<T>(state: PoolModel<T>, first: Seq<Event<T>>, second: Seq<Event<T>>)
    ensures
        state.after(first + second) == state.after(first).after(second),
    decreases second.len(),
{
    if second.len() == 0 {
        assert(first + second =~= first);
    } else {
        lemma_after_both(state, first, second.drop_last());
        assert((first + second).drop_last() =~= first + second.drop_last());
    }
}

proof fn lemma_after_two<T>(state: PoolModel<T>, first: Event<T>, second: Event<T>)
    ensures
        state.after(seq![first, second]) == state.step(first).step(second),
{
    let both = seq![first, second];
    assert(both.drop_last() =~= seq![first]);
    assert(seq![first].drop_last() =~= Seq::<Event<T>>::empty());
    assert(state.after(seq![first]) == state.after(Seq::<Event<T>>::empty()).step(first));
}

proof fn lemma_wind_down<T>(state: PoolModel<T>, id: nat)
    requires
        id < state.workers.len(),
        state.channel.closed,
        forall|i: int|
            0 <= i < state.workers.len() && state.workers[i] is Terminated
                ==> state.channel.pending.len() == 0,
    ensures
        ({
            let next = state.after(wind_down(id, state.channel.pending.len()));
            &&& next.workers.len() == state.workers.len()
            &&& next.workers[id as int] is Terminated
            &&& next.channel.closed
            &&& next.channel.pending.len() == 0
            &&& forall|i: int|
                0 <= i < state.workers.len() && i != id ==> next.workers[i] == state.workers[i]
        }),
        workers_only(wind_down::<T>(id, state.channel.pending.len())),
    decreases state.channel.pending.len(),
{
    let backlog = state.channel.pending.len();
    let turn = seq![Event::<T>::Complete(id), Event::<T>::Receive(id)];
    let mid = state.step(Event::Complete(id)).step(Event::Receive(id));
    lemma_after_two(state, Event::Complete(id), Event::Receive(id));
    if backlog > 0 {
        lemma_wind_down(mid, id);
        lemma_after_both(state, turn, wind_down(id, (backlog - 1) as nat));
    }
}

proof fn lemma_finish_from<T>(state: PoolModel<T>, done: nat) -> (rest: Seq<Event<T>>)
    requires
        done <= state.workers.len(),
        state.channel.closed,
        forall|i: int| 0 <= i < done ==> state.workers[i] is Terminated,
        forall|i: int|
            0 <= i < state.workers.len() && state.workers[i] is Terminated
                ==> state.channel.pending.len() == 0,
    ensures
        state.after(rest).all_terminated(),
        state.after(rest).workers.len() == state.workers.len(),
        workers_only(rest),
    decreases state.workers.len() - done,
{
    if done == state.workers.len() {
        Seq::empty()
    } else {
        let first = wind_down::<T>(done, state.channel.pending.len());
        lemma_wind_down(state, done);
        let rest = lemma_finish_from(state.after(first), done + 1);
        lemma_after_both(state, first, rest);
        first + rest
    }
}

/// A shutdown can always be brought to its end: from wherever the pool
/// stands after the shutdown began, moves of the workers alone lead to the
/// point where every worker has left its loop. No worker waits for
/// another, and none for a job that cannot come.
pub proof fn lemma_shutdown_can_finish<T>(size: nat, events: Seq<Event<T>>) -> (rest: Seq<Event<T>>)
    requires
        shut(events),
    ensures
        workers_only(rest),
        PoolModel::<T>::start(size).after(events + rest).all_terminated(),
{
    let start = PoolModel::<T>::start(size);
    lemma_runs_are_consistent::<T>(size, events);
    let rest = lemma_finish_from(start.after(events), 0);
    lemma_after_both(start, events, rest);
    rest
}

} // verus!
