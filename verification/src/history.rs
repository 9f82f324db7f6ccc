use vstd::prelude::*;

use crate::store::{apply_all, Slice, StoreModel};

verus! {

/// One thing that happens to a store.
pub enum Step<T: Slice> {
    /// An event is dispatched.
    Dispatch(T::Event),
    /// An asynchronous operation starts.
    Start,
    /// An asynchronous operation completes, having produced these events.
    Complete(Seq<T::Event>),
}

impl<T: Slice> StoreModel<T> {
    /// Whether `step` may be taken from here: an operation can start while
    /// the counter can still count, and only an operation in flight can
    /// complete.
    pub open spec fn admits(self, step: Step<T>) -> bool {
        match step {
            Step::Dispatch(_) => true,
            Step::Start => self.in_flight < i32::MAX,
            Step::Complete(_) => self.in_flight > 0,
        }
    }

    /// The store after `step`.
    pub open spec fn after(self, step: Step<T>) -> Self {
        match step {
            Step::Dispatch(event) => self.dispatched(event),
            Step::Start => self.started(),
            Step::Complete(events) => self.completed(events),
        }
    }

    /// The store after `steps`, taken in order.
    pub open spec fn after_all(self, steps: Seq<Step<T>>) -> Self
        decreases steps.len(),
    {
        if steps.len() == 0 {
            self
        } else {
            self.after_all(steps.drop_last()).after(steps.last())
        }
    }

    /// Whether each of `steps` may be taken when its turn comes.
    pub open spec fn admits_all(self, steps: Seq<Step<T>>) -> bool
        decreases steps.len(),
    {
        steps.len() == 0 || (self.admits_all(steps.drop_last()) && self.after_all(
            steps.drop_last(),
        ).admits(steps.last()))
    }
}

/// How many of `steps` start an asynchronous operation.
pub open spec fn starts<T: Slice>(steps: Seq<Step<T>>) -> nat
    decreases steps.len(),
{
    if steps.len() == 0 {
        0
    } else {
        starts(steps.drop_last()) + if steps.last() is Start {
            1nat
        } else {
            0nat
        }
    }
}

/// How many of `steps` complete an asynchronous operation.
pub open spec fn completions<T: Slice>(steps: Seq<Step<T>>) -> nat
    decreases steps.len(),
{
    if steps.len() == 0 {
        0
    } else {
        completions(steps.drop_last()) + if steps.last() is Complete {
            1nat
        } else {
            0nat
        }
    }
}

/// The events that `step` hands to the reducer.
pub open spec fn events_of_step<T: Slice>(step: Step<T>) -> Seq<T::Event> {
    match step {
        Step::Dispatch(event) => seq![event],
        Step::Start => Seq::empty(),
        Step::Complete(events) => events,
    }
}

/// The events that `steps` hand to the reducer, in order.
pub open spec fn events_of<T: Slice>(steps: Seq<Step<T>>) -> Seq<T::Event>
    decreases steps.len(),
{
    if steps.len() == 0 {
        Seq::empty()
    } else {
        events_of(steps.drop_last()) + events_of_step(steps.last())
    }
}

/// Applying one run of events and then another is applying the two runs
/// joined.
pub proof fn lemma_apply_all_concat<T: Slice>(
    state: T,
    first: Seq<T::Event>,
    second: Seq<T::Event>,
)
    ensures
        apply_all(state, first + second) == apply_all(apply_all(state, first), second),
    decreases second.len(),
{
    if second.len() > 0 {
        lemma_apply_all_concat(state, first, second.drop_last());
        assert((first + second).drop_last() == first + second.drop_last());
    }
}

/// Dispatching is queueing the event behind the pending ones and running an
/// update pass.
pub proof fn lemma_dispatch_queues_then_updates<T: Slice>(store: StoreModel<T>, event: T::Event)
    ensures
        store.dispatched(event) == (StoreModel {
            state: store.state,
            pending: store.pending.push(event),
            in_flight: store.in_flight,
        }).updated(),
{
    assert(store.pending.push(event).drop_last() == store.pending);
}

/// Dispatching a run of events one by one applies what was pending and then
/// the run, in order, and leaves the queue empty and the counter alone.
pub proof fn lemma_dispatched_all<T: Slice>(store: StoreModel<T>, events: Seq<T::Event>)
    requires
        events.len() > 0,
    ensures
        store.dispatched_all(events) == (StoreModel {
            state: apply_all(store.state, store.pending + events),
            pending: Seq::empty(),
            in_flight: store.in_flight,
        }),
    decreases events.len(),
{
    let earlier = events.drop_last();
    assert((store.pending + events).drop_last() == store.pending + earlier);
    if earlier.len() == 0 {
        assert(store.dispatched_all(earlier) == store);
    } else {
        lemma_dispatched_all(store, earlier);
    }
}

/// Events are applied in the order of dispatch: after `e1`, `e2` and `e3`
/// were dispatched to a store with nothing pending, the state is
/// `reduce(reduce(reduce(state, e1), e2), e3)`.
pub proof fn lemma_three_dispatches_in_order<T: Slice>(
    store: StoreModel<T>,
    e1: T::Event,
    e2: T::Event,
    e3: T::Event,
)
    requires
        store.pending.len() == 0,
    ensures
        store.dispatched(e1).dispatched(e2).dispatched(e3).state == T::reduce(
            T::reduce(T::reduce(store.state, e1), e2),
            e3,
        ),
{
}

/// Events are applied in the order of dispatch, however many there are:
/// after a run of dispatches to a store with nothing pending, the state is
/// the old state with the run applied, first event first.
pub proof fn lemma_dispatches_in_order<T: Slice>(store: StoreModel<T>, events: Seq<T::Event>)
    requires
        store.pending.len() == 0,
    ensures
        store.dispatched_all(events).state == apply_all(store.state, events),
        store.dispatched_all(events).pending.len() == 0,
        store.dispatched_all(events).in_flight == store.in_flight,
{
    if events.len() > 0 {
        lemma_dispatched_all(store, events);
    }
}

/// An event that the reducer answers by leaving the state as it is changes
/// nothing in a store with nothing pending.
pub proof fn lemma_noop_event<T: Slice>(store: StoreModel<T>, event: T::Event)
    requires
        store.pending.len() == 0,
        T::reduce(store.state, event) == store.state,
    ensures
        store.dispatched(event) == store,
{
    assert(store.pending == Seq::<T::Event>::empty());
}

/// An asynchronous operation from start to completion: once the events of
/// its effect are reported, a store that had nothing pending holds the old
/// state with those events applied in order, and the counter stands where
/// it stood before the operation started.
pub proof fn lemma_async_round_trip<T: Slice>(store: StoreModel<T>, event: T::AsyncEvent)
    requires
        store.pending.len() == 0,
    ensures
        store.started().completed(T::effect(event).events) == (StoreModel {
            state: apply_all(store.state, T::effect(event).events),
            pending: Seq::empty(),
            in_flight: store.in_flight,
        }),
{
    let events = T::effect(event).events;
    assert(store.pending == Seq::<T::Event>::empty());
    if events.len() > 0 {
        lemma_dispatched_all(store.started(), events);
    }
}

/// A beginning of an admitted history is admitted.
pub proof fn lemma_prefix_admitted<T: Slice>(store: StoreModel<T>, steps: Seq<Step<T>>, k: int)
    requires
        store.admits_all(steps),
        0 <= k <= steps.len(),
    ensures
        store.admits_all(steps.take(k)),
    decreases steps.len(),
{
    if k == steps.len() {
        assert(steps.take(k) == steps);
    } else {
        lemma_prefix_admitted(store, steps.drop_last(), k);
        assert(steps.drop_last().take(k) == steps.take(k));
    }
}

/// A beginning of a history starts no more operations than the whole.
pub proof fn lemma_prefix_starts<T: Slice>(steps: Seq<Step<T>>, k: int)
    requires
        0 <= k <= steps.len(),
    ensures
        starts(steps.take(k)) <= starts(steps),
    decreases steps.len(),
{
    if k == steps.len() {
        assert(steps.take(k) == steps);
    } else {
        lemma_prefix_starts(steps.drop_last(), k);
        assert(steps.drop_last().take(k) == steps.take(k));
    }
}

/// The counter counts: after an admitted history it stands at what it was,
/// plus the operations started, minus the operations completed, and it has
/// not gone below zero if it did not start there.
pub proof fn lemma_in_flight_counts<T: Slice>(store: StoreModel<T>, steps: Seq<Step<T>>)
    requires
        store.admits_all(steps),
    ensures
        store.after_all(steps).in_flight == store.in_flight + starts(steps) - completions(steps),
        store.in_flight >= 0 ==> store.after_all(steps).in_flight >= 0,
    decreases steps.len(),
{
    if steps.len() > 0 {
        let earlier = steps.drop_last();
        lemma_in_flight_counts(store, earlier);
        match steps.last() {
            Step::Complete(events) => {
                let before = store.after_all(earlier);
                if events.len() > 0 {
                    lemma_dispatched_all(before, events);
                }
            },
            _ => {},
        }
    }
}

/// With `n` operations started in an admitted history of a store that began
/// with none in flight, the counter lies between 0 and `n` after every
/// beginning of the history, and stands at 0 once all `n` have completed.
pub proof fn lemma_in_flight_bounds<T: Slice>(store: StoreModel<T>, steps: Seq<Step<T>>, k: int)
    requires
        store.in_flight == 0,
        store.admits_all(steps),
        0 <= k <= steps.len(),
    ensures
        0 <= store.after_all(steps.take(k)).in_flight <= starts(steps),
        completions(steps) == starts(steps) ==> store.after_all(steps).in_flight == 0,
{
    lemma_prefix_admitted(store, steps, k);
    lemma_prefix_starts(steps, k);
    lemma_in_flight_counts(store, steps.take(k));
    lemma_in_flight_counts(store, steps);
}

/// Whatever the history, the state is the first state with whole events
/// applied, one after the other in the order in which the history handed
/// them to the reducer, and nothing is left pending.
pub proof fn lemma_state_follows_history<T: Slice>(store: StoreModel<T>, steps: Seq<Step<T>>)
    requires
        store.pending.len() == 0,
    ensures
        store.after_all(steps).state == apply_all(store.state, events_of(steps)),
        store.after_all(steps).pending.len() == 0,
    decreases steps.len(),
{
    if steps.len() > 0 {
        let earlier = steps.drop_last();
        lemma_state_follows_history(store, earlier);
        let before = store.after_all(earlier);
        assert(before.pending == Seq::<T::Event>::empty());
        lemma_apply_all_concat(store.state, events_of(earlier), events_of_step(steps.last()));
        match steps.last() {
            Step::Dispatch(event) => {
                assert(seq![event].drop_last() == Seq::<T::Event>::empty());
            },
            Step::Start => {},
            Step::Complete(events) => {
                if events.len() > 0 {
                    lemma_dispatched_all(before, events);
                }
            },
        }
    }
}

} // verus!
