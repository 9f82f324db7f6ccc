use vstd::prelude::*;

verus! {

/// What an asynchronous event asks for: a wait, and the events to dispatch
/// once the wait is over. The store that handed it out counts the operation
/// as in flight until the events are reported back to it.
#[must_use]
pub struct Effect<E> {
    /// How long to wait before the events are dispatched, in milliseconds.
    pub delay_millis: u64,
    /// The events to dispatch after the wait, in this order.
    pub events: Vec<E>,
}

/// An [`Effect`] as plain mathematics.
pub struct EffectView<E> {
    pub delay_millis: u64,
    pub events: Seq<E>,
}

impl<E> View for Effect<E> {
    type V = EffectView<E>;

    open spec fn view(&self) -> EffectView<E> {
        EffectView { delay_millis: self.delay_millis, events: self.events@ }
    }
}

/// A state together with the events that change it.
///
/// `reduce` and `effect` say what `reducer` and `async_reducer` compute, and
/// `clone_is_exact` is the proof that a copy of a state is that state. Code
/// that is not verified gives these three a body that is never run.
pub trait Slice: Sync + Send + Clone + Sized {
    type Event: Sync + Send + Clone + 'static;

    type AsyncEvent: Sync + Send + Clone;

    /// The state that `event` turns `state` into.
    spec fn reduce(state: Self, event: Self::Event) -> Self;

    /// The effect that `event` asks for.
    spec fn effect(event: Self::AsyncEvent) -> EffectView<Self::Event>;

    /// Applies `event` to `state` in place. Total: every event is handled.
    fn reducer(state: &mut Self, event: Self::Event)
        ensures
            *final(state) == Self::reduce(*old(state), event),
    ;

    /// Describes what has to happen for `event`, without doing it.
    fn async_reducer(event: Self::AsyncEvent) -> (effect: Effect<Self::Event>)
        ensures
            effect@ == Self::effect(event),
    ;

    /// A clone of a state is equal to the state it was made from.
    proof fn clone_is_exact(a: Self, b: Self)
        requires
            cloned(a, b),
        ensures
            a == b,
    ;
}

/// The state reached from `state` by applying `events` one after the other,
/// the first one first.
pub open spec fn apply_all<T: Slice>(state: T, events: Seq<T::Event>) -> T
    decreases events.len(),
{
    if events.len() == 0 {
        state
    } else {
        T::reduce(apply_all(state, events.drop_last()), events.last())
    }
}

/// What a store holds, as plain mathematics.
pub struct StoreModel<T: Slice> {
    /// The current state.
    pub state: T,
    /// The events that wait for the next update pass, oldest first.
    pub pending: Seq<T::Event>,
    /// The number of asynchronous operations that have started and not yet
    /// completed.
    pub in_flight: int,
}

impl<T: Slice> StoreModel<T> {
    /// A store that was just made around `state`.
    pub open spec fn fresh(state: T) -> Self {
        StoreModel { state, pending: Seq::empty(), in_flight: 0 }
    }

    /// After an update pass: every pending event applied, oldest first, and
    /// the queue empty.
    pub open spec fn updated(self) -> Self {
        StoreModel {
            state: apply_all(self.state, self.pending),
            pending: Seq::empty(),
            in_flight: self.in_flight,
        }
    }

    /// After `event` was dispatched: the pending events applied, oldest
    /// first, then `event`, and the queue empty.
    pub open spec fn dispatched(self, event: T::Event) -> Self {
        StoreModel {
            state: T::reduce(apply_all(self.state, self.pending), event),
            pending: Seq::empty(),
            in_flight: self.in_flight,
        }
    }

    /// After each of `events` was dispatched in turn.
    pub open spec fn dispatched_all(self, events: Seq<T::Event>) -> Self
        decreases events.len(),
    {
        if events.len() == 0 {
            self
        } else {
            self.dispatched_all(events.drop_last()).dispatched(events.last())
        }
    }

    /// After an asynchronous operation has started.
    pub open spec fn started(self) -> Self {
        StoreModel { state: self.state, pending: self.pending, in_flight: self.in_flight + 1 }
    }

    /// After an asynchronous operation that produced `events` has completed.
    pub open spec fn completed(self, events: Seq<T::Event>) -> Self {
        let applied = self.dispatched_all(events);
        StoreModel {
            state: applied.state,
            pending: applied.pending,
            in_flight: applied.in_flight - 1,
        }
    }
}

/// One state, changed only by the reducer of its [`Slice`], event by event
/// in the order of dispatch, with a count of the asynchronous operations in
/// flight.
pub struct AsyncStore<T: Slice> {
    state: T,
    events: Vec<T::Event>,
    is_working: i32,
}

impl<T: Slice> View for AsyncStore<T> {
    type V = StoreModel<T>;

    closed spec fn view(&self) -> StoreModel<T> {
        StoreModel { state: self.state, pending: self.events@, in_flight: self.is_working as int }
    }
}

impl<T: Slice> AsyncStore<T> {
    /// A store around `s`, with nothing pending and nothing in flight.
    pub fn new(s: T) -> (store: Self)
        ensures
            store@ == StoreModel::fresh(s),
    {
        AsyncStore { state: s, events: Vec::new(), is_working: 0 }
    }

    /// The current state, borrowed.
    pub fn state(&self) -> (state: &T)
        ensures
            *state == self@.state,
    {
        &self.state
    }

    /// Changes the state directly with `f`, past the reducer.
    pub fn mutate<F: FnOnce(&mut T)>(&mut self, f: F)
        requires
            forall|r: &mut T| *r == old(self)@.state ==> call_requires(f, (r,)),
        ensures
            exists|r: &mut T|
                *r == old(self)@.state && *final(r) == final(self)@.state && call_ensures(
                    f,
                    (r,),
                    (),
                ),
            final(self)@.pending == old(self)@.pending,
            final(self)@.in_flight == old(self)@.in_flight,
    {
        f(&mut self.state);
    }

    /// Queues `e` and applies everything that is queued.
    pub fn dispatch(&mut self, e: T::Event)
        ensures
            final(self)@ == old(self)@.dispatched(e),
    {
        self.events.push(e);
        self.update();
        assert(old(self)@.pending.push(e).drop_last() == old(self)@.pending);
    }

    /// Starts an asynchronous operation: counts it as in flight and returns
    /// what it has to do. Whoever carries the effect out reports back with
    /// [`AsyncStore::complete_async`].
    pub fn dispatch_async(&mut self, event: T::AsyncEvent) -> (effect: Effect<T::Event>)
        requires
            old(self)@.in_flight < i32::MAX,
        ensures
            final(self)@ == old(self)@.started(),
            effect@ == T::effect(event),
    {
        self.is_working = self.is_working + 1;
        T::async_reducer(event)
    }

    /// Ends an asynchronous operation: dispatches the events it produced, in
    /// order, and counts it as no longer in flight.
    pub fn complete_async(&mut self, events: Vec<T::Event>)
        requires
            old(self)@.in_flight > 0,
        ensures
            final(self)@ == old(self)@.completed(events@),
    {
        let ghost before = self@;
        let ghost produced = events@;
        for event in it: events
            invariant
                it.seq() == produced,
                self@ == before.dispatched_all(produced.take(it.index())),
                self@.in_flight == before.in_flight,
        {
            assert(produced.take(it.index() + 1).drop_last() == produced.take(it.index()));
            self.dispatch(event);
        }
        assert(produced.take(produced.len() as int) == produced);
        self.is_working = self.is_working - 1;
    }

    /// The number of asynchronous operations in flight.
    pub fn is_working(&self) -> (n: i32)
        ensures
            n == self@.in_flight,
    {
        self.is_working
    }

    /// The update pass: applies the queued events, oldest first, and empties
    /// the queue.
    fn update(&mut self)
        ensures
            final(self)@ == old(self)@.updated(),
    {
        let ghost before = self.state;
        let mut queue: Vec<T::Event> = Vec::new();
        std::mem::swap(&mut queue, &mut self.events);
        let ghost pending = queue@;
        for event in it: queue
            invariant
                it.seq() == pending,
                self.state == apply_all(before, pending.take(it.index())),
                self.events@.len() == 0,
                self.is_working == old(self).is_working,
        {
            assert(pending.take(it.index() + 1).drop_last() == pending.take(it.index()));
            T::reducer(&mut self.state, event);
        }
        assert(pending.take(pending.len() as int) == pending);
        assert(self.events@ == Seq::<T::Event>::empty());
    }

    /// A copy of the current state.
    pub fn get_state(&self) -> (state: T)
        ensures
            state == self@.state,
    {
        let state = self.state.clone();
        proof {
            T::clone_is_exact(self.state, state);
        }
        state
    }
}

struct HasChanges(bool);

/// A store that also remembers whether an update pass has run since the
/// caller last asked.
pub struct Store<T: Slice> {
    store: AsyncStore<T>,
    has_changes: HasChanges,
}

/// What a [`Store`] holds, as plain mathematics.
pub struct SupervisedView<T: Slice> {
    /// The store inside.
    pub store: StoreModel<T>,
    /// Whether an update pass has run since the flag was last drained.
    pub has_changes: bool,
}

impl<T: Slice> View for Store<T> {
    type V = SupervisedView<T>;

    closed spec fn view(&self) -> SupervisedView<T> {
        SupervisedView { store: self.store@, has_changes: self.has_changes.0 }
    }
}

impl<T: Slice> Store<T> {
    /// A store around `s`, with nothing pending, nothing in flight and no
    /// change to report.
    pub fn new(s: T) -> (store: Self)
        ensures
            store@.store == StoreModel::fresh(s),
            !store@.has_changes,
    {
        Store { store: AsyncStore::new(s), has_changes: HasChanges(false) }
    }

    /// An update pass that marks the store as changed.
    #[allow(dead_code)]
    fn update(&mut self)
        ensures
            final(self)@.store == old(self)@.store.updated(),
            final(self)@.has_changes,
    {
        self.store.update();
        self.has_changes = HasChanges(true);
    }

    /// Queues `e` and applies everything that is queued. The change flag
    /// stays as it was, whatever the event does.
    pub fn dispatch(&mut self, e: T::Event)
        ensures
            final(self)@.store == old(self)@.store.dispatched(e),
            final(self)@.has_changes == old(self)@.has_changes,
    {
        self.store.dispatch(e);
    }

    /// A copy of the current state.
    pub fn get_state(&self) -> (state: T)
        ensures
            state == self@.store.state,
    {
        self.store.get_state()
    }

    /// Reads the change flag and clears it.
    pub fn drain_changes(&mut self) -> (changed: bool)
        ensures
            changed == old(self)@.has_changes,
            !final(self)@.has_changes,
            final(self)@.store == old(self)@.store,
    {
        let ret = self.has_changes.0;
        self.has_changes = HasChanges(false);
        ret
    }

    /// Whether one more asynchronous operation can be counted.
    pub fn can_dispatch_async(&self) -> (ok: bool)
        ensures
            ok == (self@.store.in_flight < i32::MAX),
    {
        self.store.is_working() < i32::MAX
    }

    /// Starts an asynchronous operation and returns what it has to do, for
    /// the caller to carry out in the background and to report back with
    /// [`Store::complete_async`].
    pub fn dispatch_async(&mut self, event: T::AsyncEvent) -> (effect: Effect<T::Event>)
        requires
            old(self)@.store.in_flight < i32::MAX,
        ensures
            final(self)@.store == old(self)@.store.started(),
            final(self)@.has_changes == old(self)@.has_changes,
            effect@ == T::effect(event),
    {
        self.store.dispatch_async(event)
    }

    /// Ends an asynchronous operation: dispatches the events it produced, in
    /// order, and counts it as no longer in flight.
    pub fn complete_async(&mut self, events: Vec<T::Event>)
        requires
            old(self)@.store.in_flight > 0,
        ensures
            final(self)@.store == old(self)@.store.completed(events@),
            final(self)@.has_changes == old(self)@.has_changes,
    {
        self.store.complete_async(events);
    }

    /// Whether any asynchronous operation is in flight.
    pub fn is_working(&self) -> (working: bool)
        ensures
            working == (self@.store.in_flight > 0),
    {
        self.store.is_working() > 0
    }
}

} // verus!
