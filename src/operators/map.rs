use vstd::prelude::*;

use crate::error::RxError;
use crate::event::{map_events, next_values, of_events, Event};
use crate::handler::Transform;
use crate::observer::{feed, ObserverLike};

verus! {

/// Hands on each value passed through `predicate`; errors and completion
/// pass unchanged.
#[verifier::reject_recursive_types(T)]
#[verifier::reject_recursive_types(U)]
pub struct MapObserver<T, U, D: ObserverLike<Value = U, Error = RxError>> {
    pub destination: D,
    pub predicate: Box<dyn Transform<T, U>>,
    /// The values the predicate has been run on, in order.
    pub mapped: Ghost<Seq<T>>,
}

impl<T, U, D: ObserverLike<Value = U, Error = RxError>> MapObserver<T, U, D> {
    pub fn new<F: Fn(&T) -> U + Send + 'static>(destination: D, predicate: F) -> (r: MapObserver<
        T,
        U,
        D,
    >)
        ensures
            r.destination == destination,
            forall|t: T| #[trigger] r.predicate.accepts(t) == predicate.accepts(t),
            forall|t: T| #[trigger] r.predicate.image(t) == predicate.image(t),
            forall|t: T, u: U| #[trigger] r.predicate.post(t, u) == predicate.post(t, u),
            r.mapped@ == Seq::<T>::empty(),
    {
        MapObserver { destination, predicate: Box::new(predicate), mapped: Ghost(Seq::empty()) }
    }

    /// The mapping as a spec function.
    pub open spec fn mapping(&self) -> spec_fn(T) -> U {
        |t: T| self.predicate.image(t)
    }
}

impl<T, U, D: ObserverLike<Value = U, Error = RxError>> ObserverLike for MapObserver<T, U, D> {
    type Value = T;
    type Error = RxError;

    open spec fn inv(&self) -> bool {
        &&& self.destination.inv()
        &&& forall|t: T| #[trigger] self.predicate.accepts(t)
        &&& forall|i: int|
            0 <= i < self.mapped@.len() ==> self.predicate.post(
                #[trigger] self.mapped@[i],
                self.predicate.image(self.mapped@[i]),
            )
    }

    open spec fn on_next(self, value: T) -> Self {
        MapObserver {
            destination: self.destination.on_next(self.predicate.image(value)),
            mapped: Ghost(self.mapped@.push(value)),
            ..self
        }
    }

    open spec fn on_error(self, e: RxError) -> Self {
        MapObserver { destination: self.destination.on_error(e), ..self }
    }

    open spec fn on_complete(self) -> Self {
        MapObserver { destination: self.destination.on_complete(), ..self }
    }

    fn next(&mut self, value: &T) {
        let result = self.predicate.apply(value);
        self.mapped = Ghost(self.mapped@.push(*value));
        self.destination.next(&result);
    }

    fn error(&mut self, e: &RxError) {
        self.destination.error(e);
    }

    fn complete(&mut self) {
        self.destination.complete();
    }
}

/// Whatever events reach a map observer, its destination receives them
/// with each value mapped, in the same order.
pub proof fn lemma_map_feed<T, U, D: ObserverLike<Value = U, Error = RxError>>(
    m: MapObserver<T, U, D>,
    events: Seq<Event<T, RxError>>,
)
    ensures
        feed(m, events).destination == feed(m.destination, map_events(events, m.mapping())),
        feed(m, events).predicate == m.predicate,
        feed(m, events).mapped@ == m.mapped@ + next_values(events),
    decreases events.len(),
{
    if events.len() > 0 {
        lemma_map_feed(m, events.drop_last());
        assert(m.mapped@ + next_values(events.drop_last()).push(events.last()->Next_0) =~= (
        m.mapped@ + next_values(events.drop_last())).push(events.last()->Next_0));
        assert(map_events(events, m.mapping()).drop_last() =~= map_events(
            events.drop_last(),
            m.mapping(),
        ));
    }
}

/// Mapping the events of a finite source gives the events of the source of
/// the mapped values.
pub proof fn lemma_map_of_events<T, U>(values: Seq<T>, f: spec_fn(T) -> U)
    ensures
        map_events(of_events::<T, RxError>(values), f) == of_events::<U, RxError>(
            values.map_values(f),
        ),
{
    assert(map_events(of_events::<T, RxError>(values), f) =~= of_events::<U, RxError>(
        values.map_values(f),
    ));
}

/// A map observer over a finite source hands its destination `f(s)` for
/// each value `s`, in order, then the completion.
pub proof fn lemma_map_over_of<T, U, D: ObserverLike<Value = U, Error = RxError>>(
    m: MapObserver<T, U, D>,
    values: Seq<T>,
)
    ensures
        feed(m, of_events(values)).destination == feed(
            m.destination,
            of_events(values.map_values(m.mapping())),
        ),
{
    lemma_map_feed(m, of_events(values));
    lemma_map_of_events(values, m.mapping());
}

} // verus!
