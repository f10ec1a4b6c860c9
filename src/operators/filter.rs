use vstd::prelude::*;

use crate::error::RxError;
use crate::event::{filter_events, next_values, of_events, Event};
use crate::handler::Transform;
use crate::observer::{feed, ObserverLike};

verus! {

/// Hands on the values that satisfy `predicate` and drops the others;
/// errors and completion always pass.
#[verifier::reject_recursive_types(T)]
pub struct FilterObserver<T, D: ObserverLike<Value = T, Error = RxError>> {
    pub destination: D,
    pub predicate: Box<dyn Transform<T, bool>>,
    /// The values the predicate has been run on, in order.
    pub checked: Ghost<Seq<T>>,
}

impl<T, D: ObserverLike<Value = T, Error = RxError>> FilterObserver<T, D> {
    pub fn new<F: Fn(&T) -> bool + Send + 'static>(destination: D, predicate: F) -> (r:
        FilterObserver<T, D>)
        ensures
            r.destination == destination,
            forall|t: T| #[trigger] r.predicate.accepts(t) == predicate.accepts(t),
            forall|t: T| #[trigger] r.predicate.image(t) == predicate.image(t),
            forall|t: T, u: bool| #[trigger] r.predicate.post(t, u) == predicate.post(t, u),
            r.checked@ == Seq::<T>::empty(),
    {
        FilterObserver { destination, predicate: Box::new(predicate), checked: Ghost(Seq::empty()) }
    }

    /// The predicate as a spec function.
    pub open spec fn keeps(&self) -> spec_fn(T) -> bool {
        |t: T| self.predicate.image(t)
    }
}

impl<T, D: ObserverLike<Value = T, Error = RxError>> ObserverLike for FilterObserver<T, D> {
    type Value = T;
    type Error = RxError;

    open spec fn inv(&self) -> bool {
        &&& self.destination.inv()
        &&& forall|t: T| #[trigger] self.predicate.accepts(t)
        &&& forall|i: int|
            0 <= i < self.checked@.len() ==> self.predicate.post(
                #[trigger] self.checked@[i],
                self.predicate.image(self.checked@[i]),
            )
    }

    open spec fn on_next(self, value: T) -> Self {
        let checked = Ghost(self.checked@.push(value));
        if self.predicate.image(value) {
            FilterObserver { destination: self.destination.on_next(value), checked, ..self }
        } else {
            FilterObserver { checked, ..self }
        }
    }

    open spec fn on_error(self, e: RxError) -> Self {
        FilterObserver { destination: self.destination.on_error(e), ..self }
    }

    open spec fn on_complete(self) -> Self {
        FilterObserver { destination: self.destination.on_complete(), ..self }
    }

    fn next(&mut self, value: &T) {
        let keep = self.predicate.apply(value);
        self.checked = Ghost(self.checked@.push(*value));
        if keep {
            self.destination.next(value);
        }
    }

    fn error(&mut self, e: &RxError) {
        self.destination.error(e);
    }

    fn complete(&mut self) {
        self.destination.complete();
    }
}

/// Whatever events reach a filter observer, its destination receives
/// those that are not rejected values, in the same order.
pub proof fn lemma_filter_feed<T, D: ObserverLike<Value = T, Error = RxError>>(
    f: FilterObserver<T, D>,
    events: Seq<Event<T, RxError>>,
)
    ensures
        feed(f, events).destination == feed(f.destination, filter_events(events, f.keeps())),
        feed(f, events).predicate == f.predicate,
        feed(f, events).checked@ == f.checked@ + next_values(events),
    decreases events.len(),
{
    broadcast use Seq::lemma_filter_push;

    if events.len() > 0 {
        let pre = events.drop_last();
        lemma_filter_feed(f, pre);
        assert(f.checked@ + next_values(pre).push(events.last()->Next_0) =~= (f.checked@
            + next_values(pre)).push(events.last()->Next_0));
        assert(pre.push(events.last()) =~= events);
        let kept = filter_events(pre, f.keeps());
        assert(kept.push(events.last()).drop_last() =~= kept);
    }
}

/// Filtering the events of a finite source gives the events of the source
/// of the kept values.
pub proof fn lemma_filter_of_events<T>(values: Seq<T>, keep: spec_fn(T) -> bool)
    ensures
        filter_events(of_events::<T, RxError>(values), keep) == of_events::<T, RxError>(
            values.filter(keep),
        ),
    decreases values.len(),
{
    broadcast use Seq::lemma_filter_push;

    let next = |v: T| Event::<T, RxError>::Next(v);
    let on = |ev: Event<T, RxError>|
        match ev {
            Event::Next(v) => keep(v),
            _ => true,
        };
    if values.len() > 0 {
        let pre = values.drop_last();
        let x = values.last();
        lemma_filter_of_events(pre, keep);
        assert(pre.push(x) =~= values);
        assert(values.map_values(next) =~= pre.map_values(next).push(Event::Next(x)));
        assert(pre.map_values(next).filter(on) == pre.filter(keep).map_values(next)) by {
            assert(of_events::<T, RxError>(pre) =~= pre.map_values(next).push(
                Event::Complete,
            ));
            assert(of_events::<T, RxError>(pre.filter(keep)) =~= pre.filter(keep).map_values(
                next,
            ).push(Event::Complete));
            assert(filter_events(of_events::<T, RxError>(pre), keep) =~= pre.map_values(
                next,
            ).filter(on).push(Event::Complete));
            assert(pre.map_values(next).filter(on) =~= filter_events(
                of_events::<T, RxError>(pre),
                keep,
            ).drop_last());
        }
        if keep(x) {
            assert(values.filter(keep).map_values(next) =~= pre.filter(keep).map_values(
                next,
            ).push(Event::Next(x)));
        }
        assert(values.map_values(next).filter(on) =~= values.filter(keep).map_values(next));
        assert(filter_events(of_events::<T, RxError>(values), keep) =~= values.map_values(
            next,
        ).filter(on).push(Event::Complete));
        assert(of_events::<T, RxError>(values.filter(keep)) =~= values.filter(
            keep,
        ).map_values(next).push(Event::Complete));
    } else {
        assert(filter_events(of_events::<T, RxError>(values), keep) =~= of_events::<T, RxError>(
            values.filter(keep),
        )) by {
            reveal_with_fuel(Seq::filter, 2);
        }
    }
}

/// A filter observer over a finite source hands its destination the values
/// that satisfy the predicate, in their order, then the completion.
pub proof fn lemma_filter_over_of<T, D: ObserverLike<Value = T, Error = RxError>>(
    f: FilterObserver<T, D>,
    values: Seq<T>,
)
    ensures
        feed(f, of_events(values)).destination == feed(
            f.destination,
            of_events(values.filter(f.keeps())),
        ),
{
    lemma_filter_feed(f, of_events(values));
    lemma_filter_of_events(values, f.keeps());
}

} // verus!
