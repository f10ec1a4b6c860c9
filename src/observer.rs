use vstd::prelude::*;

use crate::error::RxError;
use crate::event::{of_events, Event};
use crate::handler::{Action, Transform};

verus! {

/// Anything that takes the three kinds of events of a stream. Each method
/// is described by a spec function giving the state that follows the event,
/// so that a chain of observers can be reasoned about as one value.
pub trait ObserverLike: Sized {
    type Value;
    type Error;

    /// The observer's handlers can be called.
    spec fn inv(&self) -> bool;

    spec fn on_next(self, value: Self::Value) -> Self;

    spec fn on_error(self, e: Self::Error) -> Self;

    spec fn on_complete(self) -> Self;

    fn next(&mut self, value: &Self::Value)
        requires
            old(self).inv(),
        ensures
            *final(self) == old(self).on_next(*value),
            final(self).inv(),
    ;

    fn error(&mut self, e: &Self::Error)
        requires
            old(self).inv(),
        ensures
            *final(self) == old(self).on_error(*e),
            final(self).inv(),
    ;

    fn complete(&mut self)
        requires
            old(self).inv(),
        ensures
            *final(self) == old(self).on_complete(),
            final(self).inv(),
    ;
}

/// The state of `o` after it has been handed `event`.
pub open spec fn step<O: ObserverLike>(o: O, event: Event<O::Value, O::Error>) -> O {
    match event {
        Event::Next(v) => o.on_next(v),
        Event::Error(e) => o.on_error(e),
        Event::Complete => o.on_complete(),
    }
}

/// The state of `o` after it has been handed `events`, first to last.
pub open spec fn feed<O: ObserverLike>(o: O, events: Seq<Event<O::Value, O::Error>>) -> O
    decreases events.len(),
{
    if events.len() == 0 {
        o
    } else {
        step(feed(o, events.drop_last()), events.last())
    }
}

/// An observer built from three handlers. Once it has completed it stops:
/// later events reach no handler. An error does not stop it.
#[verifier::reject_recursive_types(T)]
pub struct Observer<T> {
    pub next_fn: Box<dyn Transform<T, ()>>,
    pub error_fn: Box<dyn Transform<RxError, ()>>,
    pub complete_fn: Box<dyn Action>,
    pub stopped: bool,
    /// The events handed to the handlers so far, in order.
    pub delivered: Ghost<Seq<Event<T, RxError>>>,
}

impl<T> Observer<T> {
    /// The stored value handler is `next`: running it brings about exactly
    /// what running `next` does.
    pub open spec fn holds_next<N: Fn(&T)>(&self, next: N) -> bool {
        forall|v: T, u: ()| #[trigger] self.next_fn.post(v, u) == call_ensures(next, (&v,), u)
    }

    /// The stored error handler is `error`.
    pub open spec fn holds_error<E: Fn(&RxError)>(&self, error: E) -> bool {
        forall|e: RxError, u: ()| #[trigger] self.error_fn.post(e, u) == call_ensures(
            error,
            (&e,),
            u,
        )
    }

    /// The stored completion handler is `complete`.
    pub open spec fn holds_complete<C: Fn()>(&self, complete: C) -> bool {
        self.complete_fn.post() == call_ensures(complete, (), ())
    }

    /// The observer has handled nothing yet, and its handlers can be called.
    pub open spec fn fresh(&self) -> bool {
        &&& self.inv()
        &&& !self.stopped
        &&& self.delivered@ == Seq::<Event<T, RxError>>::empty()
    }

    /// The stored handlers are `next`, `error` and `complete`.
    pub open spec fn holds<N: Fn(&T), E: Fn(&RxError), C: Fn()>(
        &self,
        next: N,
        error: E,
        complete: C,
    ) -> bool {
        &&& self.holds_next(next)
        &&& self.holds_error(error)
        &&& self.holds_complete(complete)
    }

    pub fn new<N, E, C>(next: N, error: E, complete: C) -> (r: Observer<T>) where
        N: Fn(&T) + Send + 'static,
        E: Fn(&RxError) + Send + 'static,
        C: Fn() + Send + 'static,

        requires
            forall|v: T| call_requires(next, (&v,)),
            forall|e: RxError| call_requires(error, (&e,)),
            call_requires(complete, ()),
        ensures
            r.inv(),
            !r.stopped,
            r.delivered@ == Seq::<Event<T, RxError>>::empty(),
            r.holds(next, error, complete),
    {
        Observer {
            next_fn: Box::new(next),
            error_fn: Box::new(error),
            complete_fn: Box::new(complete),
            stopped: false,
            delivered: Ghost(Seq::empty()),
        }
    }
}

impl<T> ObserverLike for Observer<T> {
    type Value = T;
    type Error = RxError;

    open spec fn inv(&self) -> bool {
        &&& forall|v: T| self.next_fn.accepts(v)
        &&& forall|e: RxError| self.error_fn.accepts(e)
        &&& self.complete_fn.ready()
    }

    open spec fn on_next(self, value: T) -> Self {
        if self.stopped {
            self
        } else {
            Observer { delivered: Ghost(self.delivered@.push(Event::Next(value))), ..self }
        }
    }

    open spec fn on_error(self, e: RxError) -> Self {
        if self.stopped {
            self
        } else {
            Observer { delivered: Ghost(self.delivered@.push(Event::Error(e))), ..self }
        }
    }

    open spec fn on_complete(self) -> Self {
        if self.stopped {
            self
        } else {
            Observer {
                stopped: true,
                delivered: Ghost(self.delivered@.push(Event::Complete)),
                ..self
            }
        }
    }

    fn next(&mut self, t: &T)
        ensures
            !old(self).stopped ==> old(self).next_fn.post(*t, ()),
    {
        if !self.stopped {
            self.next_fn.apply(t);
            self.delivered = Ghost(self.delivered@.push(Event::Next(*t)));
        }
    }

    fn error(&mut self, e: &RxError)
        ensures
            !old(self).stopped ==> old(self).error_fn.post(*e, ()),
    {
        if !self.stopped {
            self.error_fn.apply(e);
            self.delivered = Ghost(self.delivered@.push(Event::Error(*e)));
        }
    }

    fn complete(&mut self)
        ensures
            !old(self).stopped ==> old(self).complete_fn.post(),
    {
        if !self.stopped {
            self.stopped = true;
            self.complete_fn.run();
            self.delivered = Ghost(self.delivered@.push(Event::Complete));
        }
    }
}

/// Handing on `first` and then `second` is handing on the two in a row.
pub proof fn lemma_feed_append<O: ObserverLike>(
    o: O,
    first: Seq<Event<O::Value, O::Error>>,
    second: Seq<Event<O::Value, O::Error>>,
)
    ensures
        feed(o, first + second) == feed(feed(o, first), second),
    decreases second.len(),
{
    if second.len() == 0 {
        assert(first + second =~= first);
    } else {
        lemma_feed_append(o, first, second.drop_last());
        assert((first + second).drop_last() =~= first + second.drop_last());
    }
}

/// A stopped observer ignores every event.
pub proof fn lemma_stopped_ignores<T>(o: Observer<T>, events: Seq<Event<T, RxError>>)
    requires
        o.stopped,
    ensures
        feed(o, events) == o,
    decreases events.len(),
{
    if events.len() > 0 {
        lemma_stopped_ignores(o, events.drop_last());
    }
}

/// A running observer hands each value to its handler, in order, and
/// keeps running.
pub proof fn lemma_values_delivered<T>(o: Observer<T>, values: Seq<T>)
    requires
        !o.stopped,
    ensures
        feed(o, values.map_values(|v: T| Event::<T, RxError>::Next(v))).delivered@ == o.delivered@
            + values.map_values(|v: T| Event::<T, RxError>::Next(v)),
        !feed(o, values.map_values(|v: T| Event::<T, RxError>::Next(v))).stopped,
    decreases values.len(),
{
    let nexts = values.map_values(|v: T| Event::<T, RxError>::Next(v));
    if values.len() == 0 {
        assert(o.delivered@ + nexts =~= o.delivered@);
    } else {
        let pre = values.drop_last();
        lemma_values_delivered(o, pre);
        assert(nexts.drop_last() =~= pre.map_values(|v: T| Event::<T, RxError>::Next(v)));
        assert(o.delivered@ + nexts =~= (o.delivered@ + nexts.drop_last()).push(nexts.last()));
    }
}

/// Subscribed to a finite source, a running observer receives each value
/// in order and then one completion; it stops, and nothing it is handed
/// later reaches a handler.
pub proof fn lemma_of_delivers<T>(
    o: Observer<T>,
    values: Seq<T>,
    later: Seq<Event<T, RxError>>,
)
    requires
        !o.stopped,
    ensures
        feed(o, of_events(values)).delivered@ == o.delivered@ + of_events(values),
        feed(o, of_events(values)).stopped,
        feed(o, of_events(values) + later) == feed(o, of_events(values)),
{
    let nexts = values.map_values(|v: T| Event::<T, RxError>::Next(v));
    lemma_values_delivered(o, values);
    assert(of_events::<T, RxError>(values).drop_last() =~= nexts);
    assert(o.delivered@ + of_events(values) =~= (o.delivered@ + nexts).push(Event::Complete));
    lemma_feed_append(o, of_events(values), later);
    lemma_stopped_ignores(feed(o, of_events(values)), later);
}

/// Completing twice runs the completion handler once.
pub proof fn lemma_complete_once<T>(o: Observer<T>)
    requires
        !o.stopped,
    ensures
        feed(o, seq![Event::Complete, Event::Complete]).delivered@ == o.delivered@.push(
            Event::Complete,
        ),
        o.on_complete().on_complete() == o.on_complete(),
{
    let two = seq![Event::<T, RxError>::Complete, Event::Complete];
    assert(two.drop_last() =~= seq![Event::<T, RxError>::Complete]);
    assert(two.drop_last().drop_last() =~= Seq::<Event<T, RxError>>::empty());
    assert(feed(o, two.drop_last().drop_last()) == o);
    assert(feed(o, two.drop_last()) == o.on_complete());
    assert(feed(o, two) == o.on_complete().on_complete());
}

} // verus!
