use vstd::prelude::*;

use crate::error::RxError;
use crate::event::Event;
use crate::handler::{Action, Transform};

verus! {

/// The three-method sink of a subscriber, described, as for
/// `ObserverLike`, by the state that follows each event.
pub trait Observer: Sized {
    type Value;
    type Error;

    /// The handlers can be called.
    spec fn inv(&self) -> bool;

    spec fn on_next(self, value: Self::Value) -> Self;

    spec fn on_error(self, e: Self::Error) -> Self;

    spec fn on_complete(self) -> Self;

    fn next(&mut self, value: &Self::Value)
        requires
            old(self).inv(),
        ensures
            *final(self) == old(self).on_next(*value),
            final(self).inv(),
    ;

    fn error(&mut self, e: &Self::Error)
        requires
            old(self).inv(),
        ensures
            *final(self) == old(self).on_error(*e),
            final(self).inv(),
    ;

    fn complete(&mut self)
        requires
            old(self).inv(),
        ensures
            *final(self) == old(self).on_complete(),
            final(self).inv(),
    ;
}

/// A subscriber built from three handlers. Once it has completed it stops:
/// later events reach no handler. An error does not stop it.
#[verifier::reject_recursive_types(T)]
pub struct Subscriber<T> {
    pub next_fn: Box<dyn Transform<T, ()>>,
    pub error_fn: Box<dyn Transform<RxError, ()>>,
    pub complete_fn: Box<dyn Action>,
    pub stopped: bool,
    /// The events handed to the handlers so far, in order.
    pub delivered: Ghost<Seq<Event<T, RxError>>>,
}

impl<T> Subscriber<T> {
    /// The stored value handler is `next`: running it brings about exactly
    /// what running `next` does.
    pub open spec fn holds_next<N: Fn(&T)>(&self, next: N) -> bool {
        forall|v: T, u: ()| #[trigger] self.next_fn.post(v, u) == call_ensures(next, (&v,), u)
    }

    /// The stored error handler is `error`.
    pub open spec fn holds_error<E: Fn(&RxError)>(&self, error: E) -> bool {
        forall|e: RxError, u: ()| #[trigger] self.error_fn.post(e, u) == call_ensures(
            error,
            (&e,),
            u,
        )
    }

    /// The stored completion handler is `complete`.
    pub open spec fn holds_complete<C: Fn()>(&self, complete: C) -> bool {
        self.complete_fn.post() == call_ensures(complete, (), ())
    }

    /// The stored handlers are `next`, `error` and `complete`.
    pub open spec fn holds<N: Fn(&T), E: Fn(&RxError), C: Fn()>(
        &self,
        next: N,
        error: E,
        complete: C,
    ) -> bool {
        &&& self.holds_next(next)
        &&& self.holds_error(error)
        &&& self.holds_complete(complete)
    }

    pub fn new<N, E, C>(next: N, error: E, complete: C) -> (r: Subscriber<T>) where
        N: Fn(&T) + Send + 'static,
        E: Fn(&RxError) + Send + 'static,
        C: Fn() + Send + 'static,

        requires
            forall|v: T| call_requires(next, (&v,)),
            forall|e: RxError| call_requires(error, (&e,)),
            call_requires(complete, ()),
        ensures
            r.inv(),
            !r.stopped,
            r.delivered@ == Seq::<Event<T, RxError>>::empty(),
            r.holds(next, error, complete),
    {
        Subscriber {
            next_fn: Box::new(next),
            error_fn: Box::new(error),
            complete_fn: Box::new(complete),
            stopped: false,
            delivered: Ghost(Seq::empty()),
        }
    }
}

impl<T> Observer for Subscriber<T> {
    type Value = T;
    type Error = RxError;

    open spec fn inv(&self) -> bool {
        &&& forall|v: T| self.next_fn.accepts(v)
        &&& forall|e: RxError| self.error_fn.accepts(e)
        &&& self.complete_fn.ready()
    }

    open spec fn on_next(self, value: T) -> Self {
        if self.stopped {
            self
        } else {
            Subscriber { delivered: Ghost(self.delivered@.push(Event::Next(value))), ..self }
        }
    }

    open spec fn on_error(self, e: RxError) -> Self {
        if self.stopped {
            self
        } else {
            Subscriber { delivered: Ghost(self.delivered@.push(Event::Error(e))), ..self }
        }
    }

    open spec fn on_complete(self) -> Self {
        if self.stopped {
            self
        } else {
            Subscriber {
                stopped: true,
                delivered: Ghost(self.delivered@.push(Event::Complete)),
                ..self
            }
        }
    }

    fn next(&mut self, t: &T)
        ensures
            !old(self).stopped ==> old(self).next_fn.post(*t, ()),
    {
        if !self.stopped {
            self.next_fn.apply(t);
            self.delivered = Ghost(self.delivered@.push(Event::Next(*t)));
        }
    }

    fn error(&mut self, e: &RxError)
        ensures
            !old(self).stopped ==> old(self).error_fn.post(*e, ()),
    {
        if !self.stopped {
            self.error_fn.apply(e);
            self.delivered = Ghost(self.delivered@.push(Event::Error(*e)));
        }
    }

    fn complete(&mut self)
        ensures
            !old(self).stopped ==> old(self).complete_fn.post(),
    {
        if !self.stopped {
            self.stopped = true;
            self.complete_fn.run();
            self.delivered = Ghost(self.delivered@.push(Event::Complete));
        }
    }
}

} // verus!
