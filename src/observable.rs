use vstd::prelude::*;

use crate::error::RxError;
use crate::event::{filter_events, map_events, next_values, Event};
use crate::handler::{
    image_of, lemma_pure_fn_accepts, pure_fn, Action, Producer, Teardown, Traced, Transform,
};
use crate::observer::{feed, Observer, ObserverLike};
use crate::operators::delay::{count_next, lemma_delay_feed, DelayObserver};
use crate::operators::filter::{lemma_filter_feed, FilterObserver};
use crate::operators::map::{lemma_map_feed, MapObserver};
use crate::subscription::{Subscription, Unsubscribable};

verus! {

/// The action to run once an observable's subscription is cancelled.
pub struct Unsubscriber {
    func: Box<dyn Teardown>,
    runs: Ghost<nat>,
}

impl Unsubscriber {
    /// The action can be run.
    pub closed spec fn callable(&self) -> bool {
        self.func.runnable()
    }

    /// What running the action from this state brings about.
    pub closed spec fn action_post(&self) -> bool {
        self.func.post()
    }

    /// How many times the action has run.
    pub closed spec fn runs(&self) -> nat {
        self.runs@
    }

    pub fn new<F: Teardown + 'static>(func: F) -> (r: Unsubscriber)
        requires
            func.runnable(),
        ensures
            r.callable(),
            r.runs() == 0,
            r.action_post() == func.post(),
    {
        Unsubscriber { func: Box::new(func), runs: Ghost(0) }
    }

    pub fn call(&mut self)
        requires
            old(self).callable(),
        ensures
            final(self).callable(),
            final(self).runs() == old(self).runs() + 1,
            old(self).action_post(),
    {
        self.func.teardown();
        self.runs = Ghost(self.runs@ + 1);
    }
}

/// Holds the producing logic of an observable.
#[verifier::reject_recursive_types(O)]
pub struct ObservableConstructor<'a, O: ObserverLike> {
    func: Box<dyn Producer<O> + 'a>,
}

impl<'a, O: ObserverLike> ObservableConstructor<'a, O> {
    /// The logic may be run on every observer whose handlers can be called.
    pub closed spec fn serves(&self) -> bool {
        forall|o: O| o.inv() ==> #[trigger] self.func.admits(o)
    }

    /// Run on `o`, the logic may return `u` and leave the observer as
    /// `after`.
    pub closed spec fn produced(&self, o: O, u: Unsubscriber, after: O) -> bool {
        self.func.produces(o, u, after)
    }

    pub fn new<F>(func: F) -> (r: ObservableConstructor<'a, O>) where
        F: Fn(O) -> Unsubscriber + 'a,

        requires
            forall|o: O| o.inv() ==> call_requires(func, (o,)),
            forall|o: O, u: Unsubscriber| #[trigger] call_ensures(func, (o,), u) ==> u.callable(),
        ensures
            r.serves(),
            forall|o: O, u: Unsubscriber, after: O| #[trigger]
                r.produced(o, u, after) == call_ensures(func, (o,), u),
    {
        ObservableConstructor { func: Box::new(func) }
    }

    /// Holds logic that reports the state it leaves its observer in.
    pub fn traced<F>(func: F) -> (r: ObservableConstructor<'a, O>) where
        F: Fn(O) -> (Unsubscriber, Ghost<O>) + 'a,

        requires
            forall|o: O| o.inv() ==> call_requires(func, (o,)),
            forall|o: O, p: (Unsubscriber, Ghost<O>)| #[trigger]
                call_ensures(func, (o,), p) ==> p.0.callable(),
        ensures
            r.serves(),
            forall|o: O, u: Unsubscriber, after: O| #[trigger]
                r.produced(o, u, after) == call_ensures(func, (o,), (u, Ghost(after))),
    {
        ObservableConstructor { func: Box::new(Traced(func)) }
    }

    /// Runs the logic on `observer`; returns its cancellation action and,
    /// as ghost, the state it left the observer in.
    pub fn call(&self, observer: O) -> (r: (Unsubscriber, Ghost<O>))
        requires
            self.serves(),
            observer.inv(),
        ensures
            r.0.callable(),
            self.produced(observer, r.0, r.1@),
    {
        self.func.produce(observer)
    }
}

/// A cold stream: each subscription runs the producing logic anew against
/// its own observer.
#[verifier::reject_recursive_types(O)]
pub struct Observable<'a, O: ObserverLike> {
    pub observer_fn: ObservableConstructor<'a, O>,
}

impl<'a, O: ObserverLike> Observable<'a, O> {
    /// The stream can be subscribed to by every observer whose handlers can
    /// be called.
    pub open spec fn wf(&self) -> bool {
        self.observer_fn.serves()
    }

    /// Every subscriber whose handlers can be called is handed exactly
    /// `events`, in order, before `subscribe` returns.
    pub open spec fn emits(&self, events: Seq<Event<O::Value, O::Error>>) -> bool {
        forall|o: O, u: Unsubscriber, after: O|
            o.inv() && #[trigger] self.observer_fn.produced(o, u, after) ==> {
                &&& after == feed(o, events)
                &&& after.inv()
            }
    }

    /// The logic has run at least once, on a subscriber whose handlers can
    /// be called.
    pub open spec fn has_run(&self) -> bool {
        exists|o: O, u: Unsubscriber, after: O|
            o.inv() && #[trigger] self.observer_fn.produced(o, u, after)
    }

    /// Once the logic has run, `f` has been run on each value of `events`,
    /// so that its result on each is known.
    pub open spec fn calls_on<T, U, F: Fn(&T) -> U>(&self, events: Seq<Event<T, RxError>>, f: F) -> bool {
        self.has_run() ==> forall|i: int|
            0 <= i < next_values(events).len() ==> call_ensures(
                f,
                (&next_values(events)[i],),
                image_of(f, #[trigger] next_values(events)[i]),
            )
    }

    pub fn new<F>(func: F) -> (r: Observable<'a, O>) where F: Fn(O) -> Unsubscriber + 'a
        requires
            forall|o: O| o.inv() ==> call_requires(func, (o,)),
            forall|o: O, u: Unsubscriber| #[trigger] call_ensures(func, (o,), u) ==> u.callable(),
        ensures
            r.wf(),
            forall|o: O, u: Unsubscriber, after: O| #[trigger]
                r.observer_fn.produced(o, u, after) == call_ensures(func, (o,), u),
    {
        Observable { observer_fn: ObservableConstructor::new(func) }
    }

    /// An observable whose logic reports, as ghost, the state it leaves its
    /// observer in.
    pub fn traced<F>(func: F) -> (r: Observable<'a, O>) where
        F: Fn(O) -> (Unsubscriber, Ghost<O>) + 'a,

        requires
            forall|o: O| o.inv() ==> call_requires(func, (o,)),
            forall|o: O, p: (Unsubscriber, Ghost<O>)| #[trigger]
                call_ensures(func, (o,), p) ==> p.0.callable(),
        ensures
            r.wf(),
            forall|o: O, u: Unsubscriber, after: O| #[trigger]
                r.observer_fn.produced(o, u, after) == call_ensures(func, (o,), (u, Ghost(after))),
    {
        Observable { observer_fn: ObservableConstructor::traced(func) }
    }
}

/// Every subscription of `r` cancels through one of `source`: the action
/// that `r`'s logic returns brings about what the action of a run of
/// `source`'s logic does.
pub open spec fn cancels_through<'a, 'b, O: ObserverLike, P: ObserverLike>(
    r: Observable<'a, O>,
    source: Observable<'b, P>,
) -> bool {
    forall|o: O, u: Unsubscriber, after: O|
        o.inv() && #[trigger] r.observer_fn.produced(o, u, after) ==> exists|
            p: P,
            v: Unsubscriber,
            p_after: P,
        |
            #![trigger source.observer_fn.produced(p, v, p_after)]
            p.inv() && source.observer_fn.produced(p, v, p_after) && u.action_post()
                == v.action_post()
}

/// In every run of `r`, `source` was run on a delay observer that, over
/// `events`, ran one wait of `delay` milliseconds through `wait` per value.
pub open spec fn delays<'a, 'b, O: ObserverLike, W: Fn(&u64)>(
    r: Observable<'a, O>,
    source: Observable<'b, DelayObserver<O>>,
    events: Seq<Event<O::Value, O::Error>>,
    delay: u64,
    wait: W,
) -> bool {
    forall|o: O, u: Unsubscriber, after: O|
        o.inv() && #[trigger] r.observer_fn.produced(o, u, after) ==> exists|
            m: DelayObserver<O>,
            v: Unsubscriber,
            m_after: DelayObserver<O>,
        |
            #![trigger source.observer_fn.produced(m, v, m_after)]
            {
                &&& m.inv()
                &&& m.delay == delay
                &&& m.waits@ == 0
                &&& source.observer_fn.produced(m, v, m_after)
                &&& m_after.waits@ == count_next(events)
                &&& count_next(events) > 0 ==> call_ensures(wait, (&delay,), ())
            }
}

/// A source that observers can subscribe to.
pub trait ObservableLike<'a> {
    type Observer: ObserverLike;

    type Subscription: Unsubscribable;

    spec fn wf(&self) -> bool;

    fn subscribe(&'a self, observer: Self::Observer) -> (r: Self::Subscription)
        requires
            self.wf(),
            observer.inv(),
        ensures
            r.can_unsubscribe(),
            !r.is_closed(),
    ;
}

impl<'a, O: ObserverLike> ObservableLike<'a> for Observable<'a, O> {
    type Observer = O;

    type Subscription = Subscription;

    open spec fn wf(&self) -> bool {
        self.observer_fn.serves()
    }

    fn subscribe(&'a self, observer: O) -> (r: Subscription) {
        Observable::subscribe(self, observer)
    }
}

impl<'a, O: ObserverLike> Observable<'a, O> {
    /// Runs the producing logic against `observer` and returns the
    /// subscription that can cancel it, with, as ghost, the state the logic
    /// left the observer in.
    pub fn subscribe_traced(&self, observer: O) -> (r: (Subscription, Ghost<O>))
        requires
            self.wf(),
            observer.inv(),
        ensures
            r.0.can_unsubscribe(),
            !r.0.closed,
            self.observer_fn.produced(observer, r.0.unsubscriber, r.1@),
    {
        let (unsubscriber, after) = self.observer_fn.call(observer);
        (Subscription::new(unsubscriber), after)
    }

    /// Runs the producing logic against `observer` and returns the
    /// subscription that can cancel it.
    pub fn subscribe(&self, observer: O) -> (r: Subscription)
        requires
            self.wf(),
            observer.inv(),
        ensures
            r.can_unsubscribe(),
            !r.closed,
            exists|after: O| #[trigger] self.observer_fn.produced(observer, r.unsubscriber, after),
    {
        let (subscription, _after) = self.subscribe_traced(observer);
        subscription
    }

    /// Hands this observable to `operator` and returns what it builds: the
    /// point where operator chains are composed.
    pub fn pipe<R, F>(self, operator: F) -> (r: R) where F: FnOnce(Observable<'a, O>) -> R
        requires
            call_requires(operator, (self,)),
        ensures
            call_ensures(operator, (self,), r),
    {
        operator(self)
    }
}

impl<'a, T: 'a, U: 'a, D: ObserverLike<Value = U, Error = RxError> + 'a> Observable<
    'a,
    MapObserver<T, U, D>,
> {
    /// An observable whose subscribers receive each value of this one
    /// passed through `predicate`; errors and completion pass unchanged.
    pub fn map<F>(self, predicate: F) -> (r: Observable<'a, D>) where
        F: Fn(&T) -> U + Send + Copy + 'static,

        requires
            self.wf(),
            pure_fn(predicate),
        ensures
            r.wf(),
            forall|events: Seq<Event<T, RxError>>| #[trigger]
                self.emits(events) ==> r.emits(map_events(events, |t: T| image_of(predicate, t)))
                    && r.calls_on(events, predicate),
            r.has_run() ==> self.has_run(),
            cancels_through(r, self),
    {
        proof {
            lemma_pure_fn_accepts(predicate);
        }
        let ghost f = |t: T| image_of(predicate, t);
        let source = self;
        let producer = move |destination: D| -> (p: (Unsubscriber, Ghost<D>))
            requires
                source.wf(),
                forall|t: T| predicate.accepts(t),
                destination.inv(),
            ensures
                p.0.callable(),
                source.has_run(),
                exists|m: MapObserver<T, U, D>, v: Unsubscriber, m_after: MapObserver<T, U, D>|
                    #![trigger source.observer_fn.produced(m, v, m_after)]
                    m.inv() && source.observer_fn.produced(m, v, m_after) && p.0.action_post()
                        == v.action_post(),
                forall|events: Seq<Event<T, RxError>>| #[trigger]
                    source.emits(events) ==> {
                        &&& p.1@ == feed(destination, map_events(events, |t: T| image_of(predicate, t)))
                        &&& p.1@.inv()
                        &&& forall|i: int|
                            0 <= i < next_values(events).len() ==> call_ensures(
                                predicate,
                                (&next_values(events)[i],),
                                image_of(predicate, #[trigger] next_values(events)[i]),
                            )
                    },
            {
                let map_observer = MapObserver::new(destination, predicate);
                let ghost m = map_observer;
                let (subscription, after) = source.subscribe_traced(map_observer);
                proof {
                    assert(m.mapping() =~= (|t: T| image_of(predicate, t)));
                    assert forall|events: Seq<Event<T, RxError>>| #[trigger]
                        source.emits(events) implies {
                        &&& after@.destination == feed(
                            destination,
                            map_events(events, |t: T| image_of(predicate, t)),
                        )
                        &&& after@.destination.inv()
                        &&& forall|i: int|
                            0 <= i < next_values(events).len() ==> call_ensures(
                                predicate,
                                (&next_values(events)[i],),
                                image_of(predicate, #[trigger] next_values(events)[i]),
                            )
                    } by {
                        lemma_map_feed(m, events);
                        assert forall|i: int| 0 <= i < next_values(events).len() implies call_ensures(
                            predicate,
                            (&next_values(events)[i],),
                            image_of(predicate, #[trigger] next_values(events)[i]),
                        ) by {
                            assert(after@.mapped@[i] == next_values(events)[i]);
                        }
                    }
                }
                (Unsubscriber::new(subscription), Ghost(after@.destination))
            };
        Observable::traced(producer)
    }
}

impl<'a, T: 'a, O: ObserverLike<Value = T, Error = RxError> + 'a> Observable<
    'a,
    FilterObserver<T, O>,
> {
    /// An observable whose subscribers receive the values of this one that
    /// satisfy `predicate`; errors and completion pass unchanged.
    pub fn filter<F>(self, predicate: F) -> (r: Observable<'a, O>) where
        F: Fn(&T) -> bool + Send + Copy + 'static,

        requires
            self.wf(),
            pure_fn(predicate),
        ensures
            r.wf(),
            forall|events: Seq<Event<T, RxError>>| #[trigger]
                self.emits(events) ==> r.emits(filter_events(events, |t: T| image_of(predicate, t)))
                    && r.calls_on(events, predicate),
            r.has_run() ==> self.has_run(),
            cancels_through(r, self),
    {
        proof {
            lemma_pure_fn_accepts(predicate);
        }
        let source = self;
        let producer = move |destination: O| -> (p: (Unsubscriber, Ghost<O>))
            requires
                source.wf(),
                forall|t: T| predicate.accepts(t),
                destination.inv(),
            ensures
                p.0.callable(),
                source.has_run(),
                exists|m: FilterObserver<T, O>, v: Unsubscriber, m_after: FilterObserver<T, O>|
                    #![trigger source.observer_fn.produced(m, v, m_after)]
                    m.inv() && source.observer_fn.produced(m, v, m_after) && p.0.action_post()
                        == v.action_post(),
                forall|events: Seq<Event<T, RxError>>| #[trigger]
                    source.emits(events) ==> {
                        &&& p.1@ == feed(destination, filter_events(events, |t: T| image_of(predicate, t)))
                        &&& p.1@.inv()
                        &&& forall|i: int|
                            0 <= i < next_values(events).len() ==> call_ensures(
                                predicate,
                                (&next_values(events)[i],),
                                image_of(predicate, #[trigger] next_values(events)[i]),
                            )
                    },
            {
                let filter_observer = FilterObserver::new(destination, predicate);
                let ghost m = filter_observer;
                let (subscription, after) = source.subscribe_traced(filter_observer);
                proof {
                    assert(m.keeps() =~= (|t: T| image_of(predicate, t)));
                    assert forall|events: Seq<Event<T, RxError>>| #[trigger]
                        source.emits(events) implies {
                        &&& after@.destination == feed(
                            destination,
                            filter_events(events, |t: T| image_of(predicate, t)),
                        )
                        &&& after@.destination.inv()
                        &&& forall|i: int|
                            0 <= i < next_values(events).len() ==> call_ensures(
                                predicate,
                                (&next_values(events)[i],),
                                image_of(predicate, #[trigger] next_values(events)[i]),
                            )
                    } by {
                        lemma_filter_feed(m, events);
                        assert forall|i: int| 0 <= i < next_values(events).len() implies call_ensures(
                            predicate,
                            (&next_values(events)[i],),
                            image_of(predicate, #[trigger] next_values(events)[i]),
                        ) by {
                            assert(after@.checked@[i] == next_values(events)[i]);
                        }
                    }
                }
                (Unsubscriber::new(subscription), Ghost(after@.destination))
            };
        Observable::traced(producer)
    }
}

impl<'a, O: ObserverLike + 'a> Observable<'a, DelayObserver<O>> {
    /// An observable whose subscribers receive the events of this one
    /// unchanged, each value after `wait` has been called with `value`
    /// milliseconds.
    pub fn delay<W>(self, value: u64, wait: W) -> (r: Observable<'a, O>) where
        W: Fn(&u64) + Send + Copy + 'static,

        requires
            self.wf(),
            call_requires(wait, (&value,)),
        ensures
            r.wf(),
            forall|events: Seq<Event<O::Value, O::Error>>| #[trigger]
                self.emits(events) ==> r.emits(events) && delays(r, self, events, value, wait),
            r.has_run() ==> self.has_run(),
            cancels_through(r, self),
    {
        let source = self;
        let producer = move |destination: O| -> (p: (Unsubscriber, Ghost<O>))
            requires
                source.wf(),
                call_requires(wait, (&value,)),
                destination.inv(),
            ensures
                p.0.callable(),
                source.has_run(),
                exists|m: DelayObserver<O>, v: Unsubscriber, m_after: DelayObserver<O>|
                    #![trigger source.observer_fn.produced(m, v, m_after)]
                    m.inv() && source.observer_fn.produced(m, v, m_after) && p.0.action_post()
                        == v.action_post(),
                forall|events: Seq<Event<O::Value, O::Error>>| #[trigger]
                    source.emits(events) ==> p.1@ == feed(destination, events) && p.1@.inv() && exists|
                        m: DelayObserver<O>,
                        v: Unsubscriber,
                        m_after: DelayObserver<O>,
                    |
                        #![trigger source.observer_fn.produced(m, v, m_after)]
                        {
                            &&& m.inv()
                            &&& m.delay == value
                            &&& m.waits@ == 0
                            &&& source.observer_fn.produced(m, v, m_after)
                            &&& m_after.waits@ == count_next(events)
                            &&& count_next(events) > 0 ==> call_ensures(wait, (&value,), ())
                        },
            {
                let delay_observer = DelayObserver::new(destination, value, wait);
                let ghost m = delay_observer;
                let (subscription, after) = source.subscribe_traced(delay_observer);
                proof {
                    assert forall|events: Seq<Event<O::Value, O::Error>>| #[trigger]
                        source.emits(events) implies after@.destination == feed(
                        destination,
                        events,
                    ) && after@.destination.inv() && exists|
                        m2: DelayObserver<O>,
                        v: Unsubscriber,
                        m_after: DelayObserver<O>,
                    |
                        #![trigger source.observer_fn.produced(m2, v, m_after)]
                        {
                            &&& m2.inv()
                            &&& m2.delay == value
                            &&& m2.waits@ == 0
                            &&& source.observer_fn.produced(m2, v, m_after)
                            &&& m_after.waits@ == count_next(events)
                            &&& count_next(events) > 0 ==> call_ensures(wait, (&value,), ())
                        } by {
                        lemma_delay_feed(m, events);
                        assert(source.observer_fn.produced(m, subscription.unsubscriber, after@));
                    }
                }
                (Unsubscriber::new(subscription), Ghost(after@.destination))
            };
        Observable::traced(producer)
    }
}

impl<'a, T: 'a> Observable<'a, Observer<T>> {
    /// Subscribes with a handler for values alone.
    pub fn subscribe_next<N>(&self, next: N) -> (r: Subscription) where
        N: Fn(&T) + Send + 'static,

        requires
            self.wf(),
            forall|v: T| call_requires(next, (&v,)),
        ensures
            r.can_unsubscribe(),
            !r.closed,
            exists|o: Observer<T>, after: Observer<T>|
                #![trigger self.observer_fn.produced(o, r.unsubscriber, after)]
                o.fresh() && o.holds_next(next)
                    && self.observer_fn.produced(o, r.unsubscriber, after),
    {
        self.subscribe_all(next, |_e: &RxError| {}, || {})
    }

    /// Subscribes with a handler for errors alone.
    pub fn subscribe_error<E>(&self, error: E) -> (r: Subscription) where
        E: Fn(&RxError) + Send + 'static,

        requires
            self.wf(),
            forall|e: RxError| call_requires(error, (&e,)),
        ensures
            r.can_unsubscribe(),
            !r.closed,
            exists|o: Observer<T>, after: Observer<T>|
                #![trigger self.observer_fn.produced(o, r.unsubscriber, after)]
                o.fresh() && o.holds_error(error)
                    && self.observer_fn.produced(o, r.unsubscriber, after),
    {
        self.subscribe_all(|_v: &T| {}, error, || {})
    }

    /// Subscribes with a handler for the completion alone.
    pub fn subscribe_complete<C>(&self, complete: C) -> (r: Subscription) where
        C: Fn() + Send + 'static,

        requires
            self.wf(),
            call_requires(complete, ()),
        ensures
            r.can_unsubscribe(),
            !r.closed,
            exists|o: Observer<T>, after: Observer<T>|
                #![trigger self.observer_fn.produced(o, r.unsubscriber, after)]
                o.fresh() && o.holds_complete(complete)
                    && self.observer_fn.produced(o, r.unsubscriber, after),
    {
        self.subscribe_all(|_v: &T| {}, |_e: &RxError| {}, complete)
    }

    /// Subscribes with an observer built from the three handlers.
    pub fn subscribe_all<N, E, C>(&self, next: N, error: E, complete: C) -> (r: Subscription) where
        N: Fn(&T) + Send + 'static,
        E: Fn(&RxError) + Send + 'static,
        C: Fn() + Send + 'static,

        requires
            self.wf(),
            forall|v: T| call_requires(next, (&v,)),
            forall|e: RxError| call_requires(error, (&e,)),
            call_requires(complete, ()),
        ensures
            r.can_unsubscribe(),
            !r.closed,
            exists|o: Observer<T>, after: Observer<T>|
                #![trigger self.observer_fn.produced(o, r.unsubscriber, after)]
                o.fresh() && o.holds(next, error, complete) && self.observer_fn.produced(
                    o,
                    r.unsubscriber,
                    after,
                ),
    {
        let subscriber = Observer::<T>::new(next, error, complete);
        let ghost o = subscriber;
        let (subscription, after) = self.subscribe_traced(subscriber);
        assert(self.observer_fn.produced(o, subscription.unsubscriber, after@));
        subscription
    }
}

} // verus!
