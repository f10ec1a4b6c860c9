use vstd::prelude::*;

use crate::error::RxError;
use crate::event::Event;
use crate::observer::{feed, step, Observer, ObserverLike};
use crate::subscription::{SubjectSubscription, Unsubscribable};

verus! {

/// The subscriber slots of a subject, first subscribed first. A slot that
/// was unsubscribed holds `None` and keeps its place, so that the index of
/// every other slot stays valid.
pub enum Registry<O> {
    Empty,
    Slot(Option<O>, Box<Registry<O>>),
}

impl<O: ObserverLike> Registry<O> {
    /// The slots in order.
    pub open spec fn view(&self) -> Seq<Option<O>>
        decreases self,
    {
        match self {
            Registry::Empty => Seq::empty(),
            Registry::Slot(slot, rest) => seq![*slot] + rest.view(),
        }
    }

    /// Every live slot's handlers can be called.
    pub open spec fn live_inv(&self) -> bool
        decreases self,
    {
        match self {
            Registry::Empty => true,
            Registry::Slot(slot, rest) => {
                &&& (slot is Some ==> slot->Some_0.inv())
                &&& rest.live_inv()
            },
        }
    }

    pub open spec fn on_next_all(self, value: O::Value) -> Registry<O>
        decreases self,
    {
        match self {
            Registry::Empty => Registry::Empty,
            Registry::Slot(slot, rest) => Registry::Slot(
                slot_step(slot, Event::Next(value)),
                Box::new(rest.on_next_all(value)),
            ),
        }
    }

    pub open spec fn on_error_all(self, e: O::Error) -> Registry<O>
        decreases self,
    {
        match self {
            Registry::Empty => Registry::Empty,
            Registry::Slot(slot, rest) => Registry::Slot(
                slot_step(slot, Event::Error(e)),
                Box::new(rest.on_error_all(e)),
            ),
        }
    }

    pub open spec fn on_complete_all(self) -> Registry<O>
        decreases self,
    {
        match self {
            Registry::Empty => Registry::Empty,
            Registry::Slot(slot, rest) => Registry::Slot(
                slot_step(slot, Event::Complete),
                Box::new(rest.on_complete_all()),
            ),
        }
    }

    /// The registry with slot `i` emptied; unchanged when there is no slot
    /// `i`.
    pub open spec fn without(self, i: int) -> Registry<O>
        decreases self,
    {
        match self {
            Registry::Empty => Registry::Empty,
            Registry::Slot(slot, rest) => if i == 0 {
                Registry::Slot(None, rest)
            } else {
                Registry::Slot(slot, Box::new(rest.without(i - 1)))
            },
        }
    }

    /// The registry with `slot` added last.
    pub open spec fn with_last(self, slot: Option<O>) -> Registry<O>
        decreases self,
    {
        match self {
            Registry::Empty => Registry::Slot(slot, Box::new(Registry::Empty)),
            Registry::Slot(first, rest) => Registry::Slot(
                first,
                Box::new(rest.with_last(slot)),
            ),
        }
    }

    /// The number of slots, live or not.
    pub fn len(&self) -> (r: usize)
        requires
            self.view().len() <= usize::MAX,
        ensures
            r == self.view().len(),
        decreases self,
    {
        match self {
            Registry::Empty => 0,
            Registry::Slot(_, rest) => 1 + rest.len(),
        }
    }

    /// Adds `slot` after the others and returns its index.
    pub fn push(&mut self, slot: Option<O>) -> (r: usize)
        requires
            old(self).view().len() < usize::MAX,
        ensures
            *final(self) == old(self).with_last(slot),
            r == old(self).view().len(),
        decreases old(self).view().len(),
    {
        match self {
            Registry::Empty => {
                *self = Registry::Slot(slot, Box::new(Registry::Empty));
                0
            },
            Registry::Slot(_, rest) => 1 + rest.push(slot),
        }
    }

    /// Empties slot `i`, if there is one.
    pub fn tombstone(&mut self, i: usize)
        ensures
            *final(self) == old(self).without(i as int),
        decreases old(self).view().len(),
    {
        match self {
            Registry::Empty => {},
            Registry::Slot(slot, rest) => {
                if i == 0 {
                    *slot = None;
                } else {
                    rest.tombstone(i - 1);
                }
            },
        }
    }

    fn next_all(&mut self, value: &O::Value)
        requires
            old(self).live_inv(),
        ensures
            *final(self) == old(self).on_next_all(*value),
            final(self).live_inv(),
        decreases old(self).view().len(),
    {
        match self {
            Registry::Empty => {},
            Registry::Slot(slot, rest) => {
                if let Some(o) = slot {
                    o.next(value);
                }
                rest.next_all(value);
            },
        }
    }

    fn error_all(&mut self, e: &O::Error)
        requires
            old(self).live_inv(),
        ensures
            *final(self) == old(self).on_error_all(*e),
            final(self).live_inv(),
        decreases old(self).view().len(),
    {
        match self {
            Registry::Empty => {},
            Registry::Slot(slot, rest) => {
                if let Some(o) = slot {
                    o.error(e);
                }
                rest.error_all(e);
            },
        }
    }

    fn complete_all(&mut self)
        requires
            old(self).live_inv(),
        ensures
            *final(self) == old(self).on_complete_all(),
            final(self).live_inv(),
        decreases old(self).view().len(),
    {
        match self {
            Registry::Empty => {},
            Registry::Slot(slot, rest) => {
                if let Some(o) = slot {
                    o.complete();
                }
                rest.complete_all();
            },
        }
    }
}

/// A hot stream: it is itself an observer, and hands each event it is
/// given to every live subscriber, in the order they subscribed. Once
/// closed it does nothing more.
pub struct Subject<O: ObserverLike> {
    pub closed: bool,
    pub observers: Registry<O>,
}

impl<O: ObserverLike> Subject<O> {
    /// Every live subscriber's handlers can be called, and a closed subject
    /// holds no subscriber.
    pub open spec fn wf(&self) -> bool {
        &&& self.observers.live_inv()
        &&& self.closed ==> self.observers == Registry::<O>::Empty
    }

    pub fn new() -> (r: Subject<O>)
        ensures
            !r.closed,
            r.observers.view() == Seq::<Option<O>>::empty(),
            r.inv(),
    {
        Subject { closed: false, observers: Registry::Empty }
    }

    /// Adds `observer` as the last subscriber, unless the subject is closed,
    /// and returns the subscription for its slot; a closed subject returns
    /// a subscription that is closed already.
    pub fn subscribe(&mut self, observer: O) -> (r: SubjectSubscription)
        requires
            old(self).inv(),
            observer.inv(),
            old(self).observers.view().len() < usize::MAX,
        ensures
            final(self).inv(),
            old(self).closed ==> *final(self) == *old(self) && r.closed,
            !old(self).closed ==> {
                &&& *final(self) == (Subject {
                    observers: old(self).observers.with_last(Some(observer)),
                    ..*old(self)
                })
                &&& !r.closed
                &&& r.item == old(self).observers.view().len()
            },
    {
        if self.closed {
            SubjectSubscription { closed: true, item: 0 }
        } else {
            proof {
                lemma_with_last_live(self.observers, Some(observer));
            }
            let item = self.observers.push(Some(observer));
            SubjectSubscription { closed: false, item }
        }
    }

    /// Empties the slot of `subscription` and closes it; the subject and
    /// its other slots are untouched.
    pub fn unsubscribe_slot(&mut self, subscription: &mut SubjectSubscription)
        requires
            old(self).inv(),
        ensures
            final(self).inv(),
            final(subscription).closed,
            final(subscription).item == old(subscription).item,
            old(subscription).closed ==> *final(self) == *old(self),
            !old(subscription).closed ==> *final(self) == (Subject {
                observers: old(self).observers.without(old(subscription).item as int),
                ..*old(self)
            }),
    {
        proof {
            lemma_without_live(self.observers, subscription.item as int);
        }
        subscription.unsubscribe(&mut self.observers);
    }
}

/// `after` is `before` with one more subscriber, a fresh observer, in a new
/// last slot that `r` refers to; or, when `before` was closed, `after` is
/// `before` and `r` is closed.
pub open spec fn subscribed_fresh<T>(
    before: Subject<Observer<T>>,
    after: Subject<Observer<T>>,
    r: SubjectSubscription,
) -> bool {
    if before.closed {
        after == before && r.closed
    } else {
        &&& after.closed == before.closed
        &&& after.observers.view() == before.observers.view().push(after.observers.view().last())
        &&& after.observers.view().last() is Some
        &&& !after.observers.view().last()->Some_0.stopped
        &&& after.observers.view().last()->Some_0.delivered@ == Seq::<Event<T, RxError>>::empty()
        &&& !r.closed
        &&& r.item == before.observers.view().len()
    }
}

impl<T> Subject<Observer<T>> {
    pub fn subscribe_next<N>(&mut self, next: N) -> (r: SubjectSubscription) where
        N: Fn(&T) + Send + 'static,

        requires
            old(self).inv(),
            forall|v: T| call_requires(next, (&v,)),
            old(self).observers.view().len() < usize::MAX,
        ensures
            final(self).inv(),
            subscribed_fresh(*old(self), *final(self), r),
            !old(self).closed ==> final(self).observers.view().last()->Some_0.holds_next(next),
    {
        self.subscribe_all(next, |_e: &RxError| {}, || {})
    }

    pub fn subscribe_error<E>(&mut self, error: E) -> (r: SubjectSubscription) where
        E: Fn(&RxError) + Send + 'static,

        requires
            old(self).inv(),
            forall|e: RxError| call_requires(error, (&e,)),
            old(self).observers.view().len() < usize::MAX,
        ensures
            final(self).inv(),
            subscribed_fresh(*old(self), *final(self), r),
            !old(self).closed ==> final(self).observers.view().last()->Some_0.holds_error(error),
    {
        self.subscribe_all(|_v: &T| {}, error, || {})
    }

    pub fn subscribe_complete<C>(&mut self, complete: C) -> (r: SubjectSubscription) where
        C: Fn() + Send + 'static,

        requires
            old(self).inv(),
            call_requires(complete, ()),
            old(self).observers.view().len() < usize::MAX,
        ensures
            final(self).inv(),
            subscribed_fresh(*old(self), *final(self), r),
            !old(self).closed ==> final(self).observers.view().last()->Some_0.holds_complete(complete),
    {
        self.subscribe_all(|_v: &T| {}, |_e: &RxError| {}, complete)
    }

    /// Subscribes an observer built from the three handlers.
    pub fn subscribe_all<N, E, C>(&mut self, next_handler: N, error_handler: E, complete_handler: C) -> (r:
        SubjectSubscription) where
        N: Fn(&T) + Send + 'static,
        E: Fn(&RxError) + Send + 'static,
        C: Fn() + Send + 'static,

        requires
            old(self).inv(),
            forall|v: T| call_requires(next_handler, (&v,)),
            forall|e: RxError| call_requires(error_handler, (&e,)),
            call_requires(complete_handler, ()),
            old(self).observers.view().len() < usize::MAX,
        ensures
            final(self).inv(),
            subscribed_fresh(*old(self), *final(self), r),
            !old(self).closed ==> final(self).observers.view().last()->Some_0.holds(next_handler, error_handler, complete_handler),
    {
        let observer = Observer::<T>::new(next_handler, error_handler, complete_handler);
        proof {
            lemma_with_last_view(self.observers, Some(observer));
        }
        self.subscribe(observer)
    }
}

impl<O: ObserverLike> ObserverLike for Subject<O> {
    type Value = O::Value;
    type Error = O::Error;

    open spec fn inv(&self) -> bool {
        self.wf()
    }

    open spec fn on_next(self, value: O::Value) -> Self {
        if self.closed {
            self
        } else {
            Subject { observers: self.observers.on_next_all(value), ..self }
        }
    }

    open spec fn on_error(self, e: O::Error) -> Self {
        if self.closed {
            self
        } else {
            Subject { observers: self.observers.on_error_all(e), ..self }
        }
    }

    open spec fn on_complete(self) -> Self {
        if self.closed {
            self
        } else {
            Subject { observers: self.observers.on_complete_all(), ..self }
        }
    }

    fn next(&mut self, value: &O::Value) {
        if !self.closed {
            self.observers.next_all(value);
        }
    }

    fn error(&mut self, e: &O::Error) {
        if !self.closed {
            self.observers.error_all(e);
        }
    }

    fn complete(&mut self) {
        if !self.closed {
            self.observers.complete_all();
        }
    }
}

impl<O: ObserverLike> Unsubscribable for Subject<O> {
    open spec fn can_unsubscribe(&self) -> bool {
        self.wf()
    }

    open spec fn is_closed(&self) -> bool {
        self.closed
    }

    /// Closes the subject for good and drops every subscriber.
    fn unsubscribe(&mut self)
        ensures
            final(self).closed,
            final(self).observers.view() == Seq::<Option<O>>::empty(),
            old(self).closed ==> *final(self) == *old(self),
    {
        if !self.closed {
            self.closed = true;
            self.observers = Registry::Empty;
        }
    }
}

/// Adding a live slot keeps every live slot's handlers callable.
pub proof fn lemma_with_last_live<O: ObserverLike>(r: Registry<O>, slot: Option<O>)
    requires
        r.live_inv(),
        slot is Some ==> slot->Some_0.inv(),
    ensures
        r.with_last(slot).live_inv(),
    decreases r,
{
    if let Registry::Slot(_, rest) = r {
        lemma_with_last_live(*rest, slot);
    }
}

/// Emptying a slot keeps every live slot's handlers callable.
pub proof fn lemma_without_live<O: ObserverLike>(r: Registry<O>, i: int)
    requires
        r.live_inv(),
    ensures
        r.without(i).live_inv(),
    decreases r,
{
    if let Registry::Slot(_, rest) = r {
        if i != 0 {
            lemma_without_live(*rest, i - 1);
        }
    }
}

/// Adding a slot appends it to the slots in order.
pub proof fn lemma_with_last_view<O: ObserverLike>(r: Registry<O>, slot: Option<O>)
    ensures
        r.with_last(slot).view() == r.view().push(slot),
    decreases r,
{
    if let Registry::Slot(first, rest) = r {
        lemma_with_last_view(*rest, slot);
        assert(seq![first] + rest.view().push(slot) =~= (seq![first] + rest.view()).push(slot));
    }
}

/// A slot after `event` has been handed to it.
pub open spec fn slot_step<O: ObserverLike>(slot: Option<O>, event: Event<O::Value, O::Error>) -> Option<
    O,
> {
    match slot {
        Some(o) => Some(step(o, event)),
        None => None,
    }
}

/// A slot after `events` have been handed to it.
pub open spec fn slot_feed<O: ObserverLike>(
    slot: Option<O>,
    events: Seq<Event<O::Value, O::Error>>,
) -> Option<O> {
    match slot {
        Some(o) => Some(feed(o, events)),
        None => None,
    }
}

/// Handing one event to a registry hands it to each slot in place.
pub proof fn lemma_registry_step<O: ObserverLike>(
    r: Registry<O>,
    s: Subject<O>,
    event: Event<O::Value, O::Error>,
)
    requires
        !s.closed,
        s.observers == r,
    ensures
        step(s, event).observers.view().len() == r.view().len(),
        !step(s, event).closed,
        forall|k: int|
            0 <= k < r.view().len() ==> step(s, event).observers.view()[k] == slot_step(
                r.view()[k],
                event,
            ),
    decreases r,
{
    if let Registry::Slot(first, rest) = r {
        let inner = Subject { closed: false, observers: *rest };
        lemma_registry_step(*rest, inner, event);
        assert forall|k: int| 0 <= k < r.view().len() implies step(s, event).observers.view()[k]
            == slot_step(r.view()[k], event) by {
            if k > 0 {
                assert(step(s, event).observers.view()[k] == step(
                    inner,
                    event,
                ).observers.view()[k - 1]);
            }
        }
    }
}

/// Emptying slot `i` empties it and leaves the others.
pub proof fn lemma_without_view<O: ObserverLike>(r: Registry<O>, i: int)
    requires
        0 <= i < r.view().len(),
    ensures
        r.without(i).view() == r.view().update(i, None),
    decreases r,
{
    if let Registry::Slot(first, rest) = r {
        if i > 0 {
            lemma_without_view(*rest, i - 1);
        }
        assert(r.without(i).view() =~= r.view().update(i, None));
    }
}

/// An open subject hands every event to each live slot in place; an
/// empty slot stays empty.
pub proof fn lemma_subject_feed<O: ObserverLike>(s: Subject<O>, events: Seq<Event<O::Value, O::Error>>)
    requires
        !s.closed,
    ensures
        !feed(s, events).closed,
        feed(s, events).observers.view().len() == s.observers.view().len(),
        forall|k: int|
            0 <= k < s.observers.view().len() ==> feed(s, events).observers.view()[k] == slot_feed(
                s.observers.view()[k],
                events,
            ),
    decreases events.len(),
{
    if events.len() > 0 {
        let pre = events.drop_last();
        lemma_subject_feed(s, pre);
        let before = feed(s, pre);
        lemma_registry_step(before.observers, before, events.last());
    }
}

/// Once one of two subscribers of an open subject has unsubscribed, every
/// later event reaches the other subscriber as before and never the one
/// that left.
pub proof fn lemma_unsubscribed_hears_nothing<O: ObserverLike>(
    s: Subject<O>,
    gone: int,
    kept: int,
    events: Seq<Event<O::Value, O::Error>>,
)
    requires
        !s.closed,
        0 <= gone < s.observers.view().len(),
        0 <= kept < s.observers.view().len(),
        gone != kept,
        s.observers.view()[kept] is Some,
    ensures
        ({
            let after = feed(Subject { observers: s.observers.without(gone), ..s }, events);
            &&& after.observers.view()[gone] is None
            &&& after.observers.view()[kept] == Some(
                feed(s.observers.view()[kept]->Some_0, events),
            )
        }),
{
    let left = Subject { observers: s.observers.without(gone), ..s };
    lemma_without_view(s.observers, gone);
    lemma_subject_feed(left, events);
}

/// A closed subject ignores every event.
pub proof fn lemma_closed_subject_ignores<O: ObserverLike>(
    s: Subject<O>,
    events: Seq<Event<O::Value, O::Error>>,
)
    requires
        s.closed,
    ensures
        feed(s, events) == s,
    decreases events.len(),
{
    if events.len() > 0 {
        lemma_closed_subject_ignores(s, events.drop_last());
    }
}

} // verus!
