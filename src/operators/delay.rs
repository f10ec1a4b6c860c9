use vstd::prelude::*;

use crate::error::RxError;
use crate::event::{of_events, Event};
use crate::handler::Transform;
use crate::observer::{feed, ObserverLike};

verus! {

/// The number of `Next` events in `events`.
pub open spec fn count_next<V, E>(events: Seq<Event<V, E>>) -> nat
    decreases events.len(),
{
    if events.len() == 0 {
        0
    } else {
        count_next(events.drop_last()) + match events.last() {
            Event::Next(_) => 1nat,
            _ => 0nat,
        }
    }
}

/// Blocks for `delay` milliseconds, through `wait`, before handing on each
/// value; errors and completion pass at once. The waits add up: the
/// completion of `n` values comes after `n` waits.
pub struct DelayObserver<D: ObserverLike> {
    pub delay: u64,
    pub destination: D,
    pub wait: Box<dyn Transform<u64, ()>>,
    /// How many waits of `delay` milliseconds have been run so far.
    pub waits: Ghost<nat>,
}

impl<D: ObserverLike> DelayObserver<D> {
    pub fn new<W: Fn(&u64) + Send + 'static>(destination: D, delay: u64, wait: W) -> (r:
        DelayObserver<D>)
        ensures
            r.destination == destination,
            r.delay == delay,
            r.waits@ == 0,
            forall|n: u64, u: ()| #[trigger] r.wait.post(n, u) == call_ensures(wait, (&n,), u),
            destination.inv() && call_requires(wait, (&delay,)) ==> r.inv(),
    {
        DelayObserver { delay, destination, wait: Box::new(wait), waits: Ghost(0) }
    }
}

impl<D: ObserverLike> ObserverLike for DelayObserver<D> {
    type Value = D::Value;
    type Error = D::Error;

    open spec fn inv(&self) -> bool {
        &&& self.destination.inv()
        &&& self.wait.accepts(self.delay)
        &&& self.waits@ > 0 ==> self.wait.post(self.delay, ())
    }

    open spec fn on_next(self, value: D::Value) -> Self {
        DelayObserver {
            destination: self.destination.on_next(value),
            waits: Ghost(self.waits@ + 1),
            ..self
        }
    }

    open spec fn on_error(self, e: D::Error) -> Self {
        DelayObserver { destination: self.destination.on_error(e), ..self }
    }

    open spec fn on_complete(self) -> Self {
        DelayObserver { destination: self.destination.on_complete(), ..self }
    }

    fn next(&mut self, value: &D::Value)
        ensures
            old(self).wait.post(old(self).delay, ()),
    {
        self.wait.apply(&self.delay);
        self.waits = Ghost(self.waits@ + 1);
        self.destination.next(value);
    }

    fn error(&mut self, e: &D::Error) {
        self.destination.error(e);
    }

    fn complete(&mut self) {
        self.destination.complete();
    }
}

/// Whatever events reach a delay observer, its destination receives them
/// unchanged, and one wait was run per value.
pub proof fn lemma_delay_feed<D: ObserverLike>(d: DelayObserver<D>, events: Seq<Event<D::Value, D::Error>>)
    ensures
        feed(d, events).destination == feed(d.destination, events),
        feed(d, events).waits@ == d.waits@ + count_next(events),
        feed(d, events).delay == d.delay,
        feed(d, events).wait == d.wait,
    decreases events.len(),
{
    if events.len() > 0 {
        lemma_delay_feed(d, events.drop_last());
    }
}

/// A finite source has one `Next` event per value.
pub proof fn lemma_count_next_of_events<V, E>(values: Seq<V>)
    ensures
        count_next(of_events::<V, E>(values)) == values.len(),
{
    let nexts = values.map_values(|v: V| Event::<V, E>::Next(v));
    assert(of_events::<V, E>(values).drop_last() =~= nexts);
    lemma_count_next_values::<V, E>(values);
}

/// A sequence of values, each as a `Next` event, has one `Next` per value.
proof fn lemma_count_next_values<V, E>(values: Seq<V>)
    ensures
        count_next(values.map_values(|v: V| Event::<V, E>::Next(v))) == values.len(),
    decreases values.len(),
{
    if values.len() > 0 {
        let pre = values.drop_last();
        lemma_count_next_values::<V, E>(pre);
        assert(values.map_values(|v: V| Event::<V, E>::Next(v)).drop_last() =~= pre.map_values(
            |v: V| Event::<V, E>::Next(v),
        ));
    }
}

/// Over a finite source of `n` values, a delay observer hands its
/// destination the source's events unchanged, and by the time the
/// completion passes it has run `n` waits of `delay` milliseconds each:
/// `n * delay` milliseconds in all, since the waits run one after another.
pub proof fn lemma_delay_over_of<D: ObserverLike>(d: DelayObserver<D>, values: Seq<D::Value>)
    ensures
        feed(d, of_events(values)).destination == feed(d.destination, of_events(values)),
        feed(d, of_events(values)).waits@ == d.waits@ + values.len(),
{
    lemma_delay_feed(d, of_events(values));
    lemma_count_next_of_events::<D::Value, D::Error>(values);
}

} // verus!
