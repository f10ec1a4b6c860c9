use vstd::prelude::*;

use crate::error::RxError;
use crate::event::{of_events, Event};
use crate::handler::lemma_closure_runnable;
use crate::observable::{Observable, Unsubscriber};
use crate::observer::{feed, ObserverLike};

pub mod delay;
pub mod filter;
pub mod interval;
pub mod map;

verus! {

/// Hands `values` to `subscriber` in order, then completes it.
pub fn emit<O: ObserverLike>(values: &[O::Value], subscriber: &mut O)
    requires
        old(subscriber).inv(),
    ensures
        final(subscriber).inv(),
        *final(subscriber) == feed(*old(subscriber), of_events(values@)),
{
    let ghost start = *subscriber;
    let ghost sent: Seq<Event<O::Value, O::Error>> = values@.map_values(
        |v: O::Value| Event::Next(v),
    );
    let mut i: usize = 0;
    while i < values.len()
        invariant
            i <= values.len(),
            sent == values@.map_values(|v: O::Value| Event::<O::Value, O::Error>::Next(v)),
            subscriber.inv(),
            *subscriber == feed(start, sent.take(i as int)),
        decreases values.len() - i,
    {
        subscriber.next(&values[i]);
        assert(sent.take(i as int + 1).drop_last() =~= sent.take(i as int));
        i = i + 1;
    }
    subscriber.complete();
    assert(sent.take(i as int) =~= sent);
    assert(of_events::<O::Value, O::Error>(values@).drop_last() =~= sent);
}

/// A cold observable that hands each subscriber `values` in order, then
/// completes it, all before `subscribe` returns.
pub fn of<'a, T, O>(values: &'a [T]) -> (r: Observable<'a, O>) where
    O: ObserverLike<Value = T, Error = RxError> + 'a,

    ensures
        r.wf(),
        r.emits(of_events(values@)),
{
    let producer = move |subscriber: O| -> (p: (Unsubscriber, Ghost<O>))
        requires
            subscriber.inv(),
        ensures
            p.0.callable(),
            p.1@ == feed(subscriber, of_events(values@)),
            p.1@.inv(),
        {
            let mut target = subscriber;
            emit(values, &mut target);
            let nothing = || {};
            proof {
                lemma_closure_runnable(nothing);
            }
            (Unsubscriber::new(nothing), Ghost(target))
        };
    Observable::traced(producer)
}

} // verus!
