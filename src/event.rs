use vstd::prelude::*;

verus! {

/// One event of a stream, as an observer sees it.
pub enum Event<V, E> {
    Next(V),
    Error(E),
    Complete,
}

/// The events that a finite source emits: each value in order, then one
/// completion.
pub open spec fn of_events<V, E>(values: Seq<V>) -> Seq<Event<V, E>> {
    values.map_values(|v: V| Event::Next(v)).push(Event::Complete)
}

/// Each `Next` value passed through `f`; errors and completions unchanged.
pub open spec fn map_events<T, U, E>(events: Seq<Event<T, E>>, f: spec_fn(T) -> U) -> Seq<
    Event<U, E>,
> {
    events.map_values(
        |ev: Event<T, E>|
            match ev {
                Event::Next(v) => Event::Next(f(v)),
                Event::Error(e) => Event::Error(e),
                Event::Complete => Event::Complete,
            },
    )
}

/// The `Next` events whose value fails `keep` removed; the rest in order.
pub open spec fn filter_events<T, E>(events: Seq<Event<T, E>>, keep: spec_fn(T) -> bool) -> Seq<
    Event<T, E>,
> {
    events.filter(
        |ev: Event<T, E>|
            match ev {
                Event::Next(v) => keep(v),
                _ => true,
            },
    )
}

/// The values of the `Next` events, in order.
pub open spec fn next_values<V, E>(events: Seq<Event<V, E>>) -> Seq<V>
    decreases events.len(),
{
    if events.len() == 0 {
        Seq::empty()
    } else {
        let pre = next_values(events.drop_last());
        match events.last() {
            Event::Next(v) => pre.push(v),
            _ => pre,
        }
    }
}

} // verus!
