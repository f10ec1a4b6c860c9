use vstd::prelude::*;

verus! {

/// Receives `subscribe` once, after it has been handed to
/// `Publisher::subscribe`, and then the elements it asked for.
pub trait Subscriber<T, S: Subscription> {
    fn next(value: T);

    fn error();

    fn complete();

    fn subscribe(s: S);
}

/// The one-to-one lifecycle of a subscriber subscribed to a publisher.
pub trait Subscription {
    fn cancel();

    fn request(n: i64);
}

/// Provides a possibly unbounded number of elements in sequence, as its
/// subscribers ask for them.
pub trait Publisher<T, S: Subscription, R: Subscriber<T, S>> {
    fn subscribe(s: R);
}

/// A stage that is both a subscriber and a publisher.
pub trait Processor<T, S: Subscription, R: Subscriber<T, S>>: Subscriber<T, S> + Publisher<
    T,
    S,
    R,
> {

}

} // verus!
