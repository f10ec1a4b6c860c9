use vstd::prelude::*;

use crate::event::Event;
use crate::observer::{feed, ObserverLike};

verus! {

/// The values `0, 1, ..., n - 1`, each as a `Next` event.
pub open spec fn ticks<E>(n: nat) -> Seq<Event<u64, E>> {
    Seq::new(n, |i: int| Event::Next(i as u64))
}

/// The emitting loop of an interval source. Each round waits through
/// `wait`, hands the counter to `subscriber`, counts on, and then polls
/// `cancelled`. The loop ends at the first poll that answers `true`, or when
/// the counter can grow no more. Returns how many values were handed on
/// and, as ghost, the answers of the polls in order: one per value, all
/// `false` but the last.
pub fn interval_loop<O, W, C>(subscriber: &mut O, interval_time: u64, wait: W, cancelled: C) -> (r: (
    u64,
    Ghost<Seq<bool>>,
)) where
    O: ObserverLike<Value = u64>,
    W: Fn(&u64),
    C: Fn() -> bool,

    requires
        old(subscriber).inv(),
        call_requires(wait, (&interval_time,)),
        call_requires(cancelled, ()),
    ensures
        final(subscriber).inv(),
        *final(subscriber) == feed(*old(subscriber), ticks(r.0 as nat)),
        r.0 >= 1,
        call_ensures(wait, (&interval_time,), ()),
        r.1@.len() == r.0,
        forall|i: int| 0 <= i < r.0 ==> call_ensures(cancelled, (), #[trigger] r.1@[i]),
        forall|i: int| 0 <= i < r.0 - 1 ==> !#[trigger] r.1@[i],
        r.0 < u64::MAX ==> r.1@[r.0 - 1],
{
    let ghost start = *subscriber;
    let ghost mut polls: Seq<bool> = Seq::empty();
    let mut count: u64 = 0;
    let mut stop = false;
    while !stop && count < u64::MAX
        invariant
            subscriber.inv(),
            *subscriber == feed(start, ticks(count as nat)),
            call_requires(wait, (&interval_time,)),
            call_requires(cancelled, ()),
            polls.len() == count,
            count >= 1 ==> call_ensures(wait, (&interval_time,), ()),
            count >= 1 ==> polls[count - 1] == stop,
            forall|i: int| 0 <= i < count ==> call_ensures(cancelled, (), #[trigger] polls[i]),
            forall|i: int| 0 <= i < count - 1 ==> !#[trigger] polls[i],
            stop ==> count >= 1,
        decreases u64::MAX - count,
    {
        wait(&interval_time);
        subscriber.next(&count);
        proof {
            assert(ticks::<O::Error>(count as nat + 1).drop_last() =~= ticks::<O::Error>(
                count as nat,
            ));
        }
        count = count + 1;
        stop = cancelled();
        proof {
            polls = polls.push(stop);
        }
    }
    (count, Ghost(polls))
}

/// A cancellation signal sent after `k` values lets through at least `k`
/// values (unless the counter ran out first) and at most `k + 1`: the polls
/// that came before the signal answer `false`, and those after it `true`.
pub proof fn lemma_cancel_bound(polls: Seq<bool>, k: int)
    requires
        polls.len() >= 1,
        forall|i: int| 0 <= i < polls.len() - 1 ==> !#[trigger] polls[i],
        polls.len() < u64::MAX ==> polls[polls.len() - 1],
        0 <= k,
        forall|i: int| 0 <= i < k - 1 && i < polls.len() ==> !#[trigger] polls[i],
        forall|i: int| k <= i < polls.len() ==> #[trigger] polls[i],
    ensures
        polls.len() <= k + 1,
        polls.len() < u64::MAX ==> polls.len() >= k,
{
    if polls.len() > k + 1 {
        assert(polls[k]);
    }
}

} // verus!
