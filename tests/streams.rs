use std::cell::Cell;
use std::sync::atomic::{AtomicUsize, Ordering};
use std::sync::mpsc::{channel, Receiver};
use std::time::{Duration, Instant};

use rxrs::error::RxError;
use rxrs::observable::{Observable, Unsubscriber};
use rxrs::observer::{Observer, ObserverLike};
use rxrs::operators::interval::interval_loop;
use rxrs::operators::map::MapObserver;
use rxrs::operators::of;
use rxrs::subject::{Registry, Subject};
use rxrs::subscription::{Subscription, Unsubscribable};

#[derive(Debug, PartialEq)]
enum Seen {
    Next(i32),
    Error(String),
    Complete,
}

/// An observer that reports every event it handles on a channel.
fn recording() -> (Observer<i32>, Receiver<Seen>) {
    let (tx, rx) = channel();
    let tx_error = tx.clone();
    let tx_complete = tx.clone();
    let observer = Observer::new(
        move |v: &i32| tx.send(Seen::Next(*v)).unwrap(),
        move |e: &RxError| tx_error.send(Seen::Error(e.description().to_string())).unwrap(),
        move || tx_complete.send(Seen::Complete).unwrap(),
    );
    (observer, rx)
}

fn drain(rx: &Receiver<Seen>) -> Vec<Seen> {
    rx.try_iter().collect()
}

fn wait_ms(ms: &u64) {
    let start = Instant::now();
    let length = Duration::from_millis(*ms);
    while start.elapsed() < length {}
}

#[test]
fn of_delivers_values_then_one_completion() {
    let (observer, rx) = recording();
    let obs: Observable<Observer<i32>> = of(&[5, 7, 9]);
    obs.subscribe(observer);
    assert_eq!(drain(&rx), vec![Seen::Next(5), Seen::Next(7), Seen::Next(9), Seen::Complete]);
}

#[test]
fn of_empty_only_completes() {
    let (observer, rx) = recording();
    let empty: [i32; 0] = [];
    let obs: Observable<Observer<i32>> = of(&empty);
    obs.subscribe(observer);
    assert_eq!(drain(&rx), vec![Seen::Complete]);
}

#[test]
fn of_runs_anew_for_each_subscriber() {
    let obs: Observable<Observer<i32>> = of(&[1, 2]);
    let (first, rx_first) = recording();
    let (second, rx_second) = recording();
    obs.subscribe(first);
    obs.subscribe(second);
    assert_eq!(drain(&rx_first), vec![Seen::Next(1), Seen::Next(2), Seen::Complete]);
    assert_eq!(drain(&rx_second), vec![Seen::Next(1), Seen::Next(2), Seen::Complete]);
}

#[test]
fn complete_twice_runs_handler_once() {
    let (mut observer, rx) = recording();
    observer.complete();
    observer.complete();
    assert_eq!(drain(&rx), vec![Seen::Complete]);
    assert!(observer.stopped);
}

#[test]
fn nothing_reaches_handlers_after_complete() {
    let (mut observer, rx) = recording();
    observer.next(&1);
    observer.complete();
    observer.next(&2);
    observer.error(&RxError::CustomError("late".to_string()));
    assert_eq!(drain(&rx), vec![Seen::Next(1), Seen::Complete]);
}

#[test]
fn error_does_not_stop_observer() {
    let (mut observer, rx) = recording();
    observer.error(&RxError::CustomError("first".to_string()));
    observer.next(&3);
    observer.error(&RxError::CustomError("second".to_string()));
    observer.complete();
    assert!(observer.stopped);
    assert_eq!(
        drain(&rx),
        vec![
            Seen::Error("first".to_string()),
            Seen::Next(3),
            Seen::Error("second".to_string()),
            Seen::Complete
        ]
    );
}

#[test]
fn error_description_is_its_message() {
    let e = RxError::CustomError("some error".to_string());
    assert_eq!(e.description(), "some error");
}

#[test]
fn map_then_filter_scenario() {
    let (observer, rx) = recording();
    let obs = of(&[1, 2, 3]).map(|x: &i32| x * 2).filter(|x: &i32| *x > 2);
    obs.subscribe(observer);
    assert_eq!(drain(&rx), vec![Seen::Next(4), Seen::Next(6), Seen::Complete]);
}

#[test]
fn map_keeps_order_and_completion() {
    let (observer, rx) = recording();
    let obs = of(&[3, 1, 2]).map(|x: &i32| x + 10);
    obs.subscribe(observer);
    assert_eq!(
        drain(&rx),
        vec![Seen::Next(13), Seen::Next(11), Seen::Next(12), Seen::Complete]
    );
}

#[test]
fn filter_rejecting_all_still_completes() {
    let (observer, rx) = recording();
    let obs = of(&[1, 2, 3]).filter(|x: &i32| *x > 10);
    obs.subscribe(observer);
    assert_eq!(drain(&rx), vec![Seen::Complete]);
}

#[test]
fn delay_completion_comes_after_all_waits() {
    let obs = of(&[1, 2, 3]).delay(30, wait_ms);
    let (observer, rx) = recording();
    let start = Instant::now();
    obs.subscribe(observer);
    assert!(start.elapsed() >= Duration::from_millis(90));
    assert_eq!(drain(&rx), vec![Seen::Next(1), Seen::Next(2), Seen::Next(3), Seen::Complete]);
}

#[test]
fn chained_subscription_unsubscribes_once() {
    let obs = of(&[1, 2]).map(|x: &i32| x + 1);
    let (observer, _rx) = recording();
    let mut subscription = obs.subscribe(observer);
    assert!(!subscription.closed);
    subscription.unsubscribe();
    subscription.unsubscribe();
    assert!(subscription.closed);
}

#[test]
fn cancellation_action_runs_once() {
    let (tx, rx) = channel();
    let unsubscriber = Unsubscriber::new(move || tx.send(()).unwrap());
    let mut subscription = Subscription::new(unsubscriber);
    subscription.unsubscribe();
    subscription.unsubscribe();
    assert!(subscription.closed);
    assert_eq!(rx.try_iter().count(), 1);
}

#[test]
fn subject_broadcasts_in_subscription_order() {
    let (tx, rx) = channel();
    let tx_second = tx.clone();
    let mut subject: Subject<Observer<i32>> = Subject::new();
    subject.subscribe_next(move |v: &i32| tx.send((1, *v)).unwrap());
    subject.subscribe_next(move |v: &i32| tx_second.send((2, *v)).unwrap());
    subject.next(&8);
    subject.next(&9);
    assert_eq!(rx.try_iter().collect::<Vec<_>>(), vec![(1, 8), (2, 8), (1, 9), (2, 9)]);
}

#[test]
fn subject_keeps_serving_after_one_unsubscribes() {
    let (first, rx_first) = recording();
    let (second, rx_second) = recording();
    let mut subject = Subject::new();
    let mut first_sub = subject.subscribe(first);
    let second_sub = subject.subscribe(second);
    assert_eq!(first_sub.item, 0);
    assert_eq!(second_sub.item, 1);

    subject.next(&0);
    subject.unsubscribe_slot(&mut first_sub);
    assert!(first_sub.closed);
    subject.next(&1);
    subject.error(&RxError::CustomError("oops".to_string()));
    subject.complete();

    assert_eq!(drain(&rx_first), vec![Seen::Next(0)]);
    assert_eq!(
        drain(&rx_second),
        vec![Seen::Next(0), Seen::Next(1), Seen::Error("oops".to_string()), Seen::Complete]
    );
}

#[test]
fn subject_complete_does_not_close_it() {
    let (first, rx_first) = recording();
    let mut subject = Subject::new();
    subject.subscribe(first);
    subject.complete();
    assert!(!subject.closed);
    let (second, rx_second) = recording();
    subject.subscribe(second);
    subject.next(&4);
    assert_eq!(drain(&rx_first), vec![Seen::Complete]);
    assert_eq!(drain(&rx_second), vec![Seen::Next(4)]);
}

#[test]
fn closed_subject_ignores_everything() {
    let (first, rx_first) = recording();
    let mut subject = Subject::new();
    subject.subscribe(first);
    subject.unsubscribe();
    assert!(subject.closed);

    subject.next(&1);
    subject.error(&RxError::CustomError("ignored".to_string()));
    subject.complete();
    let (late, rx_late) = recording();
    let late_sub = subject.subscribe(late);
    subject.next(&2);

    assert!(late_sub.closed);
    assert_eq!(subject.observers.len(), 0);
    assert_eq!(drain(&rx_first), vec![]);
    assert_eq!(drain(&rx_late), vec![]);
}

#[test]
fn subject_feeds_from_observable() {
    let (inner, rx) = recording();
    let mut subject = Subject::new();
    subject.subscribe(inner);
    let obs: Observable<Subject<Observer<i32>>> = of(&[2, 4]);
    obs.subscribe(subject);
    assert_eq!(drain(&rx), vec![Seen::Next(2), Seen::Next(4), Seen::Complete]);
}

#[test]
fn registry_tombstone_keeps_other_slots() {
    let (a, _rx_a) = recording();
    let (b, _rx_b) = recording();
    let (c, _rx_c) = recording();
    let mut registry = Registry::Empty;
    assert_eq!(registry.push(Some(a)), 0);
    assert_eq!(registry.push(Some(b)), 1);
    registry.tombstone(0);
    assert_eq!(registry.push(Some(c)), 2);
    assert_eq!(registry.len(), 3);
    match &registry {
        Registry::Slot(first, rest) => {
            assert!(first.is_none());
            match rest.as_ref() {
                Registry::Slot(second, _) => assert!(second.is_some()),
                Registry::Empty => panic!("second slot missing"),
            }
        }
        Registry::Empty => panic!("registry empty"),
    }
}

#[test]
fn interval_loop_stops_at_first_poll_that_sees_cancel() {
    let (tx, rx) = channel();
    let mut observer = Observer::new(
        move |v: &u64| tx.send(*v).unwrap(),
        |_e: &RxError| {},
        || {},
    );
    let polls = Cell::new(0u32);
    let waits = Cell::new(0u32);
    let emitted = interval_loop(
        &mut observer,
        5,
        |ms: &u64| {
            assert_eq!(*ms, 5);
            waits.set(waits.get() + 1);
        },
        || {
            polls.set(polls.get() + 1);
            polls.get() == 3
        },
    )
    .0;
    assert_eq!(emitted, 3);
    assert_eq!(waits.get(), 3);
    assert_eq!(rx.try_iter().collect::<Vec<_>>(), vec![0, 1, 2]);
    assert!(!observer.stopped);
}

#[test]
fn interval_loop_cancelled_before_first_tick_still_emits_one() {
    let (tx, rx) = channel();
    let mut observer = Observer::new(
        move |v: &u64| tx.send(*v).unwrap(),
        |_e: &RxError| {},
        || {},
    );
    let emitted = interval_loop(&mut observer, 0, |_ms: &u64| {}, || true).0;
    assert_eq!(emitted, 1);
    assert_eq!(rx.try_iter().collect::<Vec<_>>(), vec![0]);
}

#[test]
fn interval_loop_cancel_after_k_ticks_lets_at_most_one_more() {
    let (tx, rx) = channel();
    let signal = std::rc::Rc::new(Cell::new(false));
    let raised = signal.clone();
    let ticks_seen = Cell::new(0u64);
    let mut observer = Observer::new(
        move |v: &u64| tx.send(*v).unwrap(),
        |_e: &RxError| {},
        || {},
    );
    // The signal is raised during the wait before the fifth tick, that is
    // after four ticks; the poll that follows the fifth tick sees it.
    let emitted = interval_loop(
        &mut observer,
        1,
        |_ms: &u64| {
            if ticks_seen.get() == 4 {
                raised.set(true);
            }
            ticks_seen.set(ticks_seen.get() + 1);
        },
        || signal.get(),
    )
    .0;
    assert!(emitted >= 4 && emitted <= 5);
    assert_eq!(rx.try_iter().count() as u64, emitted);
}

#[test]
fn pipe_applies_operator() {
    let (observer, rx) = recording();
    let obs = of(&[1, 2, 3]).pipe(|source| source.map(|x: &i32| x * 2));
    obs.subscribe(observer);
    assert_eq!(drain(&rx), vec![Seen::Next(2), Seen::Next(4), Seen::Next(6), Seen::Complete]);
}

static WAITS: AtomicUsize = AtomicUsize::new(0);

fn counting_wait(_ms: &u64) {
    WAITS.fetch_add(1, Ordering::SeqCst);
}

#[test]
fn delay_runs_one_wait_per_value() {
    let (observer, rx) = recording();
    let obs = of(&[1, 2, 3]).delay(7, counting_wait);
    obs.subscribe(observer);
    assert_eq!(WAITS.load(Ordering::SeqCst), 3);
    assert_eq!(drain(&rx), vec![Seen::Next(1), Seen::Next(2), Seen::Next(3), Seen::Complete]);
}

#[test]
fn map_cancellation_reaches_upstream_action() {
    let (tx, cancels) = channel::<()>();
    let source = Observable::new(move |_o: MapObserver<i32, i32, Observer<i32>>| {
        let tx = tx.clone();
        Unsubscriber::new(move || tx.send(()).unwrap())
    });
    let mapped = source.map(|x: &i32| x + 1);
    let (observer, _rx) = recording();
    let mut subscription = mapped.subscribe(observer);
    assert_eq!(cancels.try_iter().count(), 0);
    subscription.unsubscribe();
    subscription.unsubscribe();
    assert_eq!(cancels.try_iter().count(), 1);
}
