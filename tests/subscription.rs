use rxrs::observable::Unsubscriber;
use rxrs::observer::Observer;
use rxrs::subject::Registry;
use rxrs::subscription::{SubjectSubscription, Subscription, Unsubscribable};

#[test]
fn observable_new() {
    let unsubscriber = Unsubscriber::new(|| {});
    let subscription = Subscription::new(unsubscriber);
    assert_eq!(subscription.closed, false);
}

#[test]
fn observable_unsubscribe() {
    let unsubscriber = Unsubscriber::new(|| {});
    let mut subscription = Subscription::new(unsubscriber);

    subscription.unsubscribe();
    assert_eq!(subscription.closed, true);
}

#[test]
fn subject_new() {
    let observer: Observer<i32> = Observer::new(
        |value| println!("{}", value),
        |e| println!("{:?}", e),
        || println!("complete"),
    );
    let mut observers = Registry::Empty;
    observers.push(Some(observer));

    let subscription = SubjectSubscription::new(&observers);

    assert_eq!(subscription.closed, false);
}

#[test]
fn subject_unsubscribe() {
    let observer: Observer<i32> = Observer::new(
        |value| println!("{}", value),
        |e| println!("{:?}", e),
        || println!("complete"),
    );
    let mut observers = Registry::Empty;
    observers.push(Some(observer));

    let mut subscription = SubjectSubscription::new(&observers);

    subscription.unsubscribe(&mut observers);

    assert_eq!(subscription.closed, true);
}

#[test]
fn subject_multiple_unsubscribe() {
    let observer_a: Observer<i32> = Observer::new(
        |value| println!("{}", value),
        |e| println!("{:?}", e),
        || println!("complete"),
    );
    let mut observers = Registry::Empty;
    observers.push(Some(observer_a));

    let mut first = SubjectSubscription::new(&observers);

    let observer_b: Observer<i32> = Observer::new(
        |value| println!("{}", value),
        |e| println!("{:?}", e),
        || println!("complete"),
    );
    observers.push(Some(observer_b));
    let mut second = SubjectSubscription::new(&observers);

    first.unsubscribe(&mut observers);
    assert_eq!(first.closed, true);

    second.unsubscribe(&mut observers);
    assert_eq!(second.closed, true);
}
