use rxrs::error::RxError;
use rxrs::observer::{Observer, ObserverLike};

#[test]
fn observer_new() {
    let observer = Observer::<u32>::new(
        |value| println!("{}", value),
        |err| println!("{:?}", err),
        || println!("complete"),
    );
    assert_eq!(observer.stopped, false);
}

#[test]
fn observer_next() {
    let mut observer = Observer::<u32>::new(
        |value| assert_eq!(&1, value),
        |_err| assert_eq!(true, false),
        || assert_eq!(true, false),
    );

    observer.next(&1);
}

#[test]
fn observer_error() {
    let mut observer = Observer::<u32>::new(
        |_value| assert_eq!(true, false),
        |_err| assert_eq!(true, true),
        || assert_eq!(true, false),
    );

    observer.error(&RxError::CustomError("some error".to_string()));
}

#[test]
fn observer_complete() {
    let mut observer = Observer::<u32>::new(
        |_value| assert_eq!(true, false),
        |_err| assert_eq!(true, false),
        || assert_eq!(true, true),
    );

    observer.complete();
    assert_eq!(observer.stopped, true);
}
