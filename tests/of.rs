use std::sync::mpsc::channel;

use rxrs::observable::Observable;
use rxrs::observer::Observer;
use rxrs::operators::of;

fn values_sent<T>(observable: &Observable<Observer<T>>, expected: &[T]) -> bool
where
    T: 'static + Clone + PartialEq + Sync + Send,
{
    let (tx, rx) = channel();

    let mut result = Vec::new();
    observable.subscribe_next(move |value: &T| {
        tx.send(value.clone()).unwrap();
    });

    for _ in expected {
        if let Ok(value) = rx.recv() {
            result.push(value);
        } else {
            return false;
        }
    }

    for i in 0..expected.len() {
        if result[i] != expected[i] {
            return false;
        }
    }
    true
}

fn is_completed<T>(observable: &Observable<Observer<T>>) -> bool {
    let (tx, rx) = channel();
    observable.subscribe_complete(move || tx.send(true).unwrap());

    rx.try_recv().is_ok()
}

#[test]
fn create_i32() {
    let obs = of(&[1, 2, 3]);
    assert!(values_sent(&obs, &[1, 2, 3]));
    assert!(is_completed(&obs));
}

#[test]
fn create_data() {
    #[derive(PartialEq, Clone)]
    struct DataItem {
        value: i32,
    }

    let data = [DataItem { value: 1 }, DataItem { value: 2 }, DataItem { value: 3 }];

    let obs = of(&data);
    assert!(values_sent(&obs, &data));
    assert!(is_completed(&obs));
}
