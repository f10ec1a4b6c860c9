//! Push-based event streams: observers, cold observables, hot subjects and
//! the operators that chain between them.

pub mod error;
pub mod event;
pub mod handler;
pub mod observable;
pub mod observer;
pub mod operators;
pub mod react_streams;
pub mod subject;
pub mod subscriber;
pub mod subscription;
