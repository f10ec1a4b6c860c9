use vstd::prelude::*;

use crate::observable::Unsubscriber;

verus! {

/// A function of one argument taken by reference, such as a value handler,
/// a mapping or a predicate. Any `Fn(&T) -> U` closure is one.
pub trait Transform<T, U>: Send {
    /// The function may be called on `t`, and gives one result for it.
    spec fn accepts(&self, t: T) -> bool;

    /// The result for `t`.
    spec fn image(&self, t: T) -> U;

    /// What holds once the function has been run on `t` and gave `u`.
    spec fn post(&self, t: T, u: U) -> bool;

    fn apply(&self, t: &T) -> (u: U)
        requires
            self.accepts(*t),
        ensures
            u == self.image(*t),
            self.post(*t, u),
    ;
}

impl<T, U, F: Fn(&T) -> U + Send> Transform<T, U> for F {
    open spec fn accepts(&self, t: T) -> bool {
        &&& call_requires(*self, (&t,))
        &&& forall|a: U, b: U|
            #![trigger call_ensures(*self, (&t,), a), call_ensures(*self, (&t,), b)]
            call_ensures(*self, (&t,), a) && call_ensures(*self, (&t,), b) ==> a == b
    }

    open spec fn image(&self, t: T) -> U {
        choose|u: U| call_ensures(*self, (&t,), u)
    }

    open spec fn post(&self, t: T, u: U) -> bool {
        call_ensures(*self, (&t,), u)
    }

    fn apply(&self, t: &T) -> (u: U) {
        (self)(t)
    }
}

/// `f` can be called on every argument and gives one result for each: a
/// pure, total function.
pub open spec fn pure_fn<T, U, F: Fn(&T) -> U>(f: F) -> bool {
    &&& forall|t: T| call_requires(f, (&t,))
    &&& forall|t: T, a: U, b: U|
        #![trigger call_ensures(f, (&t,), a), call_ensures(f, (&t,), b)]
        call_ensures(f, (&t,), a) && call_ensures(f, (&t,), b) ==> a == b
}

/// A pure, total closure is accepted everywhere.
pub proof fn lemma_pure_fn_accepts<T, U, F: Fn(&T) -> U + Send>(f: F)
    requires
        pure_fn(f),
    ensures
        forall|t: T| #[trigger] f.accepts(t),
{
}

/// A function of no argument, such as a completion handler. Any `Fn()`
/// closure is one.
pub trait Action: Send {
    spec fn ready(&self) -> bool;

    /// What holds once the function has been run.
    spec fn post(&self) -> bool;

    fn run(&self)
        requires
            self.ready(),
        ensures
            self.post(),
    ;
}

impl<F: Fn() + Send> Action for F {
    open spec fn ready(&self) -> bool {
        call_requires(*self, ())
    }

    open spec fn post(&self) -> bool {
        call_ensures(*self, (), ())
    }

    fn run(&self) {
        (self)()
    }
}

/// A cancellation action. Any `Fn()` closure is one, and so is a
/// subscription, whose teardown is its own `unsubscribe`.
pub trait Teardown {
    spec fn runnable(&self) -> bool;

    /// What holds once the action has been run from this state.
    spec fn post(&self) -> bool;

    fn teardown(&mut self)
        requires
            old(self).runnable(),
        ensures
            final(self).runnable(),
            old(self).post(),
    ;
}

impl<F: Fn()> Teardown for F {
    open spec fn runnable(&self) -> bool {
        call_requires(*self, ())
    }

    open spec fn post(&self) -> bool {
        call_ensures(*self, (), ())
    }

    fn teardown(&mut self) {
        (self)()
    }
}

/// The producing logic of an observable: it is handed an observer, emits
/// into it, and returns the action that cancels what it started, with, as
/// ghost, the state it left the observer in. Any `Fn(O) -> Unsubscriber`
/// closure is one, which says nothing of that state; a `Traced` closure
/// reports it.
pub trait Producer<O> {
    /// The producer may be run on `o`, and then returns a runnable action.
    spec fn admits(&self, o: O) -> bool;

    /// Run on `o`, the producer may return `u` and leave the observer as
    /// `after`.
    spec fn produces(&self, o: O, u: Unsubscriber, after: O) -> bool;

    fn produce(&self, o: O) -> (r: (Unsubscriber, Ghost<O>))
        requires
            self.admits(o),
        ensures
            r.0.callable(),
            self.produces(o, r.0, r.1@),
    ;
}

impl<O, F: Fn(O) -> Unsubscriber> Producer<O> for F {
    open spec fn admits(&self, o: O) -> bool {
        &&& call_requires(*self, (o,))
        &&& forall|u: Unsubscriber| #[trigger] call_ensures(*self, (o,), u) ==> u.callable()
    }

    open spec fn produces(&self, o: O, u: Unsubscriber, after: O) -> bool {
        call_ensures(*self, (o,), u)
    }

    fn produce(&self, o: O) -> (r: (Unsubscriber, Ghost<O>)) {
        let ghost given = o;
        let u = (self)(o);
        (u, Ghost(given))
    }
}

/// Producing logic that hands back, as ghost, the state it left its
/// observer in.
pub struct Traced<F>(pub F);

impl<O, F: Fn(O) -> (Unsubscriber, Ghost<O>)> Producer<O> for Traced<F> {
    open spec fn admits(&self, o: O) -> bool {
        &&& call_requires(self.0, (o,))
        &&& forall|r: (Unsubscriber, Ghost<O>)| #[trigger] call_ensures(self.0, (o,), r) ==> r.0.callable()
    }

    open spec fn produces(&self, o: O, u: Unsubscriber, after: O) -> bool {
        call_ensures(self.0, (o,), (u, Ghost(after)))
    }

    fn produce(&self, o: O) -> (r: (Unsubscriber, Ghost<O>)) {
        (self.0)(o)
    }
}

/// The result of the pure function `f` on `t`.
pub open spec fn image_of<T, U, F: Fn(&T) -> U>(f: F, t: T) -> U {
    choose|u: U| call_ensures(f, (&t,), u)
}

/// A closure that can be called is a runnable cancellation action.
pub proof fn lemma_closure_runnable<F: Fn()>(f: F)
    requires
        call_requires(f, ()),
    ensures
        f.runnable(),
{
}

} // verus!
