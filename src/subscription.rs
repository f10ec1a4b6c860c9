use vstd::prelude::*;

use crate::handler::Teardown;
use crate::observable::Unsubscriber;
use crate::observer::ObserverLike;
use crate::subject::Registry;

verus! {

/// Something that can be cancelled.
pub trait Unsubscribable {
    /// The cancellation can be carried out.
    spec fn can_unsubscribe(&self) -> bool;

    spec fn is_closed(&self) -> bool;

    fn unsubscribe(&mut self)
        requires
            old(self).can_unsubscribe(),
        ensures
            final(self).can_unsubscribe(),
            final(self).is_closed(),
    ;
}

/// One delivery relationship of an observable. Its cancellation action runs
/// on the first `unsubscribe` and never again.
pub struct Subscription {
    pub closed: bool,
    pub unsubscriber: Unsubscriber,
}

impl Subscription {
    pub fn new(unsubscriber: Unsubscriber) -> (r: Subscription)
        requires
            unsubscriber.callable(),
        ensures
            r.can_unsubscribe(),
            !r.closed,
            r.unsubscriber == unsubscriber,
    {
        Subscription { closed: false, unsubscriber }
    }
}

impl Unsubscribable for Subscription {
    open spec fn can_unsubscribe(&self) -> bool {
        self.unsubscriber.callable()
    }

    open spec fn is_closed(&self) -> bool {
        self.closed
    }

    fn unsubscribe(&mut self)
        ensures
            final(self).unsubscriber.runs() == old(self).unsubscriber.runs() + if old(self).closed {
                0int
            } else {
                1int
            },
            !old(self).closed ==> old(self).unsubscriber.action_post(),
    {
        if !self.closed {
            self.unsubscriber.call();
            self.closed = true;
        }
    }
}

impl Teardown for Subscription {
    open spec fn runnable(&self) -> bool {
        self.can_unsubscribe()
    }

    /// An open subscription's own action has run.
    open spec fn post(&self) -> bool {
        !self.closed ==> self.unsubscriber.action_post()
    }

    fn teardown(&mut self) {
        self.unsubscribe();
    }
}

/// Unsubscribing twice runs the cancellation action at most once.
pub proof fn lemma_unsubscribe_runs_once(s0: Subscription, s1: Subscription, s2: Subscription)
    requires
        s1.closed,
        s1.unsubscriber.runs() == s0.unsubscriber.runs() + if s0.closed {
            0int
        } else {
            1int
        },
        s2.unsubscriber.runs() == s1.unsubscriber.runs() + if s1.closed {
            0int
        } else {
            1int
        },
    ensures
        s2.unsubscriber.runs() <= s0.unsubscriber.runs() + 1,
{
}

/// The subscription of one slot of a subject's registry.
pub struct SubjectSubscription {
    pub closed: bool,
    pub item: usize,
}

impl SubjectSubscription {
    /// The subscription of the last slot of `subject_ref`.
    pub fn new<O: ObserverLike>(subject_ref: &Registry<O>) -> (r: SubjectSubscription)
        requires
            0 < subject_ref.view().len() <= usize::MAX,
        ensures
            !r.closed,
            r.item == subject_ref.view().len() - 1,
    {
        let item = subject_ref.len() - 1;
        SubjectSubscription { closed: false, item }
    }

    /// Empties this subscription's slot of `subject_ref` on the first call;
    /// later calls do nothing.
    pub fn unsubscribe<O: ObserverLike>(&mut self, subject_ref: &mut Registry<O>)
        ensures
            final(self).closed,
            final(self).item == old(self).item,
            old(self).closed ==> *final(subject_ref) == *old(subject_ref),
            !old(self).closed ==> *final(subject_ref) == old(subject_ref).without(
                old(self).item as int,
            ),
    {
        if !self.closed {
            subject_ref.tombstone(self.item);
            self.closed = true;
        }
    }
}

} // verus!
