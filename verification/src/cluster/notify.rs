//! The facts that wait to be committed to the log after their connection
//! is gone: a bounded queue of them, and the count of how they fared.

use vstd::prelude::*;
use crate::broker::v5::counted;
use crate::cluster::handler::notification_outcome;
use crate::cluster::message::Message;

verus! {

/// Facts on their way to the log, oldest first, with the count of those
/// that were committed and of those that were not.
#[derive(Debug, PartialEq, Eq)]
pub struct Notifications {
    pending: Vec<Message>,
    limit: usize,
    completed: u64,
    failed: u64,
}

impl View for Notifications {
    type V = Seq<Message>;

    /// The facts that wait, oldest first.
    closed spec fn view(&self) -> Seq<Message> {
        self.pending@
    }
}

impl Notifications {
    /// How many facts may wait at once.
    pub closed spec fn limit(&self) -> usize {
        self.limit
    }

    /// How many facts were committed.
    pub closed spec fn spec_completed(&self) -> u64 {
        self.completed
    }

    /// How many facts were given up or found no room.
    pub closed spec fn spec_failed(&self) -> u64 {
        self.failed
    }

    /// No more facts wait than the queue has room for.
    pub open spec fn wf(&self) -> bool {
        self@.len() <= self.limit()
    }

    pub fn new(limit: usize) -> (r: Notifications)
        ensures
            r.wf(),
            r@.len() == 0,
            r.limit() == limit,
            r.spec_completed() == 0,
            r.spec_failed() == 0,
    {
        Notifications { pending: Vec::new(), limit, completed: 0, failed: 0 }
    }

    /// Number of facts that wait.
    pub fn len(&self) -> (r: usize)
        ensures
            r == self@.len(),
    {
        self.pending.len()
    }

    /// How many facts were committed.
    pub fn completed(&self) -> (r: u64)
        ensures
            r == self.spec_completed(),
    {
        self.completed
    }

    /// How many facts were given up or found no room.
    pub fn failed(&self) -> (r: u64)
        ensures
            r == self.spec_failed(),
    {
        self.failed
    }

    /// Lets a fact wait for its commit, behind those that wait already.
    /// Where the queue is full the fact comes back and counts as failed.
    pub fn offer(&mut self, fact: Message) -> (r: Result<(), Message>)
        requires
            old(self).wf(),
        ensures
            final(self).wf(),
            final(self).limit() == old(self).limit(),
            final(self).spec_completed() == old(self).spec_completed(),
            if old(self)@.len() < old(self).limit() {
                &&& r is Ok
                &&& final(self)@ == old(self)@.push(fact)
                &&& final(self).spec_failed() == old(self).spec_failed()
            } else {
                &&& r == Err::<(), Message>(fact)
                &&& final(self)@ == old(self)@
                &&& final(self).spec_failed() == counted(old(self).spec_failed())
            },
    {
        if self.pending.len() < self.limit {
            self.pending.push(fact);
            Ok(())
        } else {
            self.failed = if self.failed == u64::MAX {
                0
            } else {
                self.failed + 1
            };
            Err(fact)
        }
    }

    /// Takes the fact that has waited longest, if any waits.
    pub fn take(&mut self) -> (r: Option<Message>)
        requires
            old(self).wf(),
        ensures
            final(self).wf(),
            final(self).limit() == old(self).limit(),
            final(self).spec_completed() == old(self).spec_completed(),
            final(self).spec_failed() == old(self).spec_failed(),
            if old(self)@.len() == 0 {
                r is None && final(self)@ == old(self)@
            } else {
                r == Some(old(self)@[0]) && final(self)@ == old(self)@.skip(1)
            },
    {
        if self.pending.len() == 0 {
            None
        } else {
            let ghost before = self.pending@;
            let fact = self.pending.remove(0);
            proof {
                assert(self.pending@ =~= before.skip(1));
            }
            Some(fact)
        }
    }

    /// Counts how the commit of a fact ended, once the time for retries
    /// has run out. A failure is to be noted and goes no further.
    pub fn settle<T, E>(&mut self, commit: Result<T, E>) -> (noted: bool)
        ensures
            final(self)@ == old(self)@,
            final(self).limit() == old(self).limit(),
            noted == commit is Err,
            final(self).spec_completed() == if commit is Ok {
                counted(old(self).spec_completed())
            } else {
                old(self).spec_completed()
            },
            final(self).spec_failed() == if commit is Err {
                counted(old(self).spec_failed())
            } else {
                old(self).spec_failed()
            },
    {
        let noted = notification_outcome(commit);
        if noted {
            self.failed = if self.failed == u64::MAX {
                0
            } else {
                self.failed + 1
            };
        } else {
            self.completed = if self.completed == u64::MAX {
                0
            } else {
                self.completed + 1
            };
        }
        noted
    }
}

} // verus!
