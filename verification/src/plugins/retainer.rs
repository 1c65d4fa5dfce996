//! Retained messages kept in memory: which ones are taken in, and which
//! ones a filter finds.

use vstd::prelude::*;
use crate::retain::RetainTree;
use crate::topic::{filter_matches, LevelView, Topic};
use crate::types::Retain;

verus! {

/// What becomes of a message that asks to be retained.
#[derive(Clone, Copy, Debug, PartialEq, Eq, Structural)]
pub enum RetainDecision {
    /// Retaining is switched off; the message is not kept.
    NotSupported,
    /// The payload is larger than allowed; the message is not kept.
    PayloadTooLarge,
    /// As many messages are kept as are allowed; this one is not.
    Full,
    /// The message is kept.
    Store,
}

/// Decides on a message that asks to be retained. Zero is no limit on the
/// number of messages.
pub fn set_decision(
    retain_enable: bool,
    payload_len: usize,
    max_payload_size: usize,
    count: isize,
    max_retained_messages: isize,
) -> (r: RetainDecision)
    ensures
        r == if !retain_enable {
            RetainDecision::NotSupported
        } else if payload_len > max_payload_size {
            RetainDecision::PayloadTooLarge
        } else if max_retained_messages > 0 && count >= max_retained_messages {
            RetainDecision::Full
        } else {
            RetainDecision::Store
        },
{
    if !retain_enable {
        RetainDecision::NotSupported
    } else if payload_len > max_payload_size {
        RetainDecision::PayloadTooLarge
    } else if max_retained_messages > 0 && count >= max_retained_messages {
        RetainDecision::Full
    } else {
        RetainDecision::Store
    }
}

/// The retained messages of a node, by topic.
pub struct RamRetainer {
    retain_enable: bool,
    max_payload_size: usize,
    max_retained_messages: isize,
    messages: RetainTree<Retain>,
    count: isize,
}

impl View for RamRetainer {
    type V = Map<Seq<LevelView>, Retain>;

    closed spec fn view(&self) -> Map<Seq<LevelView>, Retain> {
        self.messages@
    }
}

impl RamRetainer {
    /// The invariant of the store.
    pub closed spec fn wf(&self) -> bool {
        self.messages.wf() && self.count >= 0
    }

    /// Whether messages are retained at all.
    pub closed spec fn enabled(&self) -> bool {
        self.retain_enable
    }

    /// The largest payload that is kept.
    pub closed spec fn payload_limit(&self) -> usize {
        self.max_payload_size
    }

    /// The most messages that are kept; zero is no limit.
    pub closed spec fn limit(&self) -> isize {
        self.max_retained_messages
    }

    /// Number of topics under which a message is kept.
    pub closed spec fn spec_count(&self) -> isize {
        self.count
    }

    pub fn new(retain_enable: bool, max_payload_size: usize, max_retained_messages: isize) -> (r:
        RamRetainer)
        ensures
            r.wf(),
            r@ =~= Map::<Seq<LevelView>, Retain>::empty(),
            r.spec_count() == 0,
            r.enabled() == retain_enable,
            r.payload_limit() == max_payload_size,
            r.limit() == max_retained_messages,
    {
        RamRetainer {
            retain_enable,
            max_payload_size,
            max_retained_messages,
            messages: RetainTree::new(),
            count: 0,
        }
    }

    /// Number of topics under which a message is kept.
    pub fn count(&self) -> (r: isize)
        ensures
            r == self.spec_count(),
    {
        self.count
    }

    /// The most messages that are kept; zero is no limit.
    pub fn max(&self) -> (r: isize)
        ensures
            r == self.limit(),
    {
        self.max_retained_messages
    }

    /// Keeps a message under its topic if it is admitted, in place of the
    /// one kept there before. A message that is not admitted changes
    /// nothing, and that is no failure.
    pub fn set(&mut self, topic: &Topic, retain: Retain) -> (r: RetainDecision)
        requires
            old(self).wf(),
        ensures
            final(self).wf(),
            final(self).enabled() == old(self).enabled(),
            final(self).payload_limit() == old(self).payload_limit(),
            final(self).limit() == old(self).limit(),
            r == if !old(self).enabled() {
                RetainDecision::NotSupported
            } else if retain.publish.payload@.len() > old(self).payload_limit() {
                RetainDecision::PayloadTooLarge
            } else if old(self).limit() > 0 && old(self).spec_count() >= old(self).limit() {
                RetainDecision::Full
            } else {
                RetainDecision::Store
            },
            final(self)@ == if r == RetainDecision::Store {
                old(self)@.insert(topic@, retain)
            } else {
                old(self)@
            },
            final(self).spec_count() == if r == RetainDecision::Store && !old(self)@.contains_key(
                topic@,
            ) && old(self).spec_count() < isize::MAX {
                old(self).spec_count() + 1
            } else {
                old(self).spec_count() as int
            },
    {
        let decision = set_decision(
            self.retain_enable,
            retain.publish.payload.len(),
            self.max_payload_size,
            self.count,
            self.max_retained_messages,
        );
        match decision {
            RetainDecision::Store => {
                let ghost before = self.messages@;
                let replaced = self.messages.remove(topic);
                self.messages.insert(topic, retain);
                proof {
                    assert(self.messages@ =~= before.insert(topic@, retain));
                }
                if replaced.is_none() && self.count < isize::MAX {
                    self.count = self.count + 1;
                }
            },
            _ => {},
        }
        decision
    }

    /// The messages kept under the topics that a filter matches, each
    /// topic once. Nothing where retaining is switched off.
    pub fn get(&self, topic_filter: &Topic) -> (out: Vec<(Topic, Retain)>)
        requires
            self.wf(),
        ensures
            !self.enabled() ==> out@.len() == 0,
            forall|j: int|
                0 <= j < out@.len() ==> {
                    &&& filter_matches(topic_filter@, (#[trigger] out@[j]).0@, true)
                    &&& self@.contains_key(out@[j].0@)
                    &&& cloned(self@[out@[j].0@], out@[j].1)
                },
            forall|j: int, k: int|
                0 <= j < k < out@.len() ==> (#[trigger] out@[j]).0@ != (#[trigger] out@[k]).0@,
            self.enabled() ==> forall|t: Seq<LevelView>|
                self@.contains_key(t) && filter_matches(topic_filter@, t, true) ==> exists|j: int|
                    0 <= j < out@.len() && (#[trigger] out@[j]).0@ == t,
    {
        if !self.retain_enable {
            Vec::new()
        } else {
            self.messages.matches(topic_filter)
        }
    }
}

} // verus!
