//! The messages of the highest guarantee that a client has sent and not
//! yet released. The broker holds them back from a second delivery until
//! the release comes; a client that lets too many wait, or one too long,
//! breaks the protocol.

use vstd::prelude::*;
use crate::types::{PacketId, TimestampMillis};

verus! {

/// How a client broke the protocol.
#[derive(Clone, Copy, Debug, PartialEq, Eq, Structural)]
pub enum AwaitingRelError {
    /// More releases are awaited than the listener allows.
    TooMany,
    /// A release has been awaited longer than the listener allows.
    Timeout,
}

impl AwaitingRelError {
    /// The reason recorded when the connection is closed for it.
    pub fn reason(&self) -> (r: &'static str)
        ensures
            r@ == match *self {
                AwaitingRelError::TooMany => "too many awaiting release"@,
                AwaitingRelError::Timeout => "awaiting release timeout"@,
            },
    {
        match self {
            AwaitingRelError::TooMany => "too many awaiting release",
            AwaitingRelError::Timeout => "awaiting release timeout",
        }
    }
}

/// The releases awaited on one connection, each with the time since which
/// it is awaited, in the order in which the messages came.
#[derive(Debug, PartialEq, Eq)]
pub struct AwaitingRels {
    max_awaiting_rel: usize,
    await_rel_timeout_millis: u64,
    waiting: Vec<(PacketId, TimestampMillis)>,
}

/// Whether the release for a packet id is awaited.
pub open spec fn awaited(waiting: Seq<(PacketId, TimestampMillis)>, packet_id: PacketId) -> bool {
    exists|i: int| 0 <= i < waiting.len() && (#[trigger] waiting[i]).0 == packet_id
}

/// Whether one of the releases has been awaited for `timeout` or longer.
pub open spec fn overdue(
    waiting: Seq<(PacketId, TimestampMillis)>,
    timeout: u64,
    now: TimestampMillis,
) -> bool {
    exists|i: int| 0 <= i < waiting.len() && now - (#[trigger] waiting[i]).1 >= timeout
}

/// No packet id occurs twice.
pub open spec fn distinct(waiting: Seq<(PacketId, TimestampMillis)>) -> bool {
    forall|i: int, j: int|
        0 <= i < j < waiting.len() ==> (#[trigger] waiting[i]).0 != (#[trigger] waiting[j]).0
}

impl View for AwaitingRels {
    type V = Seq<(PacketId, TimestampMillis)>;

    closed spec fn view(&self) -> Seq<(PacketId, TimestampMillis)> {
        self.waiting@
    }
}

impl AwaitingRels {
    /// The most releases that may be awaited at once; zero is no limit.
    pub closed spec fn max(&self) -> usize {
        self.max_awaiting_rel
    }

    /// How long a release may be awaited; zero is no limit.
    pub closed spec fn timeout(&self) -> u64 {
        self.await_rel_timeout_millis
    }

    /// The invariant: no packet id is awaited twice, and never more are
    /// awaited than are allowed.
    pub open spec fn wf(&self) -> bool {
        distinct(self@) && (self.max() > 0 ==> self@.len() <= self.max())
    }

    pub fn new(max_awaiting_rel: usize, await_rel_timeout_millis: u64) -> (r: AwaitingRels)
        ensures
            r.wf(),
            r@.len() == 0,
            r.max() == max_awaiting_rel,
            r.timeout() == await_rel_timeout_millis,
    {
        AwaitingRels { max_awaiting_rel, await_rel_timeout_millis, waiting: Vec::new() }
    }

    pub fn len(&self) -> (r: usize)
        ensures
            r == self@.len(),
    {
        self.waiting.len()
    }

    fn find(&self, packet_id: PacketId) -> (r: Option<usize>)
        ensures
            match r {
                Some(i) => i < self@.len() && self@[i as int].0 == packet_id,
                None => !awaited(self@, packet_id),
            },
    {
        let mut i: usize = 0;
        while i < self.waiting.len()
            invariant
                i <= self.waiting@.len(),
                forall|j: int| 0 <= j < i ==> (#[trigger] self.waiting@[j]).0 != packet_id,
            decreases self.waiting@.len() - i,
        {
            if self.waiting[i].0 == packet_id {
                return Some(i);
            }
            i = i + 1;
        }
        None
    }

    /// Whether a release has been awaited too long.
    pub fn is_overdue(&self, now: TimestampMillis) -> (r: bool)
        ensures
            r == (self.timeout() > 0 && overdue(self@, self.timeout(), now)),
    {
        if self.await_rel_timeout_millis == 0 {
            return false;
        }
        let mut i: usize = 0;
        while i < self.waiting.len()
            invariant
                i <= self.waiting@.len(),
                self.await_rel_timeout_millis > 0,
                forall|j: int|
                    0 <= j < i ==> now - (#[trigger] self.waiting@[j]).1
                        < self.await_rel_timeout_millis,
            decreases self.waiting@.len() - i,
        {
            if now as i128 - self.waiting[i].1 as i128 >= self.await_rel_timeout_millis as i128 {
                proof {
                    assert(now - self@[i as int].1 >= self.timeout());
                }
                return true;
            }
            i = i + 1;
        }
        false
    }

    /// A message of the highest guarantee came in. `Ok(true)` says that it
    /// is new and is to be delivered; `Ok(false)` that it came before and
    /// its release is still awaited, so that it is not delivered again. A
    /// release awaited too long, or a new message beyond the limit, breaks
    /// the protocol, and nothing is taken in.
    pub fn on_publish(&mut self, packet_id: PacketId, now: TimestampMillis) -> (r: Result<
        bool,
        AwaitingRelError,
    >)
        requires
            old(self).wf(),
        ensures
            final(self).wf(),
            final(self).max() == old(self).max(),
            final(self).timeout() == old(self).timeout(),
            ({
                let before = old(self)@;
                let late = old(self).timeout() > 0 && overdue(before, old(self).timeout(), now);
                let full = old(self).max() > 0 && before.len() >= old(self).max();
                if late {
                    r == Err::<bool, AwaitingRelError>(AwaitingRelError::Timeout) && final(self)@
                        == before
                } else if awaited(before, packet_id) {
                    r == Ok::<bool, AwaitingRelError>(false) && final(self)@ == before
                } else if full {
                    r == Err::<bool, AwaitingRelError>(AwaitingRelError::TooMany) && final(self)@
                        == before
                } else {
                    r == Ok::<bool, AwaitingRelError>(true) && final(self)@ == before.push(
                        (packet_id, now),
                    )
                }
            }),
    {
        if self.is_overdue(now) {
            return Err(AwaitingRelError::Timeout);
        }
        if self.find(packet_id).is_some() {
            return Ok(false);
        }
        if self.max_awaiting_rel > 0 && self.waiting.len() >= self.max_awaiting_rel {
            return Err(AwaitingRelError::TooMany);
        }
        let ghost before = self.waiting@;
        self.waiting.push((packet_id, now));
        proof {
            let after = self.waiting@;
            let n = before.len() as int;
            assert forall|i: int, j: int| 0 <= i < j < after.len() implies (#[trigger] after[i]).0
                != (#[trigger] after[j]).0 by {
                if j < n {
                    assert(before[i].0 != before[j].0);
                } else {
                    assert(before[i].0 != packet_id);
                }
            }
        }
        Ok(true)
    }

    /// The release for a packet id came. Returns whether it was awaited.
    /// The other releases stay awaited, in their order.
    pub fn on_release(&mut self, packet_id: PacketId) -> (r: bool)
        requires
            old(self).wf(),
        ensures
            final(self).wf(),
            final(self).max() == old(self).max(),
            final(self).timeout() == old(self).timeout(),
            r == awaited(old(self)@, packet_id),
            !awaited(final(self)@, packet_id),
            final(self)@.len() == if r {
                old(self)@.len() - 1
            } else {
                old(self)@.len() as int
            },
            forall|other: PacketId|
                other != packet_id ==> awaited(final(self)@, other) == awaited(old(self)@, other),
            r ==> exists|i: int|
                0 <= i < old(self)@.len() && (#[trigger] old(self)@[i]).0 == packet_id && final(self)@ == old(self)@.remove(i),
            !r ==> final(self)@ == old(self)@,
    {
        let ghost before = self.waiting@;
        match self.find(packet_id) {
            Some(i) => {
                self.waiting.remove(i);
                proof {
                    let after = self.waiting@;
                    assert(before[i as int].0 == packet_id);
                    assert(after == before.remove(i as int));
                    assert forall|a: int| 0 <= a < after.len() implies #[trigger] after[a]
                        == before[if a < i {
                        a
                    } else {
                        a + 1
                    }] by {}
                    assert forall|a: int, b: int| 0 <= a < b < after.len() implies (
                    #[trigger] after[a]).0 != (#[trigger] after[b]).0 by {
                        let a0 = if a < i { a } else { a + 1 };
                        let b0 = if b < i { b } else { b + 1 };
                        assert(before[a0].0 != before[b0].0);
                    }
                    assert(awaited(before, packet_id)) by {
                        assert(before[i as int].0 == packet_id);
                    }
                    if awaited(after, packet_id) {
                        let a = choose|a: int|
                            0 <= a < after.len() && (#[trigger] after[a]).0 == packet_id;
                        let a0 = if a < i { a } else { a + 1 };
                        if a0 < i {
                            assert(before[a0].0 != before[i as int].0);
                        } else {
                            assert(before[i as int].0 != before[a0].0);
                        }
                    }
                    assert forall|other: PacketId| other != packet_id implies awaited(after, other)
                        == awaited(before, other) by {
                        if awaited(before, other) {
                            let b = choose|b: int|
                                0 <= b < before.len() && (#[trigger] before[b]).0 == other;
                            let b1 = if b < i { b } else { b - 1 };
                            assert(after[b1].0 == other);
                        }
                        if awaited(after, other) {
                            let a = choose|a: int|
                                0 <= a < after.len() && (#[trigger] after[a]).0 == other;
                            let a0 = if a < i { a } else { a + 1 };
                            assert(before[a0].0 == other);
                        }
                    }
                }
                true
            },
            None => false,
        }
    }
}

} // verus!
