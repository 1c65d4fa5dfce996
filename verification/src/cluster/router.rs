//! The ownership table: what the committed facts say of each client id.
//! Every node applies the same facts in the same order and so holds the
//! same table.

use vstd::prelude::*;
use crate::cluster::message::{Message, MessageReply};
use crate::collections::StrMap;
use crate::types::{ClientId, Id, NodeId, TimestampMillis};

verus! {

/// What the table holds for one client id: the identity that owns it,
/// whether that connection is up, and whether, and since when, a handshake
/// for the client id is under way.
#[derive(Debug, PartialEq, Eq)]
pub struct ClientStatus {
    pub id: Id,
    pub online: bool,
    pub handshaking: bool,
    pub handshak_duration: TimestampMillis,
}

impl Clone for ClientStatus {
    fn clone(&self) -> (r: ClientStatus)
        ensures
            r == *self,
    {
        ClientStatus {
            id: self.id.clone(),
            online: self.online,
            handshaking: self.handshaking,
            handshak_duration: self.handshak_duration,
        }
    }
}

impl ClientStatus {
    pub fn new(id: Id, online: bool, handshaking: bool, now: TimestampMillis) -> (r: ClientStatus)
        ensures
            r == (ClientStatus { id, online, handshaking, handshak_duration: now }),
    {
        ClientStatus { id, online, handshaking, handshak_duration: now }
    }

    /// Whether a handshake is under way at `now`: one has begun and the
    /// time allowed for it has not run out.
    pub open spec fn spec_handshaking(&self, try_lock_timeout_millis: u64, now: TimestampMillis) -> bool {
        self.handshaking && now - self.handshak_duration < try_lock_timeout_millis
    }

    pub fn handshaking(&self, try_lock_timeout_millis: u64, now: TimestampMillis) -> (r: bool)
        ensures
            r == self.spec_handshaking(try_lock_timeout_millis, now),
    {
        let elapsed: i128 = now as i128 - self.handshak_duration as i128;
        self.handshaking && elapsed < try_lock_timeout_millis as i128
    }
}

/// The table as a map from client ids to what is known of them.
pub type Table = Map<Seq<char>, ClientStatus>;

/// What the log answers to a request for ownership.
pub enum LockOutcome {
    /// Granted; with the identity that owned the client id before.
    Granted(Option<Id>),
    /// Refused: another handshake for the client id is under way.
    Refused,
}

/// What the log answers to a request for the ownership of a client id:
/// refused while another handshake for it is under way, else granted, and
/// told who owned it before.
pub open spec fn lock_outcome(
    m: Table,
    id: Id,
    now: TimestampMillis,
    timeout: u64,
) -> LockOutcome {
    if m.contains_key(id.client_id@) {
        let s = m[id.client_id@];
        if s.spec_handshaking(timeout, now) {
            LockOutcome::Refused
        } else {
            LockOutcome::Granted(Some(s.id))
        }
    } else {
        LockOutcome::Granted(None)
    }
}

/// The table after a request for ownership: a granted request marks its
/// identity as the one whose handshake is under way.
pub open spec fn after_try_lock(m: Table, id: Id, now: TimestampMillis, timeout: u64) -> Table {
    if lock_outcome(m, id, now, timeout) is Refused {
        m
    } else {
        m.insert(
            id.client_id@,
            ClientStatus { id, online: false, handshaking: true, handshak_duration: now },
        )
    }
}

/// The table after `Connected`: the identity owns its client id.
pub open spec fn after_connected(m: Table, id: Id, now: TimestampMillis) -> Table {
    m.insert(
        id.client_id@,
        ClientStatus { id, online: true, handshaking: false, handshak_duration: now },
    )
}

/// The table after `Disconnected`: the owner is off line, if it is still
/// the identity that closed.
pub open spec fn after_disconnected(m: Table, id: Id) -> Table {
    if m.contains_key(id.client_id@) && m[id.client_id@].id.same(id) {
        m.insert(id.client_id@, ClientStatus { online: false, ..m[id.client_id@] })
    } else {
        m
    }
}

/// The table after `SessionTerminated`: the client id is owned by no one,
/// if the owner was still the identity whose session ended.
pub open spec fn after_terminated(m: Table, id: Id) -> Table {
    if m.contains_key(id.client_id@) && m[id.client_id@].id.same(id) {
        m.remove(id.client_id@)
    } else {
        m
    }
}

/// The table after one fact.
pub open spec fn after(m: Table, fact: Message, now: TimestampMillis, timeout: u64) -> Table {
    match fact {
        Message::HandshakeTryLock { id } => after_try_lock(m, id, now, timeout),
        Message::Connected { id } => after_connected(m, id, now),
        Message::Disconnected { id } => after_disconnected(m, id),
        Message::SessionTerminated { id } => after_terminated(m, id),
    }
}

/// The table after the facts of a log, each applied at its time.
pub open spec fn replay(m: Table, log: Seq<(Message, TimestampMillis)>, timeout: u64) -> Table
    decreases log.len(),
{
    if log.len() == 0 {
        m
    } else {
        replay(after(m, log[0].0, log[0].1, timeout), log.skip(1), timeout)
    }
}

/// The identity that owns a client id.
pub open spec fn owner(m: Table, client_id: Seq<char>) -> Option<Id> {
    if m.contains_key(client_id) {
        Some(m[client_id].id)
    } else {
        None
    }
}

/// Of two requests for the ownership of one client id that the log applies
/// one after the other, the first of them granted, the second is refused
/// as long as the first handshake is under way, and is otherwise told of
/// the first: it is never granted as if no one had come before.
pub proof fn law_second_lock_sees_first(
    m: Table,
    first: Id,
    second: Id,
    t1: TimestampMillis,
    t2: TimestampMillis,
    timeout: u64,
)
    requires
        first.client_id@ == second.client_id@,
        lock_outcome(m, first, t1, timeout) is Granted,
    ensures
        t2 - t1 < timeout ==> lock_outcome(after_try_lock(m, first, t1, timeout), second, t2, timeout)
            is Refused,
        t2 - t1 >= timeout ==> lock_outcome(
            after_try_lock(m, first, t1, timeout),
            second,
            t2,
            timeout,
        ) == LockOutcome::Granted(Some(first)),
        lock_outcome(after_try_lock(m, first, t1, timeout), second, t2, timeout)
            != LockOutcome::Granted(None),
        after_try_lock(after_try_lock(m, first, t1, timeout), second, t2, timeout).dom()
            == after_try_lock(m, first, t1, timeout).dom(),
{
    let m1 = after_try_lock(m, first, t1, timeout);
    assert(m1.contains_key(second.client_id@));
    let m2 = after_try_lock(m1, second, t2, timeout);
    assert(m2.dom() =~= m1.dom());
}

/// A request for the ownership of a client id whose owner is connected is
/// granted, and told of that owner.
pub proof fn law_lock_after_connected_names_owner(
    m: Table,
    owner_id: Id,
    t0: TimestampMillis,
    next: Id,
    now: TimestampMillis,
    timeout: u64,
)
    requires
        owner_id.client_id@ == next.client_id@,
    ensures
        lock_outcome(after_connected(m, owner_id, t0), next, now, timeout) == LockOutcome::Granted(
            Some(owner_id),
        ),
{
}

/// Once `Connected` is committed for an identity, every node that has
/// applied the log that far finds that identity as the owner of its client
/// id, connected, whatever facts on other client ids follow.
pub proof fn law_commit_is_observed(
    m: Table,
    id: Id,
    now: TimestampMillis,
    rest: Seq<(Message, TimestampMillis)>,
    timeout: u64,
)
    requires
        forall|i: int| 0 <= i < rest.len() ==> (#[trigger] rest[i]).0.spec_id().client_id@
            != id.client_id@,
    ensures
        owner(replay(after_connected(m, id, now), rest, timeout), id.client_id@) == Some(id),
        replay(after_connected(m, id, now), rest, timeout)[id.client_id@].online,
{
    let m1 = after_connected(m, id, now);
    lemma_replay_keeps(m1, id.client_id@, rest, timeout);
}

/// Facts on other client ids leave what the table holds for a client id.
proof fn lemma_replay_keeps(
    m: Table,
    client_id: Seq<char>,
    rest: Seq<(Message, TimestampMillis)>,
    timeout: u64,
)
    requires
        forall|i: int| 0 <= i < rest.len() ==> (#[trigger] rest[i]).0.spec_id().client_id@
            != client_id,
    ensures
        replay(m, rest, timeout).contains_key(client_id) == m.contains_key(client_id),
        m.contains_key(client_id) ==> replay(m, rest, timeout)[client_id] == m[client_id],
    decreases rest.len(),
{
    if rest.len() > 0 {
        let fact = rest[0].0;
        let m1 = after(m, fact, rest[0].1, timeout);
        assert(fact.spec_id().client_id@ != client_id);
        assert(m1.contains_key(client_id) == m.contains_key(client_id));
        assert(m.contains_key(client_id) ==> m1[client_id] == m[client_id]);
        assert forall|i: int| 0 <= i < rest.skip(1).len() implies (#[trigger] rest.skip(
            1,
        )[i]).0.spec_id().client_id@ != client_id by {
            assert(rest.skip(1)[i] == rest[i + 1]);
        }
        lemma_replay_keeps(m1, client_id, rest.skip(1), timeout);
    }
}

/// Nodes that have applied the same facts hold the same table.
pub proof fn law_same_log_same_table(
    m: Table,
    log_a: Seq<(Message, TimestampMillis)>,
    log_b: Seq<(Message, TimestampMillis)>,
    timeout: u64,
)
    requires
        log_a == log_b,
    ensures
        replay(m, log_a, timeout) == replay(m, log_b, timeout),
{
}

/// The ownership table of one node.
#[derive(Debug, PartialEq, Eq)]
pub struct ClientStates {
    states: StrMap<ClientStatus>,
    try_lock_timeout_millis: u64,
}

impl View for ClientStates {
    type V = Table;

    closed spec fn view(&self) -> Table {
        self.states@
    }
}

impl ClientStates {
    /// The invariant of the table.
    pub closed spec fn wf(&self) -> bool {
        self.states.wf()
    }

    /// The time allowed for one handshake.
    pub closed spec fn timeout(&self) -> u64 {
        self.try_lock_timeout_millis
    }

    /// Number of client ids the table knows.
    pub closed spec fn count(&self) -> nat {
        self.states.count()
    }

    /// An empty table, with the time allowed for one handshake.
    pub fn new(try_lock_timeout_millis: u64) -> (r: ClientStates)
        ensures
            r.wf(),
            r@ =~= Map::<Seq<char>, ClientStatus>::empty(),
            r.timeout() == try_lock_timeout_millis,
            r.count() == 0,
    {
        ClientStates { states: StrMap::new(), try_lock_timeout_millis }
    }

    /// Applies a request for ownership and gives the log's answer.
    pub fn try_lock(&mut self, id: Id, now: TimestampMillis) -> (r: MessageReply)
        requires
            old(self).wf(),
        ensures
            final(self).wf(),
            final(self).timeout() == old(self).timeout(),
            final(self)@ == after_try_lock(old(self)@, id, now, old(self).timeout()),
            match lock_outcome(old(self)@, id, now, old(self).timeout()) {
                LockOutcome::Granted(prev) => r == MessageReply::HandshakeTryLock(prev),
                LockOutcome::Refused => r matches MessageReply::Error(e) && e@
                    == "Handshake try lock failed"@,
            },
    {
        let timeout = self.try_lock_timeout_millis;
        let prev: Option<Id> = match self.states.get(&id.client_id) {
            Some(status) => {
                if status.handshaking(timeout, now) {
                    return MessageReply::Error(String::from_str("Handshake try lock failed"));
                }
                Some(status.id.clone())
            },
            None => None,
        };
        let key = id.client_id.clone();
        self.states.insert(key, ClientStatus::new(id, false, true, now));
        MessageReply::HandshakeTryLock(prev)
    }

    /// Applies `Connected`.
    pub fn connected(&mut self, id: Id, now: TimestampMillis)
        requires
            old(self).wf(),
        ensures
            final(self).wf(),
            final(self).timeout() == old(self).timeout(),
            final(self)@ == after_connected(old(self)@, id, now),
    {
        let key = id.client_id.clone();
        self.states.insert(key, ClientStatus::new(id, true, false, now));
    }

    /// Applies `Disconnected`.
    pub fn disconnected(&mut self, id: &Id)
        requires
            old(self).wf(),
        ensures
            final(self).wf(),
            final(self).timeout() == old(self).timeout(),
            final(self)@ == after_disconnected(old(self)@, *id),
    {
        let update = match self.states.get(&id.client_id) {
            Some(status) => {
                if status.id.is_same(id) {
                    Some(
                        ClientStatus {
                            id: status.id.clone(),
                            online: false,
                            handshaking: status.handshaking,
                            handshak_duration: status.handshak_duration,
                        },
                    )
                } else {
                    None
                }
            },
            None => None,
        };
        match update {
            Some(status) => {
                self.states.insert(id.client_id.clone(), status);
            },
            None => {},
        }
    }

    /// Applies `SessionTerminated`.
    pub fn session_terminated(&mut self, id: &Id)
        requires
            old(self).wf(),
        ensures
            final(self).wf(),
            final(self).timeout() == old(self).timeout(),
            final(self)@ == after_terminated(old(self)@, *id),
    {
        let owned = match self.states.get(&id.client_id) {
            Some(status) => status.id.is_same(id),
            None => false,
        };
        if owned {
            self.states.remove(&id.client_id);
        }
    }

    /// Applies one committed fact and gives the log's answer, if the fact
    /// has one.
    pub fn apply(&mut self, fact: Message, now: TimestampMillis) -> (r: Option<MessageReply>)
        requires
            old(self).wf(),
        ensures
            final(self).wf(),
            final(self).timeout() == old(self).timeout(),
            final(self)@ == after(old(self)@, fact, now, old(self).timeout()),
            match fact {
                Message::HandshakeTryLock { id } => match lock_outcome(
                    old(self)@,
                    id,
                    now,
                    old(self).timeout(),
                ) {
                    LockOutcome::Granted(prev) => r == Some(MessageReply::HandshakeTryLock(prev)),
                    LockOutcome::Refused => {
                        &&& r matches Some(MessageReply::Error(e))
                        &&& e@ == "Handshake try lock failed"@
                    },
                },
                _ => r is None,
            },
    {
        match fact {
            Message::HandshakeTryLock { id } => Some(self.try_lock(id, now)),
            Message::Connected { id } => {
                self.connected(id, now);
                None
            },
            Message::Disconnected { id } => {
                self.disconnected(&id);
                None
            },
            Message::SessionTerminated { id } => {
                self.session_terminated(&id);
                None
            },
        }
    }

    /// What the table holds for a client id.
    pub fn status(&self, client_id: &ClientId) -> (r: Option<ClientStatus>)
        requires
            self.wf(),
        ensures
            r == if self@.contains_key(client_id@) {
                Some(self@[client_id@])
            } else {
                None
            },
    {
        match self.states.get(client_id) {
            Some(s) => Some(s.clone()),
            None => None,
        }
    }

    /// The identity that owns a client id.
    pub fn id(&self, client_id: &ClientId) -> (r: Option<Id>)
        requires
            self.wf(),
        ensures
            r == owner(self@, client_id@),
    {
        match self.states.get(client_id) {
            Some(s) => Some(s.id.clone()),
            None => None,
        }
    }

    /// The node that owns a client id.
    pub fn get_client_node_id(&self, client_id: &ClientId) -> (r: Option<NodeId>)
        requires
            self.wf(),
        ensures
            r == match owner(self@, client_id@) {
                Some(id) => Some(id.node_id),
                None => None,
            },
    {
        match self.states.get(client_id) {
            Some(s) => Some(s.id.node_id),
            None => None,
        }
    }

    /// Whether the owner of a client id is connected.
    pub fn is_online(&self, client_id: &ClientId) -> (r: bool)
        requires
            self.wf(),
        ensures
            r == (self@.contains_key(client_id@) && self@[client_id@].online),
    {
        match self.states.get(client_id) {
            Some(s) => s.online,
            None => false,
        }
    }

    /// Number of client ids the table knows.
    pub fn states_count(&self) -> (r: usize)
        ensures
            r == self.count(),
    {
        self.states.len()
    }

    /// Forgets a client id.
    pub fn remove_client_status(&mut self, client_id: &ClientId)
        requires
            old(self).wf(),
        ensures
            final(self).wf(),
            final(self).timeout() == old(self).timeout(),
            final(self)@ == old(self)@.remove(client_id@),
    {
        self.states.remove(client_id);
    }
}

} // verus!
