//! A broker that stands alone: the handshake of a connection carried out
//! against the registry of the one node, from the first check to the
//! session in its slot.

use vstd::prelude::*;
use crate::broker::registry::{SessionRegistry, SlotState};
use crate::broker::session::{lemma_taken_over_as_it_is, ConnectInfo};
use crate::broker::v5::{Action, ConnectAck, ConnectAckReasonV5, Handshake, Limits};
use crate::settings::listener::ListenerInner;
use crate::types::{Subscription, TimestampMillis};

verus! {

/// How a connection attempt ended.
#[derive(Debug, PartialEq, Eq)]
pub enum ConnectOutcome {
    /// The session is installed; this is what the client is granted.
    Connected(ConnectAck),
    /// The client is refused, with this code and for this reason.
    Refused(ConnectAckReasonV5, String),
}

/// What the collaborators of a handshake say of one connection: whether
/// the client is let in, which limits fit it, and what the listener
/// offers.
#[derive(Debug, PartialEq, Eq)]
pub struct Answers {
    pub authenticate: ConnectAckReasonV5,
    pub limits: Limits,
    pub connected_at: TimestampMillis,
    pub retain_available: bool,
    pub shared_subscription_available: bool,
}

/// Why a connection is refused before anything is changed, if it is.
pub open spec fn refused_early(
    registry: SessionRegistry,
    listen_cfg: ListenerInner,
    connect_info: ConnectInfo,
    answers: Answers,
) -> Option<ConnectAckReasonV5> {
    if listen_cfg.max_clientid_len > 0 && connect_info.id.client_id_bytes()
        > listen_cfg.max_clientid_len {
        Some(ConnectAckReasonV5::ClientIdentifierNotValid)
    } else if connect_info.auth_method is Some {
        Some(ConnectAckReasonV5::BadAuthenticationMethod)
    } else if !answers.authenticate.spec_success() {
        Some(answers.authenticate)
    } else if registry.lockers().contains_key(connect_info.id.client_id@) {
        Some(ConnectAckReasonV5::ServerUnavailable)
    } else {
        None
    }
}

/// Carries a handshake out against the registry. The steps are those of
/// [`Handshake`]; the lock, the eviction and the installation are the
/// registry's. The lock is given back when the handshake ends, however it
/// ends.
///
/// A connection that is refused before it holds the lock changes nothing.
/// One that is refused for want of a keep-alive interval has evicted the
/// earlier session already. One that succeeds has its session in the slot
/// of its client id, in place of the earlier one, with the subscriptions
/// of the earlier one unless the client asked for a clean start.
pub fn connect(
    registry: &mut SessionRegistry,
    listen_cfg: ListenerInner,
    connect_info: ConnectInfo,
    answers: Answers,
) -> (r: ConnectOutcome)
    requires
        old(registry).wf(),
    ensures
        final(registry).wf(),
        final(registry).node() == old(registry).node(),
        final(registry).lockers() == old(registry).lockers(),
        ({
            let c = connect_info.id.client_id@;
            let before = old(registry).peers();
            let after = final(registry).peers();
            match refused_early(*old(registry), listen_cfg, connect_info, answers) {
                Some(code) => {
                    &&& r matches ConnectOutcome::Refused(refused, _)
                    &&& refused == code
                    &&& after == before
                },
                None => match answers.limits.keep_alive {
                    Err(e) => {
                        &&& r matches ConnectOutcome::Refused(refused, reason)
                        &&& refused == ConnectAckReasonV5::ServerUnavailable
                        &&& reason@ == e.spec_message()
                        &&& after == before.remove(c)
                    },
                    Ok(k) => {
                        let resumed = before.contains_key(c) && !connect_info.clean_start;
                        &&& r matches ConnectOutcome::Connected(ack)
                        &&& ack.session_present == resumed
                        &&& ack.keep_alive == k.0
                        &&& ack.server_keepalive_sec == Some(k.1)
                        &&& ack.receive_max == Some(answers.limits.max_inflight)
                        &&& ack.max_qos == Some(listen_cfg.max_qos_allowed)
                        &&& ack.max_packet_size == Some(answers.limits.max_packet_size)
                        &&& ack.retain_available == Some(answers.retain_available)
                        &&& ack.shared_subscription_available == Some(
                            answers.shared_subscription_available,
                        )
                        &&& ack.session_expiry_interval_secs
                            == connect_info.session_expiry_interval_secs
                        &&& final(registry).slot(c) == SlotState::Occupied
                        &&& after.dom() == before.dom().insert(c)
                        &&& forall|other: Seq<char>|
                            other != c && before.contains_key(other) ==> after[other]
                                == before[other]
                        &&& after[c].session.id == connect_info.id
                        &&& after[c].session.max_inflight == answers.limits.max_inflight as usize
                        &&& after[c].session.inflight_win@.len() == 0
                        &&& after[c].session.created_at == if before.contains_key(c) {
                            before[c].session.created_at
                        } else {
                            answers.connected_at
                        }
                        &&& after[c].session.subscriptions@ == if resumed {
                            before[c].session.subscriptions@
                        } else {
                            Seq::<Subscription>::empty()
                        }
                        &&& after[c].client.connect_info == connect_info
                        &&& after[c].client.session_present == resumed
                        &&& after[c].client.connected_at == answers.connected_at
                    },
                },
            }
        }),
{
    let ghost before = *registry;
    let ghost c = connect_info.id.client_id@;
    let entry = registry.entry(connect_info.id.clone());
    let mut hs = Handshake::new(listen_cfg, connect_info);

    let action = hs.begin();
    match action {
        Action::Refuse { code, reason } => {
            return ConnectOutcome::Refused(code, reason);
        },
        _ => {},
    }
    let action = hs.authenticated(answers.authenticate);
    match action {
        Action::Refuse { code, reason } => {
            return ConnectOutcome::Refused(code, reason);
        },
        _ => {},
    }
    let locked = registry.try_lock(&entry);
    let action = hs.locked(locked);
    match action {
        Action::Refuse { code, reason } => {
            return ConnectOutcome::Refused(code, reason);
        },
        _ => {},
    }
    let ghost locked_registry = *registry;
    let kicked = registry.kick(&entry, hs_clean_start(&action), false);
    let ghost evicted_registry = *registry;
    proof {
        if before.peers().contains_key(c) {
            before.lemma_session_in_slot(c);
        }
    }
    let action = hs.kicked(kicked);
    let action = hs.fitted(answers.limits, answers.connected_at);
    match action {
        Action::Install { session, client, session_created } => {
            let installed = registry.set(&entry, session, client);
            let action = hs.installed(
                installed,
                answers.retain_available,
                answers.shared_subscription_available,
            );
            match action {
                Action::Ack { ack, transfer, clean_start } => {
                    match transfer {
                        Some(offline_info) => {
                            proof {
                                let left = offline_info.subscriptions@;
                                lemma_taken_over_as_it_is(left, left.len() as int);
                                assert(left.take(left.len() as int) =~= left);
                                assert(registry.peers()[c].session.subscriptions@ =~= Seq::<
                                    Subscription,
                                >::empty());
                            }
                            registry.transfer_session_state(&entry, clean_start, offline_info);
                        },
                        None => {},
                    }
                    registry.unlock(&entry);
                    proof {
                        assert(registry.lockers() =~= before.lockers());
                        assert(registry.peers().dom() =~= before.peers().dom().insert(c));
                    }
                    ConnectOutcome::Connected(ack)
                },
                Action::Refuse { code, reason } => {
                    registry.unlock(&entry);
                    proof {
                        assert(false);
                    }
                    ConnectOutcome::Refused(code, reason)
                },
                _ => {
                    proof {
                        assert(false);
                    }
                    registry.unlock(&entry);
                    ConnectOutcome::Refused(ConnectAckReasonV5::UnspecifiedError, String::new())
                },
            }
        },
        Action::Refuse { code, reason } => {
            registry.unlock(&entry);
            proof {
                assert(registry.lockers() =~= before.lockers());
            }
            ConnectOutcome::Refused(code, reason)
        },
        _ => {
            proof {
                assert(false);
            }
            registry.unlock(&entry);
            ConnectOutcome::Refused(ConnectAckReasonV5::UnspecifiedError, String::new())
        },
    }
}

/// Whether the eviction that an action asks for clears the subscriptions.
fn hs_clean_start(action: &Action) -> (r: bool)
    ensures
        action matches Action::Kick { clear_subscriptions, .. } ==> r == clear_subscriptions,
{
    match action {
        Action::Kick { clear_subscriptions, .. } => *clear_subscriptions,
        _ => false,
    }
}

/// Of two connections with one client id that are carried out one after
/// the other, the second takes the slot from the first: the client id has
/// one session on the node at any time, the one of the connection that
/// came last.
pub proof fn law_one_session_per_client_id(
    after_first: SessionRegistry,
    after_second: SessionRegistry,
    first: ConnectInfo,
    second: ConnectInfo,
)
    requires
        after_first.wf(),
        after_second.wf(),
        first.id.client_id@ == second.id.client_id@,
        after_first.peers().contains_key(first.id.client_id@),
        after_first.peers()[first.id.client_id@].session.id == first.id,
        after_second.peers().dom() == after_first.peers().dom().insert(second.id.client_id@),
        after_second.peers()[second.id.client_id@].session.id == second.id,
    ensures
        after_second.peers().dom() == after_first.peers().dom(),
        forall|c: Seq<char>| #[trigger]
            after_second.peers().contains_key(c) && after_second.peers()[c].session.id.client_id@
                == second.id.client_id@ ==> after_second.peers()[c].session.id == second.id,
{
    let c = second.id.client_id@;
    assert(after_second.peers().dom() =~= after_first.peers().dom());
    assert forall|k: Seq<char>| #[trigger]
        after_second.peers().contains_key(k) && after_second.peers()[k].session.id.client_id@
            == c implies after_second.peers()[k].session.id == second.id by {
        after_second.law_one_session_per_client(k, c);
    }
}

} // verus!
