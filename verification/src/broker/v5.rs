//! A connection that speaks version 5 of the protocol: its handshake, step
//! by step, and what its control packets ask for.
//!
//! The handshake is a machine. Each step takes what the world answered to
//! the step before and says what to do next; the caller does it and comes
//! back with the answer. Any failure ends the handshake with a refusal
//! that bears a reason code.

use vstd::prelude::*;
use crate::broker::error::MqttError;
use crate::broker::inflight::{
    in_use, position, InflightMessage, InflightWindow, MomentStatus, PublishMessage, PublishOutcome,
};
use crate::broker::session::{ClientInfo, ConnectInfo, Session};
use crate::settings::listener::ListenerInner;
use crate::text::join2;
use crate::topic::{Level, LevelView, Topic};
use crate::types::{
    Id, QoS, Reason, SessionOfflineInfo, SharedGroup, TimestampMillis,
};

verus! {

/// The reason codes of the acknowledgement of a connection.
#[derive(Clone, Copy, Debug, PartialEq, Eq, Structural)]
pub enum ConnectAckReasonV5 {
    Success,
    UnspecifiedError,
    MalformedPacket,
    ProtocolError,
    ImplementationSpecificError,
    UnsupportedProtocolVersion,
    ClientIdentifierNotValid,
    BadUserNameOrPassword,
    NotAuthorized,
    ServerUnavailable,
    ServerBusy,
    Banned,
    BadAuthenticationMethod,
    TopicNameInvalid,
    PacketTooLarge,
    QuotaExceeded,
    PayloadFormatInvalid,
    RetainNotSupported,
    QosNotSupported,
    UseAnotherServer,
    ServerMoved,
    ConnectionRateExceeded,
}

impl ConnectAckReasonV5 {
    pub open spec fn spec_success(self) -> bool {
        self == ConnectAckReasonV5::Success
    }

    pub fn success(self) -> (r: bool)
        ensures
            r == self.spec_success(),
    {
        match self {
            ConnectAckReasonV5::Success => true,
            _ => false,
        }
    }
}

/// The acknowledgement of a connection that was accepted: what the broker
/// grants the client.
#[derive(Clone, Copy, Debug, PartialEq, Eq, Structural)]
pub struct ConnectAck {
    pub session_present: bool,
    pub keep_alive: u16,
    pub server_keepalive_sec: Option<u16>,
    pub session_expiry_interval_secs: Option<u32>,
    pub receive_max: Option<u16>,
    pub max_qos: Option<QoS>,
    pub retain_available: Option<bool>,
    pub max_packet_size: Option<u32>,
    pub topic_alias_max: u16,
    pub wildcard_subscription_available: Option<bool>,
    pub subscription_identifiers_available: Option<bool>,
    pub shared_subscription_available: Option<bool>,
}

/// The limits that the fitter computed for a connection.
#[derive(Debug, PartialEq, Eq)]
pub struct Limits {
    /// Messages in flight at once; never zero.
    pub max_inflight: u16,
    pub max_mqueue_len: usize,
    /// The keep-alive interval the broker holds the client to, and the
    /// interval it tells the client; or why none could be found.
    pub keep_alive: Result<(u16, u16), MqttError>,
    pub max_packet_size: u32,
}

/// How far a handshake has come.
#[derive(Clone, Copy, Debug, PartialEq, Eq, Structural)]
pub enum Phase {
    /// Admitted; nothing is checked yet.
    Handshaking,
    /// The authenticate hook is asked.
    Authenticating,
    /// The lock on the client id is asked for.
    Locking,
    /// The earlier session, if any, is being evicted.
    Kicking,
    /// The fitter is asked for the limits.
    Fitting,
    /// The session is being installed.
    Installing,
    /// The session is installed and the client is told.
    Established,
    /// The client is told that it is refused.
    Refused,
}

/// The states of a connection as the protocol names them.
#[derive(Clone, Copy, Debug, PartialEq, Eq, Structural)]
pub enum State {
    Handshaking,
    Authenticating,
    AcquiringOwnership,
    Established,
    Disconnecting,
    Terminated,
}

impl Phase {
    /// The state of the connection in a phase of the handshake.
    pub open spec fn state(self) -> State {
        match self {
            Phase::Handshaking => State::Handshaking,
            Phase::Authenticating => State::Authenticating,
            Phase::Locking | Phase::Kicking | Phase::Fitting | Phase::Installing =>
                State::AcquiringOwnership,
            Phase::Established => State::Established,
            Phase::Refused => State::Terminated,
        }
    }

    /// The state of the connection in a phase of the handshake.
    pub fn connection_state(self) -> (r: State)
        ensures
            r == self.state(),
    {
        match self {
            Phase::Handshaking => State::Handshaking,
            Phase::Authenticating => State::Authenticating,
            Phase::Locking => State::AcquiringOwnership,
            Phase::Kicking => State::AcquiringOwnership,
            Phase::Fitting => State::AcquiringOwnership,
            Phase::Installing => State::AcquiringOwnership,
            Phase::Established => State::Established,
            Phase::Refused => State::Terminated,
        }
    }
}

impl State {
    /// The state after a control packet was answered. A leave, a close
    /// and an error begin the end of an established connection; to
    /// subscribe, to unsubscribe, a ping and an authentication leave it
    /// established. In any other state a control packet changes nothing.
    pub open spec fn spec_after(self, ack: ControlAck) -> State {
        if self == State::Established && ack.ends_connection() {
            State::Disconnecting
        } else {
            self
        }
    }

    /// The state after a control packet was answered.
    pub fn after(self, ack: ControlAck) -> (r: State)
        ensures
            r == self.spec_after(ack),
    {
        match self {
            State::Established => if ack.is_end() {
                State::Disconnecting
            } else {
                State::Established
            },
            _ => self,
        }
    }

    /// The state once the session of the connection is torn down: the
    /// connection is over, whatever it was doing.
    pub fn torn_down(self) -> (r: State)
        ensures
            r == State::Terminated,
    {
        State::Terminated
    }
}

/// What the caller is to do next.
#[derive(Debug, PartialEq, Eq)]
pub enum Action {
    /// Ask the authenticate hook.
    Authenticate { allow_anonymous: bool },
    /// Ask for the lock on the client id.
    TryLock,
    /// Evict the earlier session. A handshake is never an administrator.
    Kick { clear_subscriptions: bool, is_admin: bool },
    /// Ask the fitter for the limits.
    Fit,
    /// Install this session. `session_created` says that the session is
    /// new, and the hook for new sessions is due.
    Install { session: Session, client: ClientInfo, session_created: bool },
    /// Tell the client that it is connected. What an evicted session left
    /// behind goes to the new one first.
    Ack { ack: ConnectAck, transfer: Option<SessionOfflineInfo>, clean_start: bool },
    /// Tell the client that it is refused.
    Refuse { code: ConnectAckReasonV5, reason: String },
}

/// One handshake.
#[derive(Debug, PartialEq, Eq)]
pub struct Handshake {
    listen_cfg: ListenerInner,
    id: Id,
    clean_start: bool,
    packet_keep_alive: u16,
    session_expiry_interval_secs: Option<u32>,
    has_auth_method: bool,
    connect_info: Option<ConnectInfo>,
    phase: Phase,
    session_present: bool,
    offline_info: Option<SessionOfflineInfo>,
    keep_alive: u16,
    max_inflight: u16,
    max_packet_size: u32,
}

/// Whether a handshake has waited for its turn longer than the listener
/// allows: it is then given up before it begins.
pub open spec fn spec_timed_out(elapsed_millis: i64, handshake_timeout: u16) -> bool {
    elapsed_millis > handshake_timeout as i64
}

/// What comes of a handshake that waited `elapsed_millis` for its turn.
pub fn admission(elapsed_millis: i64, handshake_timeout: u16) -> (r: Result<(), MqttError>)
    ensures
        match r {
            Ok(_) => !spec_timed_out(elapsed_millis, handshake_timeout),
            Err(e) => {
                &&& spec_timed_out(elapsed_millis, handshake_timeout)
                &&& e == MqttError::Timeout(handshake_timeout as u64)
            },
        },
{
    if elapsed_millis > handshake_timeout as i64 {
        Err(MqttError::Timeout(handshake_timeout as u64))
    } else {
        Ok(())
    }
}

/// What comes of a handshake that the queue of handshakes gave up: it
/// ran out of time, and the error carries the listener's limit.
pub fn queue_failure(handshake_timeout: u16) -> (r: MqttError)
    ensures
        r == MqttError::Timeout(handshake_timeout as u64),
{
    MqttError::Timeout(handshake_timeout as u64)
}

/// How often a handshake was given up for want of time. The count starts
/// again at zero beyond the largest number it can hold.
#[derive(Debug, PartialEq, Eq)]
pub struct HandshakeStats {
    timeouts: u64,
}

/// The count that follows `n`.
pub open spec fn counted(n: u64) -> u64 {
    if n == u64::MAX {
        0
    } else {
        (n + 1) as u64
    }
}

impl HandshakeStats {
    /// Number of handshakes given up for want of time.
    pub closed spec fn spec_timeouts(&self) -> u64 {
        self.timeouts
    }

    pub fn new() -> (r: HandshakeStats)
        ensures
            r.spec_timeouts() == 0,
    {
        HandshakeStats { timeouts: 0 }
    }

    /// Number of handshakes given up for want of time.
    pub fn timeouts(&self) -> (r: u64)
        ensures
            r == self.spec_timeouts(),
    {
        self.timeouts
    }

    fn count(&mut self)
        ensures
            final(self).spec_timeouts() == counted(old(self).spec_timeouts()),
    {
        self.timeouts = if self.timeouts == u64::MAX {
            0
        } else {
            self.timeouts + 1
        };
    }

    /// Admits a handshake that waited `elapsed_millis` for its turn, or
    /// gives it up and counts it.
    pub fn let_in(&mut self, elapsed_millis: i64, handshake_timeout: u16) -> (r: Result<
        (),
        MqttError,
    >)
        ensures
            match r {
                Ok(_) => {
                    &&& !spec_timed_out(elapsed_millis, handshake_timeout)
                    &&& final(self).spec_timeouts() == old(self).spec_timeouts()
                },
                Err(e) => {
                    &&& spec_timed_out(elapsed_millis, handshake_timeout)
                    &&& e == MqttError::Timeout(handshake_timeout as u64)
                    &&& final(self).spec_timeouts() == counted(old(self).spec_timeouts())
                },
            },
    {
        match admission(elapsed_millis, handshake_timeout) {
            Ok(_) => Ok(()),
            Err(e) => {
                self.count();
                Err(e)
            },
        }
    }

    /// Counts a handshake that the queue of handshakes gave up, and says
    /// what comes of it.
    pub fn queue_failed(&mut self, handshake_timeout: u16) -> (r: MqttError)
        ensures
            r == MqttError::Timeout(handshake_timeout as u64),
            final(self).spec_timeouts() == counted(old(self).spec_timeouts()),
    {
        self.count();
        queue_failure(handshake_timeout)
    }
}

impl Handshake {
    pub closed spec fn phase(&self) -> Phase {
        self.phase
    }

    pub closed spec fn id(&self) -> Id {
        self.id
    }

    pub closed spec fn listen_cfg(&self) -> ListenerInner {
        self.listen_cfg
    }

    pub closed spec fn clean_start(&self) -> bool {
        self.clean_start
    }

    pub closed spec fn packet_keep_alive(&self) -> u16 {
        self.packet_keep_alive
    }

    pub closed spec fn session_expiry(&self) -> Option<u32> {
        self.session_expiry_interval_secs
    }

    pub closed spec fn has_auth_method(&self) -> bool {
        self.has_auth_method
    }

    pub closed spec fn connect_info(&self) -> Option<ConnectInfo> {
        self.connect_info
    }

    /// Whether the client resumes a session: one was evicted and the
    /// client did not ask for a clean start.
    pub closed spec fn session_present(&self) -> bool {
        self.session_present
    }

    /// What the evicted session left behind.
    pub closed spec fn offline_info(&self) -> Option<SessionOfflineInfo> {
        self.offline_info
    }

    pub closed spec fn keep_alive(&self) -> u16 {
        self.keep_alive
    }

    pub closed spec fn max_inflight(&self) -> u16 {
        self.max_inflight
    }

    pub closed spec fn max_packet_size(&self) -> u32 {
        self.max_packet_size
    }

    /// What of a handshake never changes and what is still to come.
    pub open spec fn same_connection(&self, other: &Handshake) -> bool {
        &&& self.id() == other.id()
        &&& self.listen_cfg() == other.listen_cfg()
        &&& self.clean_start() == other.clean_start()
        &&& self.session_expiry() == other.session_expiry()
        &&& self.has_auth_method() == other.has_auth_method()
    }

    /// The phase of the handshake.
    pub fn get_phase(&self) -> (r: Phase)
        ensures
            r == self.phase(),
    {
        self.phase
    }

    /// A handshake that was admitted.
    pub fn new(listen_cfg: ListenerInner, connect_info: ConnectInfo) -> (r: Handshake)
        ensures
            r.phase() == Phase::Handshaking,
            r.id() == connect_info.id,
            r.listen_cfg() == listen_cfg,
            r.clean_start() == connect_info.clean_start,
            r.packet_keep_alive() == connect_info.keep_alive,
            r.session_expiry() == connect_info.session_expiry_interval_secs,
            r.has_auth_method() == connect_info.auth_method.is_some(),
            r.connect_info() == Some(connect_info),
            !r.session_present(),
            r.offline_info() is None,
    {
        Handshake {
            listen_cfg,
            id: connect_info.id.clone(),
            clean_start: connect_info.clean_start,
            packet_keep_alive: connect_info.keep_alive,
            session_expiry_interval_secs: connect_info.session_expiry_interval_secs,
            has_auth_method: connect_info.auth_method.is_some(),
            connect_info: Some(connect_info),
            phase: Phase::Handshaking,
            session_present: false,
            offline_info: None,
            keep_alive: 0,
            max_inflight: 0,
            max_packet_size: 0,
        }
    }

    /// Whether two handshakes differ in their phase at most.
    spec fn rest_same(&self, other: &Handshake) -> bool {
        *self == (Handshake { phase: self.phase, ..*other })
    }

    fn refuse(&mut self, code: ConnectAckReasonV5, reason: String) -> (r: Action)
        ensures
            final(self).phase() == Phase::Refused,
            final(self).rest_same(old(self)),
            r == (Action::Refuse { code, reason }),
    {
        self.phase = Phase::Refused;
        Action::Refuse { code, reason }
    }

    /// The first step: the checks that need no one's answer. A client id
    /// longer than the listener allows is refused, zero being no limit;
    /// so is a client that asks for an extended authentication. Else the
    /// authenticate hook is asked.
    pub fn begin(&mut self) -> (r: Action)
        requires
            old(self).phase() == Phase::Handshaking,
        ensures
            final(self).same_connection(old(self)),
            final(self).connect_info() == old(self).connect_info(),
            ({
                let cfg = old(self).listen_cfg();
                let too_long = cfg.max_clientid_len > 0 && old(self).id().client_id_bytes()
                    > cfg.max_clientid_len;
                if too_long {
                    &&& final(self).phase() == Phase::Refused
                    &&& r matches Action::Refuse { code, reason }
                    &&& code == ConnectAckReasonV5::ClientIdentifierNotValid
                    &&& reason@ == "client_id is too long"@
                } else if old(self).has_auth_method() {
                    &&& final(self).phase() == Phase::Refused
                    &&& r matches Action::Refuse { code, reason }
                    &&& code == ConnectAckReasonV5::BadAuthenticationMethod
                    &&& reason@ == "extended Auth is not supported"@
                } else {
                    &&& final(self).phase() == Phase::Authenticating
                    &&& r == (Action::Authenticate { allow_anonymous: cfg.allow_anonymous })
                }
            }),
    {
        if self.listen_cfg.max_clientid_len > 0 && self.id.client_id_len()
            > self.listen_cfg.max_clientid_len {
            return self.refuse(
                ConnectAckReasonV5::ClientIdentifierNotValid,
                String::from_str("client_id is too long"),
            );
        }
        if self.has_auth_method {
            return self.refuse(
                ConnectAckReasonV5::BadAuthenticationMethod,
                String::from_str("extended Auth is not supported"),
            );
        }
        self.phase = Phase::Authenticating;
        Action::Authenticate { allow_anonymous: self.listen_cfg.allow_anonymous }
    }

    /// The answer of the authenticate hook: a client that is not let in is
    /// refused with the hook's reason; for one that is, the lock is asked
    /// for.
    pub fn authenticated(&mut self, ack: ConnectAckReasonV5) -> (r: Action)
        requires
            old(self).phase() == Phase::Authenticating,
        ensures
            final(self).same_connection(old(self)),
            final(self).connect_info() == old(self).connect_info(),
            if ack.spec_success() {
                final(self).phase() == Phase::Locking && r == Action::TryLock
            } else {
                &&& final(self).phase() == Phase::Refused
                &&& r matches Action::Refuse { code, reason }
                &&& code == ack
                &&& reason@ == "Authentication failed"@
            },
    {
        if !ack.success() {
            return self.refuse(ack, String::from_str("Authentication failed"));
        }
        self.phase = Phase::Locking;
        Action::TryLock
    }

    /// The answer to the request for the lock: without the lock the client
    /// is refused; with it, the earlier session is evicted, and its
    /// subscriptions cleared if the client asked for a clean start.
    pub fn locked(&mut self, result: Result<(), MqttError>) -> (r: Action)
        requires
            old(self).phase() == Phase::Locking,
        ensures
            final(self).same_connection(old(self)),
            final(self).connect_info() == old(self).connect_info(),
            match result {
                Ok(_) => final(self).phase() == Phase::Kicking && r == (Action::Kick {
                    clear_subscriptions: old(self).clean_start(),
                    is_admin: false,
                }),
                Err(e) => {
                    &&& final(self).phase() == Phase::Refused
                    &&& r matches Action::Refuse { code, reason }
                    &&& code == ConnectAckReasonV5::ServerUnavailable
                    &&& reason@ == e.spec_message()
                },
            },
    {
        match result {
            Ok(_) => {
                self.phase = Phase::Kicking;
                Action::Kick { clear_subscriptions: self.clean_start, is_admin: false }
            },
            Err(e) => {
                let reason = e.message();
                self.refuse(ConnectAckReasonV5::ServerUnavailable, reason)
            },
        }
    }

    /// The answer to the eviction. A session is present for the client
    /// where one was evicted and the client did not ask for a clean start.
    pub fn kicked(&mut self, result: Result<Option<SessionOfflineInfo>, MqttError>) -> (r: Action)
        requires
            old(self).phase() == Phase::Kicking,
        ensures
            final(self).same_connection(old(self)),
            final(self).connect_info() == old(self).connect_info(),
            match result {
                Ok(info) => {
                    &&& final(self).phase() == Phase::Fitting
                    &&& r == Action::Fit
                    &&& final(self).offline_info() == info
                    &&& final(self).session_present() == (info is Some && !old(self).clean_start())
                },
                Err(e) => {
                    &&& final(self).phase() == Phase::Refused
                    &&& r matches Action::Refuse { code, reason }
                    &&& code == ConnectAckReasonV5::ServerUnavailable
                    &&& reason@ == e.spec_message()
                },
            },
    {
        match result {
            Ok(info) => {
                self.session_present = info.is_some() && !self.clean_start;
                self.offline_info = info;
                self.phase = Phase::Fitting;
                Action::Fit
            },
            Err(e) => {
                let reason = e.message();
                self.refuse(ConnectAckReasonV5::ServerUnavailable, reason)
            },
        }
    }

    /// When the session of the connection was created: when the evicted
    /// session was, if one was evicted, else now.
    pub open spec fn spec_created_at(&self, connected_at: TimestampMillis) -> TimestampMillis {
        match self.offline_info() {
            Some(info) => info.created_at,
            None => connected_at,
        }
    }

    /// The limits of the fitter: with a keep-alive interval the session is
    /// made, with the limits as its own, and is to be installed; without
    /// one the client is refused.
    pub fn fitted(&mut self, limits: Limits, connected_at: TimestampMillis) -> (r: Action)
        requires
            old(self).phase() == Phase::Fitting,
            old(self).connect_info() is Some,
        ensures
            final(self).same_connection(old(self)),
            final(self).session_present() == old(self).session_present(),
            final(self).offline_info() == old(self).offline_info(),
            match limits.keep_alive {
                Ok(k) => {
                    &&& final(self).phase() == Phase::Installing
                    &&& final(self).keep_alive() == k.0
                    &&& final(self).packet_keep_alive() == k.1
                    &&& final(self).max_inflight() == limits.max_inflight
                    &&& final(self).max_packet_size() == limits.max_packet_size
                    &&& r matches Action::Install { session, client, session_created }
                    &&& session.wf()
                    &&& session.id == old(self).id()
                    &&& session.created_at == old(self).spec_created_at(connected_at)
                    &&& session.max_inflight == limits.max_inflight as usize
                    &&& session.max_mqueue_len == limits.max_mqueue_len
                    &&& session.max_subscriptions == old(self).listen_cfg().max_subscriptions
                    &&& session.inflight_win.interval() == old(self).listen_cfg().message_retry_interval_millis
                    &&& session.subscriptions@.len() == 0
                    &&& session.inflight_win@.len() == 0
                    &&& client.connect_info == old(self).connect_info()->0
                    &&& client.session_present == old(self).session_present()
                    &&& client.connected_at == connected_at
                    &&& session_created == old(self).offline_info() is None
                },
                Err(e) => {
                    &&& final(self).phase() == Phase::Refused
                    &&& r matches Action::Refuse { code, reason }
                    &&& code == ConnectAckReasonV5::ServerUnavailable
                    &&& reason@ == e.spec_message()
                },
            },
    {
        match limits.keep_alive {
            Ok(k) => {
                let created_at = match &self.offline_info {
                    Some(info) => info.created_at,
                    None => connected_at,
                };
                let session = Session::new(
                    self.id.clone(),
                    limits.max_mqueue_len,
                    limits.max_inflight as usize,
                    self.listen_cfg.max_subscriptions,
                    self.listen_cfg.message_retry_interval_millis,
                    created_at,
                );
                let connect_info = self.connect_info.take().unwrap();
                let client = ClientInfo::new(connect_info, self.session_present, connected_at);
                self.keep_alive = k.0;
                self.packet_keep_alive = k.1;
                self.max_inflight = limits.max_inflight;
                self.max_packet_size = limits.max_packet_size;
                self.phase = Phase::Installing;
                Action::Install { session, client, session_created: self.offline_info.is_none() }
            },
            Err(e) => {
                let reason = e.message();
                self.refuse(ConnectAckReasonV5::ServerUnavailable, reason)
            },
        }
    }

    /// What the client is granted once its session is installed.
    pub open spec fn spec_connect_ack(
        &self,
        retain_available: bool,
        shared_subscription_available: bool,
    ) -> ConnectAck {
        ConnectAck {
            session_present: self.session_present(),
            keep_alive: self.keep_alive(),
            server_keepalive_sec: Some(self.packet_keep_alive()),
            session_expiry_interval_secs: self.session_expiry(),
            receive_max: Some(self.max_inflight()),
            max_qos: Some(self.listen_cfg().max_qos_allowed),
            retain_available: Some(retain_available),
            max_packet_size: Some(self.max_packet_size()),
            topic_alias_max: 0,
            wildcard_subscription_available: Some(true),
            subscription_identifiers_available: Some(false),
            shared_subscription_available: Some(shared_subscription_available),
        }
    }

    /// The answer to the installation: a session that could not be
    /// installed refuses the client; else the client is told what it is
    /// granted, and what the evicted session left behind is handed on.
    pub fn installed(
        &mut self,
        result: Result<(), MqttError>,
        retain_available: bool,
        shared_subscription_available: bool,
    ) -> (r: Action)
        requires
            old(self).phase() == Phase::Installing,
        ensures
            final(self).same_connection(old(self)),
            match result {
                Ok(_) => {
                    &&& final(self).phase() == Phase::Established
                    &&& r == (Action::Ack {
                        ack: old(self).spec_connect_ack(
                            retain_available,
                            shared_subscription_available,
                        ),
                        transfer: old(self).offline_info(),
                        clean_start: old(self).clean_start(),
                    })
                },
                Err(e) => {
                    &&& final(self).phase() == Phase::Refused
                    &&& r matches Action::Refuse { code, reason }
                    &&& code == ConnectAckReasonV5::ServerUnavailable
                    &&& reason@ == e.spec_message()
                },
            },
    {
        match result {
            Ok(_) => {
                let ack = ConnectAck {
                    session_present: self.session_present,
                    keep_alive: self.keep_alive,
                    server_keepalive_sec: Some(self.packet_keep_alive),
                    session_expiry_interval_secs: self.session_expiry_interval_secs,
                    receive_max: Some(self.max_inflight),
                    max_qos: Some(self.listen_cfg.max_qos_allowed),
                    retain_available: Some(retain_available),
                    max_packet_size: Some(self.max_packet_size),
                    topic_alias_max: 0,
                    wildcard_subscription_available: Some(true),
                    subscription_identifiers_available: Some(false),
                    shared_subscription_available: Some(shared_subscription_available),
                };
                let transfer = self.offline_info.take();
                self.phase = Phase::Established;
                Action::Ack { ack, transfer, clean_start: self.clean_start }
            },
            Err(e) => {
                let reason = e.message();
                self.refuse(ConnectAckReasonV5::ServerUnavailable, reason)
            },
        }
    }
}

/// Begins the handshake of a connection that has waited `elapsed_millis`
/// for its turn: one that has waited longer than the listener allows is
/// given up and counted; for another the first step is taken.
pub fn handshake(
    listen_cfg: ListenerInner,
    connect_info: ConnectInfo,
    elapsed_millis: i64,
    stats: &mut HandshakeStats,
) -> (r: Result<(Handshake, Action), MqttError>)
    ensures
        match r {
            Err(e) => {
                &&& spec_timed_out(elapsed_millis, listen_cfg.spec_handshake_timeout())
                &&& e == MqttError::Timeout(listen_cfg.spec_handshake_timeout() as u64)
                &&& final(stats).spec_timeouts() == counted(old(stats).spec_timeouts())
            },
            Ok((hs, action)) => {
                let too_long = listen_cfg.max_clientid_len > 0 && connect_info.id.client_id_bytes()
                    > listen_cfg.max_clientid_len;
                &&& !spec_timed_out(elapsed_millis, listen_cfg.spec_handshake_timeout())
                &&& final(stats).spec_timeouts() == old(stats).spec_timeouts()
                &&& hs.id() == connect_info.id
                &&& hs.listen_cfg() == listen_cfg
                &&& hs.clean_start() == connect_info.clean_start
                &&& hs.connect_info() == Some(connect_info)
                &&& if too_long {
                    &&& hs.phase() == Phase::Refused
                    &&& action matches Action::Refuse { code, reason }
                    &&& code == ConnectAckReasonV5::ClientIdentifierNotValid
                    &&& reason@ == "client_id is too long"@
                } else if connect_info.auth_method is Some {
                    &&& hs.phase() == Phase::Refused
                    &&& action matches Action::Refuse { code, reason }
                    &&& code == ConnectAckReasonV5::BadAuthenticationMethod
                    &&& reason@ == "extended Auth is not supported"@
                } else {
                    &&& hs.phase() == Phase::Authenticating
                    &&& action == (Action::Authenticate {
                        allow_anonymous: listen_cfg.allow_anonymous,
                    })
                }
            },
        },
{
    match stats.let_in(elapsed_millis, listen_cfg.handshake_timeout()) {
        Err(e) => Err(e),
        Ok(_) => {
            let mut hs = Handshake::new(listen_cfg, connect_info);
            let action = hs.begin();
            Ok((hs, action))
        },
    }
}

/// The reason code that a refused client is told: the hooks are shown the
/// code and may put another in its place.
pub fn refused_ack(ack_code: ConnectAckReasonV5, hooked: Option<ConnectAckReasonV5>) -> (r:
    ConnectAckReasonV5)
    ensures
        r == match hooked {
            Some(new_code) => new_code,
            None => ack_code,
        },
{
    match hooked {
        Some(new_code) => new_code,
        None => ack_code,
    }
}

/// What a control packet asks for.
#[derive(Debug, PartialEq, Eq)]
pub enum ControlMessage {
    Auth,
    Ping,
    Subscribe,
    Unsubscribe,
    /// The client takes its leave, with this reason text.
    Disconnect(Reason),
    /// The peer closed the connection.
    Closed,
    /// The service failed; the text says how.
    Error(String),
    /// The client broke the protocol; the text says how.
    ProtocolError(String),
}

/// What is posted into the session's own channel.
#[derive(Debug, PartialEq, Eq)]
pub enum Message {
    /// The client is alive: the idle timer starts anew.
    Keepalive,
    /// The client took its leave.
    Disconnect(Reason),
    /// The connection is over, for this reason.
    Closed(Reason),
}

/// How a control packet is acknowledged.
#[derive(Clone, Copy, Debug, PartialEq, Eq, Structural)]
pub enum ControlAck {
    Auth,
    Ping,
    /// Each filter is answered by itself, once the session has been asked.
    Subscribe,
    Unsubscribe,
    Disconnect,
    Closed,
    /// The connection ends with the reason "server busy".
    ErrorServerBusy,
    ProtocolError,
}

impl ControlAck {
    /// Whether the answer is the last one on its connection.
    pub open spec fn ends_connection(self) -> bool {
        self == ControlAck::Disconnect || self == ControlAck::Closed || self
            == ControlAck::ErrorServerBusy || self == ControlAck::ProtocolError
    }

    /// Whether the answer is the last one on its connection.
    pub fn is_end(self) -> (r: bool)
        ensures
            r == self.ends_connection(),
    {
        match self {
            ControlAck::Disconnect => true,
            ControlAck::Closed => true,
            ControlAck::ErrorServerBusy => true,
            ControlAck::ProtocolError => true,
            _ => false,
        }
    }
}

/// What is to be done about a control packet.
#[derive(Debug, PartialEq, Eq)]
pub struct ControlPlan {
    /// What is posted after the keep-alive, if anything.
    pub post: Option<Message>,
    /// Whether a failure to post ends the handling with that failure.
    pub post_must_succeed: bool,
    pub ack: ControlAck,
}

/// What a control packet comes to. Every packet first tells the session
/// that the client is alive. A leave, a close and an error are posted to
/// the session, with the reason kept for diagnosis; only for a leave does
/// a failure to post count.
pub fn control_message(ctrl_msg: ControlMessage) -> (r: (Message, ControlPlan))
    ensures
        r.0 is Keepalive,
        match ctrl_msg {
            ControlMessage::Auth => r.1.post is None && r.1.ack == ControlAck::Auth,
            ControlMessage::Ping => r.1.post is None && r.1.ack == ControlAck::Ping,
            ControlMessage::Subscribe => r.1.post is None && r.1.ack == ControlAck::Subscribe,
            ControlMessage::Unsubscribe => r.1.post is None && r.1.ack == ControlAck::Unsubscribe,
            ControlMessage::Disconnect(reason) => r.1.post == Some(Message::Disconnect(reason))
                && r.1.post_must_succeed && r.1.ack == ControlAck::Disconnect,
            ControlMessage::Closed => {
                &&& !r.1.post_must_succeed
                &&& r.1.ack == ControlAck::Closed
                &&& r.1.post matches Some(Message::Closed(reason))
                &&& reason@ == "Remote close connect"@
            },
            ControlMessage::Error(text) => r.1.post == Some(Message::Closed(text))
                && !r.1.post_must_succeed && r.1.ack == ControlAck::ErrorServerBusy,
            ControlMessage::ProtocolError(text) => r.1.post == Some(Message::Closed(text))
                && !r.1.post_must_succeed && r.1.ack == ControlAck::ProtocolError,
        },
{
    let plan = match ctrl_msg {
        ControlMessage::Auth => ControlPlan {
            post: None,
            post_must_succeed: false,
            ack: ControlAck::Auth,
        },
        ControlMessage::Ping => ControlPlan {
            post: None,
            post_must_succeed: false,
            ack: ControlAck::Ping,
        },
        ControlMessage::Subscribe => ControlPlan {
            post: None,
            post_must_succeed: false,
            ack: ControlAck::Subscribe,
        },
        ControlMessage::Unsubscribe => ControlPlan {
            post: None,
            post_must_succeed: false,
            ack: ControlAck::Unsubscribe,
        },
        ControlMessage::Disconnect(reason) => ControlPlan {
            post: Some(Message::Disconnect(reason)),
            post_must_succeed: true,
            ack: ControlAck::Disconnect,
        },
        ControlMessage::Closed => ControlPlan {
            post: Some(Message::Closed(String::from_str("Remote close connect"))),
            post_must_succeed: false,
            ack: ControlAck::Closed,
        },
        ControlMessage::Error(text) => ControlPlan {
            post: Some(Message::Closed(text)),
            post_must_succeed: false,
            ack: ControlAck::ErrorServerBusy,
        },
        ControlMessage::ProtocolError(text) => ControlPlan {
            post: Some(Message::Closed(text)),
            post_must_succeed: false,
            ack: ControlAck::ProtocolError,
        },
    };
    (Message::Keepalive, plan)
}

/// The reason kept for diagnosis when a subscribe or an unsubscribe
/// failed as a whole.
pub fn control_failure_reason(subscribe: bool, error: &MqttError) -> (r: Reason)
    ensures
        r@ == (if subscribe {
            "Subscribe failed, "@
        } else {
            "Unsubscribe failed, "@
        }) + error.spec_message(),
{
    let text = error.message();
    if subscribe {
        join2("Subscribe failed, ", text.as_str())
    } else {
        join2("Unsubscribe failed, ", text.as_str())
    }
}

/// The reason codes of the answer to one filter of a subscribe.
#[derive(Clone, Copy, Debug, PartialEq, Eq, Structural)]
pub enum SubscribeAckReason {
    GrantedQos0,
    GrantedQos1,
    GrantedQos2,
    UnspecifiedError,
    ImplementationSpecificError,
    NotAuthorized,
    TopicFilterInvalid,
    PacketIdentifierInUse,
    QuotaExceeded,
    SharedSubsriptionNotSupported,
    SubscriptionIdentifiersNotSupported,
    WildcardSubscriptionsNotSupported,
}

/// What the session answered to one filter.
#[derive(Clone, Copy, Debug, PartialEq, Eq, Structural)]
pub struct SubscribeReturn(pub SubscribeAckReason);

impl SubscribeReturn {
    pub fn new_success(qos: QoS) -> (r: SubscribeReturn)
        ensures
            r.spec_success() == Some(qos),
    {
        match qos {
            QoS::AtMostOnce => SubscribeReturn(SubscribeAckReason::GrantedQos0),
            QoS::AtLeastOnce => SubscribeReturn(SubscribeAckReason::GrantedQos1),
            QoS::ExactlyOnce => SubscribeReturn(SubscribeAckReason::GrantedQos2),
        }
    }

    pub fn new_failure(reason: SubscribeAckReason) -> (r: SubscribeReturn)
        ensures
            r.0 == reason,
    {
        SubscribeReturn(reason)
    }

    /// The guarantee that was granted, if one was.
    pub open spec fn spec_success(self) -> Option<QoS> {
        match self.0 {
            SubscribeAckReason::GrantedQos0 => Some(QoS::AtMostOnce),
            SubscribeAckReason::GrantedQos1 => Some(QoS::AtLeastOnce),
            SubscribeAckReason::GrantedQos2 => Some(QoS::ExactlyOnce),
            _ => None,
        }
    }

    pub fn success(&self) -> (r: Option<QoS>)
        ensures
            r == self.spec_success(),
    {
        match self.0 {
            SubscribeAckReason::GrantedQos0 => Some(QoS::AtMostOnce),
            SubscribeAckReason::GrantedQos1 => Some(QoS::AtLeastOnce),
            SubscribeAckReason::GrantedQos2 => Some(QoS::ExactlyOnce),
            _ => None,
        }
    }

    pub fn failure(&self) -> (r: bool)
        ensures
            r == self.spec_success() is None,
    {
        self.success().is_none()
    }

    pub fn into_inner(self) -> (r: SubscribeAckReason)
        ensures
            r == self.0,
    {
        self.0
    }
}

/// The answer to one filter of a subscribe.
#[derive(Clone, Copy, Debug, PartialEq, Eq, Structural)]
pub enum SubscribeAck {
    Confirm(QoS),
    Fail(SubscribeAckReason),
}

/// The answers to the filters of a subscribe, one for each in its order:
/// the guarantee granted, or the reason why none was.
pub fn subscribes(answers: &Vec<SubscribeReturn>) -> (r: Vec<SubscribeAck>)
    ensures
        r@.len() == answers@.len(),
        forall|i: int|
            0 <= i < r@.len() ==> #[trigger] r@[i] == match answers@[i].spec_success() {
                Some(qos) => SubscribeAck::Confirm(qos),
                None => SubscribeAck::Fail(answers@[i].0),
            },
{
    let mut out: Vec<SubscribeAck> = Vec::new();
    let mut i: usize = 0;
    while i < answers.len()
        invariant
            i <= answers@.len(),
            out@.len() == i,
            forall|j: int|
                0 <= j < i ==> #[trigger] out@[j] == match answers@[j].spec_success() {
                    Some(qos) => SubscribeAck::Confirm(qos),
                    None => SubscribeAck::Fail(answers@[j].0),
                },
        decreases answers@.len() - i,
    {
        let ret = answers[i];
        let ack = match ret.success() {
            Some(qos) => SubscribeAck::Confirm(qos),
            None => SubscribeAck::Fail(ret.into_inner()),
        };
        out.push(ack);
        i = i + 1;
    }
    out
}

/// How many filters of an unsubscribe are served: all of them, unless one
/// fails, and then those before it.
pub fn unsubscribes<E>(results: &Vec<Result<bool, E>>) -> (r: Result<usize, usize>)
    ensures
        match r {
            Ok(n) => n == results@.len() && forall|i: int|
                0 <= i < results@.len() ==> results@[i] is Ok,
            Err(i) => i < results@.len() && results@[i as int] is Err && forall|j: int|
                0 <= j < i ==> results@[j] is Ok,
        },
{
    let mut i: usize = 0;
    while i < results.len()
        invariant
            i <= results@.len(),
            forall|j: int| 0 <= j < i ==> results@[j] is Ok,
        decreases results@.len() - i,
    {
        if results[i].is_err() {
            return Err(i);
        }
        i = i + 1;
    }
    Ok(i)
}

/// What a publish-related packet from the client comes to. Every such
/// packet first tells the session that the client is alive; then the
/// window is served as [`crate::broker::inflight::publish`] says.
pub fn publish(window: &mut InflightWindow, msg: PublishMessage, now: TimestampMillis) -> (r: (
    Message,
    PublishOutcome,
))
    requires
        old(window).wf(),
    ensures
        r.0 is Keepalive,
        final(window).wf(),
        final(window).cap() == old(window).cap(),
        final(window).interval() == old(window).interval(),
        match msg {
            PublishMessage::Publish => r.1 is Deliver && final(window)@ == old(window)@,
            PublishMessage::PublishAck(id) | PublishMessage::PublishComplete(id) => if in_use(
                old(window)@,
                id,
            ) {
                r.1 == PublishOutcome::Acked(old(window)@[position(old(window)@, id)]) && final(window)@ == old(window)@.remove(position(old(window)@, id))
            } else {
                r.1 is Nothing && final(window)@ == old(window)@
            },
            PublishMessage::PublishReceived(id) => r.1 is Nothing && final(window)@.len() == old(window)@.len() && forall|i: int|
                0 <= i < old(window)@.len() ==> #[trigger] final(window)@[i] == if old(window)@[i].packet_id == id {
                    InflightMessage {
                        status: MomentStatus::UnComplete,
                        update_time: now,
                        ..old(window)@[i]
                    }
                } else {
                    old(window)@[i]
                },
        },
{
    let outcome = crate::broker::inflight::publish(window, msg, now);
    (Message::Keepalive, outcome)
}

/// A subscription as a client asks for it.
#[derive(Debug, PartialEq, Eq)]
pub struct Subscribe {
    /// The filter, without the prefix of a shared subscription.
    pub topic_filter: Topic,
    pub qos: QoS,
    /// The group of a shared subscription.
    pub shared_group: Option<SharedGroup>,
}

/// Whether a filter asks for a shared subscription: it begins with the
/// level `$share`.
pub open spec fn is_shared(filter: Seq<LevelView>) -> bool {
    filter.len() > 0 && filter[0] == LevelView::Metadata("$share"@)
}

/// The name of a level, if it has one.
pub open spec fn level_name(level: LevelView) -> Option<Seq<char>> {
    match level {
        LevelView::Normal(s) => Some(s),
        LevelView::Metadata(s) => Some(s),
        _ => None,
    }
}

impl Subscribe {
    /// Reads a subscription from the filter a client sent. A filter that
    /// begins with `$share` asks for a shared subscription, where the
    /// listener supports those: the group's name follows, then the filter
    /// proper, which is not empty. Where the listener does not support
    /// them, the filter is taken as it stands.
    pub fn from_v5(topic_filter: &Topic, qos: QoS, shared_subscription_supported: bool) -> (r:
        Result<Subscribe, MqttError>)
        ensures
            ({
                let f = topic_filter@;
                if shared_subscription_supported && is_shared(f) {
                    if f.len() >= 3 && level_name(f[1]) is Some {
                        &&& r matches Ok(sub)
                        &&& sub.qos == qos
                        &&& sub.topic_filter@ == f.skip(2)
                        &&& sub.shared_group matches Some(g)
                        &&& Some(g@) == level_name(f[1])
                    } else {
                        &&& r matches Err(MqttError::TopicError(text))
                        &&& text@ == "Illegal topic filter"@
                    }
                } else if f.len() == 0 {
                    &&& r matches Err(MqttError::TopicError(text))
                    &&& text@ == "Illegal topic filter"@
                } else {
                    &&& r matches Ok(sub)
                    &&& sub.qos == qos
                    &&& sub.topic_filter@ == f
                    &&& sub.shared_group is None
                }
            }),
    {
        let levels = topic_filter.levels();
        let n = levels.len();
        proof {
            assert(topic_filter@.len() == n);
        }
        let shared = shared_subscription_supported && n > 0 && match &levels[0] {
            Level::Metadata(s) => {
                let share = String::from_str("$share");
                *s == share
            },
            _ => false,
        };
        proof {
            assert(n > 0 ==> topic_filter@[0] == levels@[0]@);
            assert(shared == (shared_subscription_supported && is_shared(topic_filter@)));
        }
        if shared {
            if n < 3 {
                return Err(MqttError::TopicError(String::from_str("Illegal topic filter")));
            }
            proof {
                assert(topic_filter@[1] == levels@[1]@);
            }
            let group = match &levels[1] {
                Level::Normal(s) => s.clone(),
                Level::Metadata(s) => s.clone(),
                _ => {
                    return Err(MqttError::TopicError(String::from_str("Illegal topic filter")));
                },
            };
            let mut rest: Vec<Level> = Vec::new();
            let mut i: usize = 2;
            while i < n
                invariant
                    2 <= i <= n,
                    n == levels@.len(),
                    rest@ == levels@.subrange(2, i as int),
                decreases n - i,
            {
                rest.push(levels[i].clone());
                i = i + 1;
            }
            let filter = Topic::from(rest);
            proof {
                assert(levels@.subrange(2, n as int) =~= levels@.skip(2));
                assert(filter@ =~= topic_filter@.skip(2));
            }
            Ok(Subscribe { topic_filter: filter, qos, shared_group: Some(group) })
        } else {
            if n == 0 {
                return Err(MqttError::TopicError(String::from_str("Illegal topic filter")));
            }
            Ok(Subscribe { topic_filter: topic_filter.clone(), qos, shared_group: None })
        }
    }

    /// Whether the filter has no more levels than the listener allows; zero
    /// is no limit.
    pub fn within_levels(&self, max_topic_levels: usize) -> (r: bool)
        ensures
            r == (max_topic_levels == 0 || self.topic_filter@.len() <= max_topic_levels),
    {
        max_topic_levels == 0 || self.topic_filter.len() <= max_topic_levels
    }
}

} // verus!
