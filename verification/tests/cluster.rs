use rmqtt::broker::error::MqttError;
use rmqtt::cluster::config::{
    backoff_strategy, NodeAddr, Options, PluginConfig, RaftConfig, RaftEngineConfig,
    ReadOnlyOption,
};
use rmqtt::cluster::handler::{
    announces_disconnect, disconnected_fact, get_retains_reply, grpc_received, kick_reply,
    notification_outcome, session_terminated_fact, subscriptions_get_reply, GrpcRequest,
};
use rmqtt::cluster::message::{has_reply, Message as RaftMessage, MessageReply as RaftReply};
use rmqtt::cluster::notify::Notifications;
use rmqtt::cluster::router::{ClientStates, ClientStatus};
use rmqtt::broker::registry::{SessionRegistry, SlotState};
use rmqtt::cluster::shared::{
    dropped_on, dropped_on_all, ClusterLockEntry, ClusterShared, ForwardTarget, KickPlan, LostNode,
    SubscriptionsPlan,
};
use rmqtt::grpc::{
    select_ok, GrpcClients, Message, MessageBroadcaster, MessageReply, MessageSender,
    NodeGrpcClient,
};
use rmqtt::types::{
    FromType, Id, Origin, Publish, PublishProperties, QoS, SessionOfflineInfo, SessionStatus,
    SocketAddress, SubRelation, SubsSearchResult,
};

fn id(node: u64, client: &str) -> Id {
    Id::from(node, String::from(client))
}

fn peer(node: u64) -> NodeGrpcClient {
    NodeGrpcClient { node_id: node, addr: format!("10.0.0.{}:5363", node) }
}

fn shared(this_node: u64, peers: &[u64]) -> ClusterShared {
    let mut clients = GrpcClients::new();
    for p in peers {
        clients.insert(peer(*p));
    }
    ClusterShared::new(this_node, clients, 198, 10_000)
}

fn offline(node: u64, client: &str) -> SessionOfflineInfo {
    SessionOfflineInfo { id: id(node, client), subscriptions: Vec::new(), created_at: 7 }
}

fn publish(topic: &str) -> Publish {
    Publish {
        dup: false,
        retain: false,
        qos: QoS::AtLeastOnce,
        topic: String::from(topic),
        packet_id: Some(1),
        payload: vec![1, 2, 3],
        properties: PublishProperties {
            topic_alias: None,
            correlation_data: None,
            message_expiry_interval: None,
            content_type: None,
            user_properties: Vec::new(),
            is_utf8_payload: None,
            response_topic: None,
            subscription_ids: None,
        },
        create_time: 1,
    }
}

fn relation(filter: &str, client: &str) -> SubRelation {
    SubRelation {
        topic_filter: String::from(filter),
        client_id: String::from(client),
        qos: QoS::AtLeastOnce,
        group: None,
    }
}

#[test]
fn try_lock_proposes_the_handshake_fact() {
    let entry = shared(1, &[2]).entry(id(1, "c1"));
    assert_eq!(entry.get_prev_node_id(), None);
    assert_eq!(entry.try_lock_request(), RaftMessage::HandshakeTryLock { id: id(1, "c1") });
}

#[test]
fn try_lock_reply_names_the_previous_owner() {
    assert_eq!(ClusterLockEntry::try_lock_reply(None), Ok(None));
    assert_eq!(
        ClusterLockEntry::try_lock_reply(Some(RaftReply::HandshakeTryLock(None))),
        Ok(None)
    );
    assert_eq!(
        ClusterLockEntry::try_lock_reply(Some(RaftReply::HandshakeTryLock(Some(id(3, "c1"))))),
        Ok(Some(3))
    );
    assert_eq!(
        ClusterLockEntry::try_lock_reply(Some(RaftReply::Error(String::from("locked")))),
        Err(MqttError::Msg(String::from("locked")))
    );
    let locked = shared(1, &[]).entry(id(1, "c1")).locked(Some(3));
    assert_eq!(locked.get_prev_node_id(), Some(3));
    assert_eq!(locked.get_id(), &id(1, "c1"));
}

#[test]
fn set_commits_connected_and_fails_closed() {
    assert_eq!(ClusterLockEntry::set_request(id(1, "c1")), RaftMessage::Connected { id: id(1, "c1") });
    assert_eq!(ClusterLockEntry::set_reply::<String>(Ok(None)), Ok(()));
    assert_eq!(
        ClusterLockEntry::set_reply::<String>(Ok(Some(RaftReply::Error(String::from("no"))))),
        Err(MqttError::Msg(String::from("no")))
    );
    assert_eq!(
        ClusterLockEntry::set_reply(Err(String::from("no leader"))),
        Err(MqttError::ServiceUnavailable)
    );
    assert_eq!(
        ClusterLockEntry::set_reply::<String>(Ok(Some(RaftReply::HandshakeTryLock(None)))),
        Err(MqttError::ServiceUnavailable)
    );
    assert_eq!(
        ClusterLockEntry::set_reply::<String>(Ok(Some(RaftReply::HandshakeTryLock(Some(id(
            2, "c1"
        )))))),
        Err(MqttError::ServiceUnavailable)
    );
    let policy = backoff_strategy();
    assert_eq!(policy.max_elapsed_millis, 60_000);
    assert_eq!((policy.multiplier_num, policy.multiplier_den), (5, 2));
    assert!(!policy.exhausted(60_000));
    assert!(policy.exhausted(60_001));
}

#[test]
fn kick_of_a_local_owner_stays_local() {
    let sh = shared(1, &[2]);
    let entry = ClusterLockEntry::new(id(1, "c1"), None);
    assert_eq!(
        entry.kick_plan(&sh, false, false, None),
        KickPlan::Local { clear_subscriptions: false, is_admin: false }
    );
    let entry = ClusterLockEntry::new(id(1, "c1"), Some(1));
    assert_eq!(
        entry.kick_plan(&sh, true, false, Some(2)),
        KickPlan::Local { clear_subscriptions: true, is_admin: false }
    );
}

#[test]
fn kick_of_a_remote_owner_sends_one_request() {
    let sh = shared(1, &[2, 3]);
    let entry = ClusterLockEntry::new(id(1, "c1"), Some(2));
    match entry.kick_plan(&sh, false, false, None) {
        KickPlan::Remote(sender) => {
            assert_eq!(sender.client, peer(2));
            assert_eq!(sender.msg_type, 198);
            assert_eq!(sender.msg, Message::Kick(id(1, "c1"), false, false));
            assert_eq!(sender.max_retries, 0);
            assert_eq!(sender.retry_interval_millis, 500);
        }
        other => panic!("unexpected plan {:?}", other),
    }
    match entry.kick_plan(&sh, true, false, None) {
        KickPlan::Remote(sender) => {
            assert_eq!(sender.client, peer(2));
            assert_eq!(sender.msg, Message::Kick(id(1, "c1"), true, false));
        }
        other => panic!("unexpected plan {:?}", other),
    }
}

#[test]
fn admin_kick_goes_by_what_the_log_says_now() {
    let sh = shared(1, &[2, 3]);
    let entry = ClusterLockEntry::new(id(1, "c1"), Some(2));
    assert!(ClusterLockEntry::kick_asks_log(true));
    assert!(!ClusterLockEntry::kick_asks_log(false));
    assert_eq!(entry.prev_owner(true, Some(3)), 3);
    assert_eq!(entry.prev_owner(true, None), 1);
    assert_eq!(entry.prev_owner(false, Some(3)), 2);
    match entry.kick_plan(&sh, false, true, Some(3)) {
        KickPlan::Remote(sender) => {
            assert_eq!(sender.client.node_id, 3);
            assert_eq!(sender.msg, Message::Kick(id(1, "c1"), false, true));
        }
        other => panic!("unexpected plan {:?}", other),
    }
}

#[test]
fn kick_without_a_channel_is_an_error() {
    let sh = shared(1, &[2]);
    let entry = ClusterLockEntry::new(id(1, "c1"), Some(42));
    assert_eq!(
        entry.kick_plan(&sh, false, false, None),
        KickPlan::NoClient(MqttError::Msg(String::from(
            "kick error, grpc_client is not exist, prev_node_id: 42"
        )))
    );
}

#[test]
fn kick_of_an_unreachable_owner_is_already_gone() {
    let unreachable: Result<MessageReply, String> = Err(String::from("connection refused"));
    assert_eq!(ClusterLockEntry::kick_remote_reply(unreachable), Ok(None));
    let timeout: Result<MessageReply, MqttError> = Err(MqttError::Timeout(500));
    assert_eq!(ClusterLockEntry::kick_remote_reply(timeout), Ok(None));
    let gone: Result<MessageReply, String> = Ok(MessageReply::Kick(None));
    assert_eq!(ClusterLockEntry::kick_remote_reply(gone), Ok(None));
    let other: Result<MessageReply, String> = Ok(MessageReply::Success);
    assert_eq!(ClusterLockEntry::kick_remote_reply(other), Ok(None));
    let kicked: Result<MessageReply, String> = Ok(MessageReply::Kick(Some(offline(2, "c1"))));
    assert_eq!(ClusterLockEntry::kick_remote_reply(kicked), Ok(Some(offline(2, "c1"))));
}

#[test]
fn subscriptions_are_asked_of_the_owner() {
    let sh = shared(1, &[2]);
    let entry = ClusterLockEntry::new(id(1, "c1"), None);
    assert_eq!(entry.subscriptions_plan(&sh, None), SubscriptionsPlan::Nothing);
    assert_eq!(entry.subscriptions_plan(&sh, Some(id(1, "c1"))), SubscriptionsPlan::Local);
    assert_eq!(entry.subscriptions_plan(&sh, Some(id(9, "c1"))), SubscriptionsPlan::Nothing);
    match entry.subscriptions_plan(&sh, Some(id(2, "c1"))) {
        SubscriptionsPlan::Remote(sender) => {
            assert_eq!(sender.client, peer(2));
            assert_eq!(sender.msg, Message::SubscriptionsGet(String::from("c1")));
            assert_eq!(sender.max_retries, 0);
            assert_eq!(sender.retry_interval_millis, 500);
        }
        other => panic!("unexpected plan {:?}", other),
    }
}

#[test]
fn a_failed_subscriptions_query_yields_none() {
    let failed: Result<MessageReply, String> = Err(String::from("timeout"));
    assert_eq!(ClusterLockEntry::subscriptions_remote_reply(failed), None);
    let other: Result<MessageReply, String> = Ok(MessageReply::Success);
    assert_eq!(ClusterLockEntry::subscriptions_remote_reply(other), None);
    let none: Result<MessageReply, String> = Ok(MessageReply::SubscriptionsGet(None));
    assert_eq!(ClusterLockEntry::subscriptions_remote_reply(none), None);
    let subs = vec![SubsSearchResult {
        node_id: 2,
        clientid: String::from("c1"),
        client_addr: Some(SocketAddress { ip: String::from("10.1.1.1"), port: 4000 }),
        topic: String::from("a/#"),
        qos: 1,
        share: None,
    }];
    let some: Result<MessageReply, String> = Ok(MessageReply::SubscriptionsGet(Some(subs.clone_list())));
    assert_eq!(ClusterLockEntry::subscriptions_remote_reply(some), Some(subs));
}

trait CloneList {
    fn clone_list(&self) -> Self;
}

impl CloneList for Vec<SubsSearchResult> {
    fn clone_list(&self) -> Self {
        self.iter()
            .map(|s| SubsSearchResult {
                node_id: s.node_id,
                clientid: s.clientid.clone(),
                client_addr: s.client_addr.clone(),
                topic: s.topic.clone(),
                qos: s.qos,
                share: s.share.clone(),
            })
            .collect()
    }
}

#[test]
fn forwards_splits_subscribers_by_node() {
    let sh = shared(1, &[2, 3]);
    let map = vec![
        (2, vec![relation("a/#", "c2")]),
        (1, vec![relation("a/b", "c1"), relation("a/+", "c0")]),
        (7, vec![relation("#", "c7")]),
        (3, vec![relation("a/b", "c3")]),
    ];
    let plan = sh.forwards_plan(map);
    assert_eq!(plan.local, Some(vec![relation("a/b", "c1"), relation("a/+", "c0")]));
    assert_eq!(
        plan.remote,
        vec![
            ForwardTarget { client: peer(2), relations: vec![relation("a/#", "c2")] },
            ForwardTarget { client: peer(3), relations: vec![relation("a/b", "c3")] },
        ]
    );
    assert_eq!(plan.unreachable, vec![(7, vec![relation("#", "c7")])]);
}

#[test]
fn forwards_without_local_subscribers() {
    let sh = shared(1, &[2]);
    let plan = sh.forwards_plan(vec![(2, vec![relation("a", "c2")])]);
    assert_eq!(plan.local, None);
    assert_eq!(plan.remote.len(), 1);
    assert!(plan.unreachable.is_empty());
    let plan = sh.forwards_plan(Vec::new());
    assert_eq!(plan.local, None);
    assert!(plan.remote.is_empty());
}

#[test]
fn forwards_to_remote_is_retried_once() {
    let sh = shared(1, &[2]);
    let from = Origin::from_custom(id(1, "c1"));
    let target = ForwardTarget { client: peer(2), relations: vec![relation("a", "c2")] };
    let sender = sh.forwards_to_sender(target, from, publish("a"));
    assert_eq!(sender.max_retries, 1);
    assert_eq!(sender.retry_interval_millis, 500);
    assert_eq!(sender.msg_type, 198);
    assert_eq!(
        sender.msg,
        Message::ForwardsTo(Origin::from_custom(id(1, "c1")), publish("a"), vec![relation("a", "c2")])
    );
}

#[test]
fn forwards_collects_what_was_dropped() {
    assert_eq!(ClusterShared::forwards_result(Vec::new(), Vec::new()), Ok(()));
    let d1 = (id(1, "c1"), Origin::from_custom(id(1, "p")), publish("a"), String::from("offline"));
    let d2 = (id(2, "c2"), Origin::from_custom(id(1, "p")), publish("a"), String::from("unreachable"));
    let copy = |d: &(Id, Origin, Publish, String)| (d.0.clone(), d.1.clone(), d.2.clone(), d.3.clone());
    assert_eq!(
        ClusterShared::forwards_result(vec![copy(&d1)], vec![copy(&d2)]),
        Err(vec![copy(&d1), copy(&d2)])
    );
    assert_eq!(ClusterShared::forwards_result(Vec::new(), vec![copy(&d2)]), Err(vec![copy(&d2)]));
}

#[test]
fn session_status_counts_a_handshake_only_in_its_time() {
    let sh = shared(1, &[]);
    assert_eq!(sh.session_status(None, 100), None);
    let status = ClientStatus::new(id(2, "c1"), false, true, 1_000);
    assert_eq!(
        sh.session_status(Some(status.clone()), 5_000),
        Some(SessionStatus { id: id(2, "c1"), online: false, handshaking: true })
    );
    assert_eq!(
        sh.session_status(Some(status.clone()), 11_000),
        Some(SessionStatus { id: id(2, "c1"), online: false, handshaking: false })
    );
    assert!(status.handshaking(10_000, 10_999));
    assert!(!status.handshaking(10_000, 11_000));
    let online = ClientStatus::new(id(2, "c1"), true, false, 1_000);
    assert_eq!(
        sh.session_status(Some(online), 1_001),
        Some(SessionStatus { id: id(2, "c1"), online: true, handshaking: false })
    );
}

#[test]
fn ownership_table_grants_one_lock_at_a_time() {
    let mut table = ClientStates::new(10_000);
    let a = id(1, "c1");
    let b = id(2, "c1");
    assert_eq!(table.try_lock(a.clone(), 1_000), RaftReply::HandshakeTryLock(None));
    assert_eq!(
        table.try_lock(b.clone(), 2_000),
        RaftReply::Error(String::from("Handshake try lock failed"))
    );
    assert_eq!(table.id(&String::from("c1")), Some(a.clone()));
    assert_eq!(table.states_count(), 1);
    // once the first handshake has had its time the second is told of the first
    assert_eq!(table.try_lock(b.clone(), 11_000), RaftReply::HandshakeTryLock(Some(a.clone())));
    assert_eq!(table.id(&String::from("c1")), Some(b));
}

#[test]
fn connected_makes_the_node_the_owner() {
    let mut node_a = ClientStates::new(10_000);
    let mut node_b = ClientStates::new(10_000);
    let log = vec![
        (RaftMessage::HandshakeTryLock { id: id(1, "c1") }, 1_000),
        (RaftMessage::Connected { id: id(1, "c1") }, 1_100),
        (RaftMessage::Connected { id: id(2, "other") }, 1_200),
    ];
    for (fact, at) in &log {
        let copy = |m: &RaftMessage| match m {
            RaftMessage::HandshakeTryLock { id } => RaftMessage::HandshakeTryLock { id: id.clone() },
            RaftMessage::Connected { id } => RaftMessage::Connected { id: id.clone() },
            RaftMessage::Disconnected { id } => RaftMessage::Disconnected { id: id.clone() },
            RaftMessage::SessionTerminated { id } => RaftMessage::SessionTerminated { id: id.clone() },
        };
        node_a.apply(copy(fact), *at);
        node_b.apply(copy(fact), *at);
    }
    let c1 = String::from("c1");
    assert_eq!(node_b.id(&c1), Some(id(1, "c1")));
    assert_eq!(node_b.get_client_node_id(&c1), Some(1));
    assert!(node_b.is_online(&c1));
    assert_eq!(node_a.status(&c1), node_b.status(&c1));
    assert_eq!(node_a.states_count(), 2);
    // a connection that asks next is told of node 1
    assert_eq!(
        node_b.try_lock(id(2, "c1"), 1_300),
        RaftReply::HandshakeTryLock(Some(id(1, "c1")))
    );
}

#[test]
fn disconnect_and_termination_regard_the_current_owner_only() {
    let mut table = ClientStates::new(10_000);
    let c1 = String::from("c1");
    table.connected(id(1, "c1"), 1_000);
    table.disconnected(&id(2, "c1"));
    assert!(table.is_online(&c1));
    table.disconnected(&id(1, "c1"));
    assert!(!table.is_online(&c1));
    assert_eq!(table.id(&c1), Some(id(1, "c1")));
    table.session_terminated(&id(2, "c1"));
    assert_eq!(table.states_count(), 1);
    table.session_terminated(&id(1, "c1"));
    assert_eq!(table.states_count(), 0);
    assert_eq!(table.id(&c1), None);
    assert_eq!(table.get_client_node_id(&c1), None);
    table.connected(id(1, "c1"), 2_000);
    table.remove_client_status(&c1);
    assert_eq!(table.status(&c1), None);
    assert_eq!(table.apply(RaftMessage::Disconnected { id: id(1, "c1") }, 1), None);
    assert!(table.apply(RaftMessage::HandshakeTryLock { id: id(1, "c1") }, 1).is_some());
}

#[test]
fn a_kicked_connection_is_not_announced() {
    assert!(announces_disconnect("Remote close connect"));
    assert!(!announces_disconnect("Kicked"));
    assert!(!announces_disconnect("was Kicked by Admin"));
    assert!(announces_disconnect("kicked"));
    assert!(announces_disconnect(""));
    assert_eq!(disconnected_fact(id(1, "c1"), "Kicked"), None);
    assert_eq!(
        disconnected_fact(id(1, "c1"), "Keepalive timeout"),
        Some(RaftMessage::Disconnected { id: id(1, "c1") })
    );
    assert_eq!(
        session_terminated_fact(id(1, "c1")),
        RaftMessage::SessionTerminated { id: id(1, "c1") }
    );
    let ok: Result<Vec<u8>, String> = Ok(Vec::new());
    assert!(!notification_outcome(ok));
    let failed: Result<Vec<u8>, String> = Err(String::from("exhausted"));
    assert!(notification_outcome(failed));
}

#[test]
fn grpc_requests_under_another_tag_pass_on() {
    let sh = shared(1, &[2]);
    assert_eq!(
        grpc_received(&sh, 7, Message::Kick(id(1, "c1"), true, false)),
        Err(Message::Kick(id(1, "c1"), true, false))
    );
    assert_eq!(
        grpc_received(&sh, 198, Message::Kick(id(1, "c1"), true, false)),
        Ok(GrpcRequest::Kick(id(1, "c1"), true, false))
    );
    assert_eq!(
        grpc_received(&sh, 198, Message::SubscriptionsGet(String::from("c9"))),
        Ok(GrpcRequest::SubscriptionsGet(id(1, "c9")))
    );
    assert_eq!(
        grpc_received(&sh, 198, Message::GetRetains(String::from("a/#"))),
        Ok(GrpcRequest::GetRetains(String::from("a/#")))
    );
    assert_eq!(grpc_received(&sh, 198, Message::NumberOfClients), Err(Message::NumberOfClients));
    match grpc_received(
        &sh,
        198,
        Message::ForwardsTo(Origin::from_admin(id(2, "p")), publish("a"), vec![relation("a", "c1")]),
    ) {
        Ok(GrpcRequest::ForwardsTo(from, p, rels)) => {
            assert_eq!(from.typ, FromType::Admin);
            assert_eq!(p, publish("a"));
            assert_eq!(rels, vec![relation("a", "c1")]);
        }
        other => panic!("unexpected {:?}", other),
    }
}

#[test]
fn kick_reply_clears_the_connecting_status() {
    assert_eq!(
        kick_reply(Ok(Some(offline(1, "c1"))), false),
        (false, Ok(MessageReply::Kick(Some(offline(1, "c1")))))
    );
    assert_eq!(
        kick_reply(Ok(Some(offline(1, "c1"))), true),
        (true, Ok(MessageReply::Kick(Some(offline(1, "c1")))))
    );
    assert_eq!(kick_reply(Ok(None), false), (true, Ok(MessageReply::Kick(None))));
    assert_eq!(
        kick_reply(Err(MqttError::ServiceUnavailable), true),
        (false, Err(MqttError::ServiceUnavailable))
    );
    assert_eq!(get_retains_reply(Ok(Vec::new())), Ok(MessageReply::GetRetains(Vec::new())));
    assert_eq!(get_retains_reply(Err(MqttError::NoneError)), Err(MqttError::NoneError));
    assert_eq!(subscriptions_get_reply(None), Ok(MessageReply::SubscriptionsGet(None)));
}

#[test]
fn raft_reply_presence() {
    assert!(!has_reply(&Vec::new()));
    assert!(has_reply(&vec![0u8]));
    assert_eq!(RaftMessage::Connected { id: id(1, "c1") }.id(), &id(1, "c1"));
}

#[test]
fn select_ok_takes_the_first_success() {
    let results: Vec<Result<u32, MqttError>> =
        vec![Err(MqttError::ServiceUnavailable), Ok(7), Ok(8), Err(MqttError::NoneError)];
    assert_eq!(select_ok(results), Ok(7));
    let failures: Vec<Result<u32, MqttError>> =
        vec![Err(MqttError::ServiceUnavailable), Err(MqttError::Timeout(5))];
    assert_eq!(select_ok(failures), Err(MqttError::Timeout(5)));
}

#[test]
fn broadcaster_targets_every_peer() {
    let mut clients = GrpcClients::new();
    assert!(clients.is_empty());
    clients.insert(peer(2));
    clients.insert(peer(3));
    clients.insert(NodeGrpcClient { node_id: 2, addr: String::from("moved:1") });
    assert_eq!(clients.len(), 2);
    assert_eq!(clients.get(2).map(|c| c.addr.clone()), Some(String::from("moved:1")));
    assert!(clients.get(9).is_none());
    let b = MessageBroadcaster::new(clients, 198, Message::NumberOfSessions);
    let targets = b.targets();
    assert_eq!(targets.len(), 2);
    assert_eq!(targets[0].node_id, 2);
    assert_eq!(targets[1], peer(3));
    let sender = MessageSender::new(peer(3), 198, Message::Online(String::from("c"))).with_retries(2);
    assert!(sender.may_retry(2));
    assert!(!sender.may_retry(3));
}

#[test]
fn raft_config_overrides_only_what_is_set() {
    let engine = RaftEngineConfig {
        grpc_timeout_millis: 6_000,
        grpc_concurrency_limit: 200,
        grpc_breaker_threshold: 4,
        grpc_breaker_retry_interval_millis: 2_500,
        proposal_batch_size: 50,
        proposal_batch_timeout_millis: 200,
        snapshot_interval_millis: 600_000,
        heartbeat_millis: 100,
        election_tick: 10,
        heartbeat_tick: 5,
        max_size_per_msg: 0,
        max_inflight_msgs: 256,
        check_quorum: true,
        pre_vote: true,
        min_election_tick: 0,
        max_election_tick: 0,
        read_only_option: ReadOnlyOption::LeaseBased,
        skip_bcast_commit: false,
        batch_append: false,
        priority: 0,
        max_uncommitted_size: u64::MAX,
        max_committed_size_per_ready: u64::MAX,
    };
    let unset = RaftConfig::default();
    let r = unset.to_raft_config(engine);
    assert_eq!(r, RaftEngineConfig { read_only_option: ReadOnlyOption::Safe, ..engine });

    let mut cfg = RaftConfig::default();
    cfg.election_tick = Some(20);
    cfg.pre_vote = Some(false);
    cfg.grpc_timeout_millis = Some(1);
    cfg.read_only_option = ReadOnlyOption::LeaseBased;
    cfg.max_committed_size_per_ready = Some(9);
    let r = cfg.to_raft_config(engine);
    assert_eq!(
        r,
        RaftEngineConfig {
            election_tick: 20,
            pre_vote: false,
            grpc_timeout_millis: 1,
            max_committed_size_per_ready: 9,
            ..engine
        }
    );
}

#[test]
fn read_only_option_by_name() {
    assert_eq!(RaftConfig::deserialize_read_only_option("safe"), Some(ReadOnlyOption::Safe));
    assert_eq!(RaftConfig::deserialize_read_only_option("Safe"), Some(ReadOnlyOption::Safe));
    assert_eq!(
        RaftConfig::deserialize_read_only_option("LeaseBased"),
        Some(ReadOnlyOption::LeaseBased)
    );
    assert_eq!(RaftConfig::deserialize_read_only_option("lease"), None);
    assert_eq!(RaftConfig::deserialize_read_only_option(""), None);
    assert_eq!(RaftConfig::serialize_read_only_option(&ReadOnlyOption::Safe), "safe");
    assert_eq!(RaftConfig::serialize_read_only_option(&ReadOnlyOption::LeaseBased), "leasebased");
    assert_eq!(RaftConfig::read_only_option_default(), ReadOnlyOption::Safe);
}

#[test]
fn plugin_config_defaults_and_merge() {
    let a = |i: u64, s: &str| NodeAddr { id: i, addr: String::from(s) };
    let mut cfg = PluginConfig::new(vec![a(1, "g1")], vec![a(1, "r1")]);
    assert_eq!(cfg.message_type, 198);
    assert_eq!(cfg.try_lock_timeout_millis, 10_000);
    assert_eq!(cfg.task_exec_queue_workers, 500);
    assert_eq!(cfg.task_exec_queue_max, 100_000);
    assert_eq!(cfg.raft, RaftConfig::default());
    assert_eq!(PluginConfig::message_type_default(), 198);
    assert_eq!(PluginConfig::try_lock_timeout_default(), 10_000);
    assert_eq!(PluginConfig::task_exec_queue_workers_default(), 500);
    assert_eq!(PluginConfig::task_exec_queue_max_default(), 100_000);
    assert_eq!(PluginConfig::raft_default(), RaftConfig::default());

    cfg.merge(&Options { node_grpc_addrs: None, raft_peer_addrs: Some(vec![a(2, "r2"), a(3, "r3")]) });
    assert_eq!(cfg.node_grpc_addrs, vec![a(1, "g1")]);
    assert_eq!(cfg.raft_peer_addrs, vec![a(2, "r2"), a(3, "r3")]);
    cfg.merge(&Options { node_grpc_addrs: Some(Vec::new()), raft_peer_addrs: None });
    assert!(cfg.node_grpc_addrs.is_empty());
    assert_eq!(cfg.raft_peer_addrs.len(), 2);
}

#[test]
fn a_way_of_consistency_goes_by_its_lower_case_name() {
    assert_eq!(RaftConfig::read_only_option_named("safe"), Some(ReadOnlyOption::Safe));
    assert_eq!(RaftConfig::read_only_option_named("leasebased"), Some(ReadOnlyOption::LeaseBased));
    assert_eq!(RaftConfig::read_only_option_named("Safe"), None);
    assert_eq!(RaftConfig::read_only_option_named(""), None);
    assert_eq!(RaftConfig::deserialize_read_only_option("SAFE"), Some(ReadOnlyOption::Safe));
    assert_eq!(RaftConfig::deserialize_read_only_option("LEASEBASED"), Some(ReadOnlyOption::LeaseBased));
    assert_eq!(RaftConfig::deserialize_read_only_option("lease"), None);
}

#[test]
fn the_log_is_asked_only_under_the_local_lock() {
    let entry = shared(1, &[2]).entry(id(1, "c1"));
    assert_eq!(entry.try_lock_next(Ok(())), Ok(RaftMessage::HandshakeTryLock { id: id(1, "c1") }));
    assert_eq!(entry.try_lock_next(Err(MqttError::ServiceUnavailable)), Err(MqttError::ServiceUnavailable));
}

#[test]
fn notifications_wait_in_a_bounded_queue_and_are_counted() {
    let mut queue = Notifications::new(2);
    assert_eq!(queue.len(), 0);
    assert_eq!(queue.take(), None);
    let first = disconnected_fact(id(1, "c1"), "closed").unwrap();
    let second = session_terminated_fact(id(1, "c1"));
    let third = session_terminated_fact(id(1, "c2"));
    assert_eq!(queue.offer(first), Ok(()));
    assert_eq!(queue.offer(second), Ok(()));
    assert_eq!(queue.offer(third), Err(RaftMessage::SessionTerminated { id: id(1, "c2") }));
    assert_eq!((queue.len(), queue.completed(), queue.failed()), (2, 0, 1));

    assert_eq!(queue.take(), Some(RaftMessage::Disconnected { id: id(1, "c1") }));
    let committed: Result<Vec<u8>, String> = Ok(Vec::new());
    assert!(!queue.settle(committed));
    assert_eq!((queue.len(), queue.completed(), queue.failed()), (1, 1, 1));

    assert_eq!(queue.take(), Some(RaftMessage::SessionTerminated { id: id(1, "c1") }));
    let exhausted: Result<Vec<u8>, String> = Err(String::from("exhausted"));
    assert!(queue.settle(exhausted));
    assert_eq!((queue.len(), queue.completed(), queue.failed()), (0, 1, 2));
    assert_eq!(queue.take(), None);

    let mut none = Notifications::new(0);
    assert!(none.offer(session_terminated_fact(id(1, "c3"))).is_err());
    assert_eq!(none.failed(), 1);
}

#[test]
fn a_refusal_of_the_log_gives_the_local_lock_back() {
    let sh = shared(1, &[2]);
    let c1 = String::from("c1");

    // the log grants the lock: the slot stays locked
    let mut reg = SessionRegistry::new(1);
    let local = reg.entry(id(1, "c1"));
    reg.try_lock(&local).unwrap();
    let granted = sh
        .entry(id(1, "c1"))
        .try_lock_settled(&mut reg, Ok(Some(RaftReply::HandshakeTryLock(Some(id(2, "c1"))))))
        .unwrap();
    assert_eq!(granted.get_id(), &id(1, "c1"));
    assert_eq!(granted.get_prev_node_id(), Some(2));
    assert_eq!(reg.slot_state(&c1), SlotState::Locked);
    let granted = sh.entry(id(1, "c1")).try_lock_settled(&mut reg, Ok(None)).unwrap();
    assert_eq!(granted.get_prev_node_id(), None);
    assert_eq!(reg.slot_state(&c1), SlotState::Locked);

    // the log refuses: the error, and the slot is free again
    assert_eq!(
        sh.entry(id(1, "c1"))
            .try_lock_settled(&mut reg, Ok(Some(RaftReply::Error(String::from("locked")))))
            .err(),
        Some(MqttError::Msg(String::from("locked")))
    );
    assert_eq!(reg.slot_state(&c1), SlotState::Unlocked);
    assert!(reg.try_lock(&local).is_ok());

    // the log cannot be reached: the same
    assert_eq!(
        sh.entry(id(1, "c1")).try_lock_settled(&mut reg, Err(MqttError::Timeout(500))).err(),
        Some(MqttError::Timeout(500))
    );
    assert_eq!(reg.slot_state(&c1), SlotState::Unlocked);

    // the lock of another connection is not given back for it
    let mut other = id(1, "c1");
    other.username = Some(String::from("someone"));
    let theirs = reg.entry(other);
    reg.try_lock(&theirs).unwrap();
    assert!(sh.entry(id(1, "c1")).try_lock_settled(&mut reg, Err(MqttError::Timeout(500))).is_err());
    assert_eq!(reg.slot_state(&c1), SlotState::Locked);
}

#[test]
fn a_failed_node_loses_the_deliveries_to_its_subscribers() {
    let from = Origin::from_custom(id(1, "sender"));
    let p = publish("a/b");
    let reason = String::from("timed out");
    let relations = vec![relation("a/+", "c2"), relation("a/#", "c3")];
    let drops = dropped_on(2, &relations, &from, &p, &reason);
    assert_eq!(
        drops,
        vec![
            (id(2, "c2"), from.clone(), p.clone(), String::from("timed out")),
            (id(2, "c3"), from.clone(), p.clone(), String::from("timed out")),
        ]
    );
    assert!(dropped_on(2, &Vec::new(), &from, &p, &reason).is_empty());

    let failed = vec![
        LostNode { node_id: 2, relations, reason: String::from("timed out") },
        LostNode { node_id: 5, relations: Vec::new(), reason: String::from("no channel") },
        LostNode { node_id: 3, relations: vec![relation("#", "c9")], reason: String::from("no channel") },
    ];
    let all = dropped_on_all(&failed, &from, &p);
    assert_eq!(
        all,
        vec![
            (id(2, "c2"), from.clone(), p.clone(), String::from("timed out")),
            (id(2, "c3"), from.clone(), p.clone(), String::from("timed out")),
            (id(3, "c9"), from.clone(), p.clone(), String::from("no channel")),
        ]
    );

    let local = vec![(id(1, "c1"), from.clone(), p.clone(), String::from("queue is full"))];
    let outcome = ClusterShared::forwards_outcome(local, &failed, &from, &p);
    let errs = outcome.unwrap_err();
    assert_eq!(errs.len(), 4);
    assert_eq!(errs[0].0, id(1, "c1"));
    assert_eq!(errs[1..].to_vec(), all);
    assert_eq!(ClusterShared::forwards_outcome(Vec::new(), &Vec::new(), &from, &p), Ok(()));
    let none_lost = vec![LostNode { node_id: 4, relations: Vec::new(), reason: String::new() }];
    assert_eq!(ClusterShared::forwards_outcome(Vec::new(), &none_lost, &from, &p), Ok(()));
}
