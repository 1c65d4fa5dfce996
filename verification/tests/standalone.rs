use rmqtt::broker::error::MqttError;
use rmqtt::broker::registry::SessionRegistry;
use rmqtt::broker::session::ConnectInfo;
use rmqtt::broker::standalone::{connect, Answers, ConnectOutcome};
use rmqtt::broker::v5::{ConnectAckReasonV5, Limits};
use rmqtt::settings::listener::ListenerInner;
use rmqtt::types::{Id, QoS, SocketAddress, Subscription};

fn id(client: &str, port: u16) -> Id {
    Id::new(1, None, Some(SocketAddress { ip: String::from("10.0.0.9"), port }), String::from(client), None)
}

fn info(client: &str, port: u16, clean_start: bool) -> ConnectInfo {
    ConnectInfo {
        id: id(client, port),
        clean_start,
        keep_alive: 30,
        password: None,
        auth_method: None,
        session_expiry_interval_secs: Some(60),
        receive_max: None,
        max_packet_size: None,
    }
}

fn answers(at: i64) -> Answers {
    Answers {
        authenticate: ConnectAckReasonV5::Success,
        limits: Limits { max_inflight: 8, max_mqueue_len: 100, keep_alive: Ok((45, 30)), max_packet_size: 4096 },
        connected_at: at,
        retain_available: true,
        shared_subscription_available: true,
    }
}

fn connected(outcome: ConnectOutcome) -> rmqtt::broker::v5::ConnectAck {
    match outcome {
        ConnectOutcome::Connected(ack) => ack,
        other => panic!("refused: {:?}", other),
    }
}

#[test]
fn a_connection_installs_its_session() {
    let mut reg = SessionRegistry::new(1);
    let ack = connected(connect(&mut reg, ListenerInner::default(), info("c1", 4001, true), answers(100)));
    assert!(!ack.session_present);
    assert_eq!(ack.keep_alive, 45);
    assert_eq!(ack.server_keepalive_sec, Some(30));
    assert_eq!(ack.receive_max, Some(8));
    assert_eq!(ack.max_qos, Some(QoS::ExactlyOnce));
    assert_eq!(ack.max_packet_size, Some(4096));
    assert_eq!(ack.session_expiry_interval_secs, Some(60));
    let e = reg.entry(id("c1", 4001));
    let s = reg.session(&e).unwrap();
    assert_eq!(s.id, id("c1", 4001));
    assert_eq!(s.created_at, 100);
    assert_eq!(s.max_inflight, 8);
    assert_eq!(reg.sessions_count(), 1);
    // the lock was given back
    assert_eq!(reg.try_lock(&e), Ok(()));
}

#[test]
fn a_second_connection_takes_the_slot_of_the_first() {
    let mut reg = SessionRegistry::new(1);
    connected(connect(&mut reg, ListenerInner::default(), info("c1", 4001, true), answers(100)));
    let first = reg.entry(id("c1", 4001));
    let sub = Subscription { topic_filter: String::from("a/#"), qos: QoS::AtLeastOnce, shared_group: None };
    assert_eq!(reg.subscribe(&first, sub), Ok(QoS::AtLeastOnce));

    let ack = connected(connect(&mut reg, ListenerInner::default(), info("c1", 4002, false), answers(200)));
    assert!(ack.session_present);
    assert_eq!(reg.sessions_count(), 1);
    let s = reg.session(&first).unwrap();
    assert_eq!(s.id, id("c1", 4002));
    assert_eq!(s.created_at, 100);
    assert_eq!(s.subscriptions.len(), 1);
    assert_eq!(s.subscriptions[0].topic_filter, "a/#");
    assert_eq!(reg.client(&first).map(|c| (c.session_present, c.connected_at)), Some((true, 200)));

    // a clean start resumes nothing
    let ack = connected(connect(&mut reg, ListenerInner::default(), info("c1", 4003, true), answers(300)));
    assert!(!ack.session_present);
    let s = reg.session(&first).unwrap();
    assert_eq!(s.id, id("c1", 4003));
    assert!(s.subscriptions.is_empty());
    assert_eq!(s.created_at, 100);
    assert_eq!(reg.sessions_count(), 1);

    connected(connect(&mut reg, ListenerInner::default(), info("c2", 4004, true), answers(400)));
    assert_eq!(reg.sessions_count(), 2);
}

#[test]
fn a_refused_connection_changes_nothing() {
    let mut reg = SessionRegistry::new(1);
    connected(connect(&mut reg, ListenerInner::default(), info("c1", 4001, true), answers(100)));

    let mut cfg = ListenerInner::default();
    cfg.max_clientid_len = 1;
    assert_eq!(
        connect(&mut reg, cfg, info("c1", 4002, true), answers(200)),
        ConnectOutcome::Refused(
            ConnectAckReasonV5::ClientIdentifierNotValid,
            String::from("client_id is too long")
        )
    );
    let mut with_auth = info("c1", 4002, true);
    with_auth.auth_method = Some(String::from("x"));
    assert_eq!(
        connect(&mut reg, ListenerInner::default(), with_auth, answers(200)),
        ConnectOutcome::Refused(
            ConnectAckReasonV5::BadAuthenticationMethod,
            String::from("extended Auth is not supported")
        )
    );
    let mut denied = answers(200);
    denied.authenticate = ConnectAckReasonV5::BadUserNameOrPassword;
    assert_eq!(
        connect(&mut reg, ListenerInner::default(), info("c1", 4002, true), denied),
        ConnectOutcome::Refused(
            ConnectAckReasonV5::BadUserNameOrPassword,
            String::from("Authentication failed")
        )
    );
    // another handshake for the client id is under way
    let other = reg.entry(id("c1", 4009));
    reg.try_lock(&other).unwrap();
    assert_eq!(
        connect(&mut reg, ListenerInner::default(), info("c1", 4002, true), answers(200)),
        ConnectOutcome::Refused(
            ConnectAckReasonV5::ServerUnavailable,
            String::from("service unavailable")
        )
    );
    let e = reg.entry(id("c1", 4001));
    assert_eq!(reg.session(&e).map(|s| s.id.clone()), Some(id("c1", 4001)));
    reg.unlock(&other);

    // without a keep-alive interval the client is refused, the earlier session is gone by then
    let mut unfit = answers(200);
    unfit.limits.keep_alive = Err(MqttError::Msg(String::from("keepalive")));
    assert_eq!(
        connect(&mut reg, ListenerInner::default(), info("c1", 4002, true), unfit),
        ConnectOutcome::Refused(ConnectAckReasonV5::ServerUnavailable, String::from("keepalive"))
    );
    assert_eq!(reg.sessions_count(), 0);
    assert_eq!(reg.try_lock(&e), Ok(()));
}
