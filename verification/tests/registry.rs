use rmqtt::broker::error::MqttError;
use rmqtt::broker::registry::{SessionRegistry, SlotState};
use rmqtt::broker::session::{ClientInfo, ConnectInfo, Session};
use rmqtt::types::{Id, QoS, SessionOfflineInfo, SocketAddress, Subscription};

fn id(client: &str, port: u16) -> Id {
    Id::new(
        1,
        Some(SocketAddress { ip: String::from("0.0.0.0"), port: 1883 }),
        Some(SocketAddress { ip: String::from("10.0.0.9"), port }),
        String::from(client),
        None,
    )
}

fn session(id: Id, max_subscriptions: usize) -> Session {
    Session::new(id, 1000, 16, max_subscriptions, 30_000, 100)
}

fn client(id: Id) -> ClientInfo {
    ClientInfo::new(
        ConnectInfo {
            id,
            clean_start: false,
            keep_alive: 60,
            password: None,
            auth_method: None,
            session_expiry_interval_secs: None,
            receive_max: None,
            max_packet_size: None,
        },
        false,
        100,
    )
}

fn sub(filter: &str, qos: QoS) -> Subscription {
    Subscription { topic_filter: String::from(filter), qos, shared_group: None }
}

#[test]
fn two_connections_cannot_both_lock_one_client_id() {
    let mut reg = SessionRegistry::new(1);
    let first = reg.entry(id("c1", 4001));
    let second = reg.entry(id("c1", 4002));
    assert_eq!(reg.try_lock(&first), Ok(()));
    assert_eq!(reg.try_lock(&second), Err(MqttError::ServiceUnavailable));
    assert_eq!(reg.try_lock(&first), Err(MqttError::ServiceUnavailable));
    // the loser of the race cannot install
    assert_eq!(
        reg.set(&second, session(id("c1", 4002), 0), client(id("c1", 4002))),
        Err(MqttError::ServiceUnavailable)
    );
    assert_eq!(reg.set(&first, session(id("c1", 4001), 0), client(id("c1", 4001))), Ok(()));
    assert_eq!(reg.sessions_count(), 1);
    assert_eq!(reg.session(&second).map(|s| s.id.clone()), Some(id("c1", 4001)));
    // another client id is not in the way
    let other = reg.entry(id("c2", 4003));
    assert_eq!(reg.try_lock(&other), Ok(()));
    // giving the lock back lets the next one in
    reg.unlock(&second);
    assert_eq!(reg.try_lock(&second), Err(MqttError::ServiceUnavailable));
    reg.unlock(&first);
    assert_eq!(reg.try_lock(&second), Ok(()));
}

#[test]
fn a_slot_goes_from_unlocked_to_locked_to_occupied_and_back() {
    let mut reg = SessionRegistry::new(1);
    let c1 = String::from("c1");
    let e = reg.entry(id("c1", 4001));
    assert_eq!(reg.slot_state(&c1), SlotState::Unlocked);
    reg.try_lock(&e).unwrap();
    assert_eq!(reg.slot_state(&c1), SlotState::Locked);
    reg.set(&e, session(id("c1", 4001), 0), client(id("c1", 4001))).unwrap();
    assert_eq!(reg.slot_state(&c1), SlotState::Occupied);
    reg.unlock(&e);
    assert_eq!(reg.slot_state(&c1), SlotState::Occupied);
    reg.remove(&e);
    assert_eq!(reg.slot_state(&c1), SlotState::Unlocked);
    assert_eq!(reg.slot_state(&String::from("other")), SlotState::Unlocked);
}

#[test]
fn set_without_the_lock_fails() {
    let mut reg = SessionRegistry::new(1);
    let e = reg.entry(id("c1", 4001));
    assert!(e.id_same(&id("c1", 4001)));
    assert!(!e.id_same(&id("c1", 4002)));
    assert_eq!(e.get_id(), &id("c1", 4001));
    assert_eq!(
        reg.set(&e, session(id("c1", 4001), 0), client(id("c1", 4001))),
        Err(MqttError::ServiceUnavailable)
    );
    assert!(!reg.exist(&String::from("c1")));
    assert!(!reg.is_connected(&e));
    assert!(reg.session(&e).is_none());
    assert!(reg.client(&e).is_none());
    assert_eq!(reg.subscriptions(&e), None);
}

#[test]
fn kick_returns_what_the_session_leaves_behind() {
    let mut reg = SessionRegistry::new(1);
    let old = reg.entry(id("c1", 4001));
    assert_eq!(reg.kick(&old, false, false), Ok(None));
    reg.try_lock(&old).unwrap();
    reg.set(&old, session(id("c1", 4001), 0), client(id("c1", 4001))).unwrap();
    reg.unlock(&old);
    assert_eq!(reg.subscribe(&old, sub("a/#", QoS::AtLeastOnce)), Ok(QoS::AtLeastOnce));
    assert_eq!(reg.subscribe(&old, sub("b", QoS::ExactlyOnce)), Ok(QoS::ExactlyOnce));

    let new = reg.entry(id("c1", 4002));
    reg.try_lock(&new).unwrap();
    let info = reg.kick(&new, false, false).unwrap().unwrap();
    assert_eq!(info.id, id("c1", 4001));
    assert_eq!(info.created_at, 100);
    assert_eq!(info.subscriptions, vec![sub("a/#", QoS::AtLeastOnce), sub("b", QoS::ExactlyOnce)]);
    assert!(!reg.exist(&String::from("c1")));
    assert_eq!(reg.kick(&new, false, true), Ok(None));
}

#[test]
fn kick_clears_subscriptions_on_request() {
    let mut reg = SessionRegistry::new(1);
    let e = reg.entry(id("c1", 4001));
    reg.try_lock(&e).unwrap();
    reg.set(&e, session(id("c1", 4001), 0), client(id("c1", 4001))).unwrap();
    reg.subscribe(&e, sub("a/#", QoS::AtLeastOnce)).unwrap();
    let info = reg.kick(&e, true, true).unwrap().unwrap();
    assert!(info.subscriptions.is_empty());
    assert_eq!(info.id, id("c1", 4001));
    assert_eq!(reg.sessions_count(), 0);
}

#[test]
fn remove_with_takes_only_the_named_session() {
    let mut reg = SessionRegistry::new(1);
    let e = reg.entry(id("c1", 4001));
    reg.try_lock(&e).unwrap();
    reg.set(&e, session(id("c1", 4001), 0), client(id("c1", 4001))).unwrap();
    assert!(reg.remove_with(&e, &id("c1", 4002)).is_none());
    assert!(reg.is_connected(&e));
    let item = reg.remove_with(&e, &id("c1", 4001)).unwrap();
    assert_eq!(item.session.id, id("c1", 4001));
    assert_eq!(item.client, client(id("c1", 4001)));
    assert!(reg.remove(&e).is_none());
    reg.set(&e, session(id("c1", 4001), 0), client(id("c1", 4001))).unwrap();
    assert!(reg.remove(&e).is_some());
    assert!(!reg.is_connected(&e));
}

#[test]
fn subscriptions_are_those_of_the_session() {
    let mut reg = SessionRegistry::new(5);
    let e = reg.entry(id("c1", 4001));
    assert_eq!(reg.subscribe(&e, sub("a", QoS::AtMostOnce)), Err(MqttError::ServiceUnavailable));
    assert!(!reg.unsubscribe(&e, &String::from("a")));
    reg.try_lock(&e).unwrap();
    reg.set(&e, session(id("c1", 4001), 2), client(id("c1", 4001))).unwrap();
    assert_eq!(reg.subscriptions(&e), Some(Vec::new()));
    assert_eq!(reg.subscribe(&e, sub("a", QoS::AtMostOnce)), Ok(QoS::AtMostOnce));
    assert_eq!(reg.subscribe(&e, sub("b/+", QoS::AtLeastOnce)), Ok(QoS::AtLeastOnce));
    assert_eq!(reg.subscribe(&e, sub("c", QoS::AtLeastOnce)), Err(MqttError::TooManySubscriptions));
    // a filter that is subscribed already is replaced, not added
    assert_eq!(reg.subscribe(&e, sub("a", QoS::ExactlyOnce)), Ok(QoS::ExactlyOnce));
    let list = reg.subscriptions(&e).unwrap();
    assert_eq!(list.len(), 2);
    assert!(list.iter().all(|s| s.node_id == 5 && s.clientid == "c1"));
    assert!(list.iter().any(|s| s.topic == "a" && s.qos == 2));
    assert!(list.iter().any(|s| s.topic == "b/+" && s.qos == 1));
    assert!(reg.unsubscribe(&e, &String::from("a")));
    assert!(!reg.unsubscribe(&e, &String::from("a")));
    assert_eq!(reg.subscriptions(&e).unwrap().len(), 1);
    assert_eq!(reg.client(&e).map(|c| c.connected_at), Some(100));
}

#[test]
fn a_session_takes_over_what_was_left_behind() {
    let mut old = session(id("c1", 4001), 0);
    old.subscribe(sub("a/#", QoS::AtLeastOnce)).unwrap();
    let left = old.to_offline_info(false);
    let mut new = session(id("c1", 4002), 0);
    new.transfer_session_state(false, left);
    assert_eq!(new.subscriptions, vec![sub("a/#", QoS::AtLeastOnce)]);
    let mut clean = session(id("c1", 4003), 0);
    clean.transfer_session_state(true, old.to_offline_info(false));
    assert!(clean.subscriptions.is_empty());
    let mut c = client(id("c1", 4001));
    c.add_disconnected_reason(String::from("Subscribe failed"));
    assert_eq!(c.disconnected_reasons, vec![String::from("Subscribe failed")]);
    assert_eq!(c.connect_info.client_id(), "c1");
    assert_eq!(c.connect_info.id(), &id("c1", 4001));
}

#[test]
fn of_two_subscriptions_with_one_filter_the_later_is_taken_over() {
    let left = SessionOfflineInfo {
        id: id("c1", 4001),
        subscriptions: vec![
            sub("a/#", QoS::AtMostOnce),
            sub("b", QoS::AtLeastOnce),
            sub("a/#", QoS::ExactlyOnce),
        ],
        created_at: 7,
    };
    let mut new = session(id("c1", 4002), 0);
    new.transfer_session_state(false, left);
    assert_eq!(new.subscriptions, vec![sub("a/#", QoS::ExactlyOnce), sub("b", QoS::AtLeastOnce)]);

    let mut busy = session(id("c1", 4003), 0);
    busy.subscribe(sub("b", QoS::AtMostOnce)).unwrap();
    busy.subscribe(sub("c", QoS::AtMostOnce)).unwrap();
    let left = SessionOfflineInfo {
        id: id("c1", 4001),
        subscriptions: vec![sub("a", QoS::AtLeastOnce), sub("b", QoS::ExactlyOnce)],
        created_at: 7,
    };
    busy.transfer_session_state(false, left);
    assert_eq!(
        busy.subscriptions,
        vec![sub("b", QoS::ExactlyOnce), sub("c", QoS::AtMostOnce), sub("a", QoS::AtLeastOnce)]
    );
}
