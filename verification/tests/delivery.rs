use rmqtt::broker::inflight::{
    publish, InflightMessage, InflightWindow, MomentStatus, PublishMessage, PublishOutcome,
};
use rmqtt::broker::registry::SessionRegistry;
use rmqtt::broker::session::{ClientInfo, ConnectInfo, Delivery, Session};
use rmqtt::types::{Id, Origin, Publish, PublishProperties, QoS};

fn from() -> Origin {
    Origin::from_custom(Id::from(1, String::from("sender")))
}

fn message(topic: &str, qos: QoS) -> Publish {
    Publish {
        dup: false,
        retain: false,
        qos,
        topic: String::from(topic),
        packet_id: None,
        payload: topic.as_bytes().to_vec(),
        properties: PublishProperties {
            topic_alias: None,
            correlation_data: None,
            message_expiry_interval: None,
            content_type: None,
            user_properties: Vec::new(),
            is_utf8_payload: None,
            response_topic: None,
            subscription_ids: None,
        },
        create_time: 0,
    }
}

fn session(max_inflight: usize, max_mqueue_len: usize) -> Session {
    Session::new(Id::from(1, String::from("c1")), max_mqueue_len, max_inflight, 0, 30_000, 0)
}

#[test]
fn the_window_holds_no_more_than_max_inflight() {
    let mut s = session(2, 2);
    assert_eq!(s.deliver(from(), message("a", QoS::AtLeastOnce), 10), Delivery::Inflight(1));
    assert_eq!(s.deliver(from(), message("b", QoS::ExactlyOnce), 20), Delivery::Inflight(2));
    // the window is full: the next messages wait, the window is untouched
    assert_eq!(s.deliver(from(), message("c", QoS::AtLeastOnce), 30), Delivery::Queued);
    assert_eq!(s.deliver(from(), message("d", QoS::AtMostOnce), 40), Delivery::Queued);
    assert_eq!(s.inflight_win.len(), 2);
    assert_eq!(s.inflight_win.get(1).map(|m| m.publish.topic.clone()), Some(String::from("a")));
    assert_eq!(s.inflight_win.get(2).map(|m| m.status), Some(MomentStatus::UnReceived));
    assert_eq!(s.inflight_win.get(1).map(|m| m.status), Some(MomentStatus::UnAck));
    assert_eq!(s.inflight_win.get(1).map(|m| m.publish.packet_id), Some(Some(1)));
    // and when the queue is full too, the message is dropped
    assert_eq!(
        s.deliver(from(), message("e", QoS::AtLeastOnce), 50),
        Delivery::Dropped(from(), message("e", QoS::AtLeastOnce), String::from("queue is full"))
    );
    assert_eq!(s.deliver_queue.len(), 2);
    assert_eq!(s.on_credit(60), None);

    // an acknowledgement makes room, and the queue is served in its order
    match publish(&mut s.inflight_win, PublishMessage::PublishAck(1), 70) {
        PublishOutcome::Acked(m) => assert_eq!(m.publish.topic, "a"),
        other => panic!("unexpected {:?}", other),
    }
    assert_eq!(s.on_credit(80), Some(Delivery::Inflight(3)));
    assert_eq!(s.on_credit(80), Some(Delivery::Send(from(), message("d", QoS::AtMostOnce))));
    assert_eq!(s.on_credit(80), None);
    assert_eq!(s.inflight_win.len(), 2);
    assert_eq!(s.inflight_win.get(3).map(|m| (m.publish.topic.clone(), m.update_time)), Some((String::from("c"), 80)));
    assert!(s.deliver_queue.is_empty());
}

#[test]
fn messages_without_acknowledgement_are_sent_at_once() {
    let mut s = session(0, 0);
    assert_eq!(
        s.deliver(from(), message("a", QoS::AtMostOnce), 1),
        Delivery::Send(from(), message("a", QoS::AtMostOnce))
    );
    assert_eq!(s.inflight_win.len(), 0);
    // a window without room and a queue without room
    assert_eq!(
        s.deliver(from(), message("b", QoS::AtLeastOnce), 1),
        Delivery::Dropped(from(), message("b", QoS::AtLeastOnce), String::from("queue is full"))
    );
}

#[test]
fn packet_ids_go_round_and_skip_those_in_use() {
    let m = |id: u16| {
        InflightMessage::new(id, MomentStatus::UnAck, from(), message("t", QoS::AtLeastOnce), 0)
    };
    let mut w = InflightWindow::new(10, 1_000);
    assert_eq!(w.free_id(0), Some(1));
    assert_eq!(w.free_id(7), Some(8));
    assert_eq!(w.free_id(65534), Some(65535));
    assert_eq!(w.free_id(65535), Some(1));
    w.push_back(m(1)).unwrap();
    w.push_back(m(2)).unwrap();
    w.push_back(m(65535)).unwrap();
    assert_eq!(w.free_id(0), Some(3));
    assert_eq!(w.free_id(65534), Some(3));
    assert_eq!(w.free_id(1), Some(3));
    assert_eq!(w.free_id(2), Some(3));
    assert_eq!(w.free_id(3), Some(4));
    assert!(w.get(2).is_some());
    assert!(w.get(3).is_none());

    let mut s = session(3, 0);
    s.last_packet_id = 65534;
    assert_eq!(s.deliver(from(), message("a", QoS::AtLeastOnce), 0), Delivery::Inflight(65535));
    assert_eq!(s.deliver(from(), message("b", QoS::AtLeastOnce), 0), Delivery::Inflight(1));
    assert_eq!(s.last_packet_id, 1);
}

#[test]
fn a_message_that_is_due_is_sent_again_as_a_duplicate() {
    let mut s = session(4, 4);
    s.deliver(from(), message("a", QoS::AtLeastOnce), 1_000);
    s.deliver(from(), message("b", QoS::AtLeastOnce), 2_000);
    assert_eq!(s.inflight_win.retry_front(30_999), None);
    assert_eq!(s.inflight_win.retry_front(31_000), Some(1));
    // it waits anew at the end of the window
    assert_eq!(s.inflight_win.front().map(|m| m.packet_id), Some(2));
    let again = s.inflight_win.get(1).unwrap();
    assert!(again.publish.dup);
    assert_eq!(again.update_time, 31_000);
    assert_eq!(again.publish.topic, "a");
    assert_eq!(s.inflight_win.retry_front(31_000), None);
    assert_eq!(s.inflight_win.retry_front(32_000), Some(2));
    assert_eq!(s.inflight_win.len(), 2);
    let mut empty = InflightWindow::new(1, 1);
    assert_eq!(empty.retry_front(i64::MAX), None);
}

#[test]
fn the_registry_hands_messages_to_the_session() {
    let mut reg = SessionRegistry::new(1);
    let id = Id::from(1, String::from("c1"));
    let e = reg.entry(id.clone());
    assert_eq!(
        reg.publish(&e, from(), message("a", QoS::AtLeastOnce), 5),
        Err((from(), message("a", QoS::AtLeastOnce), String::from("no session")))
    );
    reg.try_lock(&e).unwrap();
    let client = ClientInfo::new(
        ConnectInfo {
            id: id.clone(),
            clean_start: true,
            keep_alive: 60,
            password: None,
            auth_method: None,
            session_expiry_interval_secs: None,
            receive_max: None,
            max_packet_size: None,
        },
        false,
        0,
    );
    reg.set(&e, session(1, 1), client).unwrap();
    assert_eq!(reg.publish(&e, from(), message("a", QoS::AtLeastOnce), 5), Ok(Delivery::Inflight(1)));
    assert_eq!(reg.publish(&e, from(), message("b", QoS::AtLeastOnce), 6), Ok(Delivery::Queued));
    assert_eq!(
        reg.publish(&e, from(), message("c", QoS::AtMostOnce), 7),
        Ok(Delivery::Dropped(from(), message("c", QoS::AtMostOnce), String::from("queue is full")))
    );
    let s = reg.session(&e).unwrap();
    assert_eq!(s.inflight_win.len(), 1);
    assert_eq!(s.deliver_queue.len(), 1);
}
