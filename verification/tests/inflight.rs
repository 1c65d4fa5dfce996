use rmqtt::broker::inflight::{
    publish, InflightMessage, InflightWindow, MomentStatus, PublishMessage, PublishOutcome,
};
use rmqtt::types::{Id, Origin, Publish, PublishProperties, QoS};

fn message(packet_id: u16, at: i64) -> InflightMessage {
    InflightMessage::new(
        packet_id,
        MomentStatus::UnAck,
        Origin::from_custom(Id::from(1, String::from("sender"))),
        Publish {
            dup: false,
            retain: false,
            qos: QoS::AtLeastOnce,
            topic: format!("t/{}", packet_id),
            packet_id: Some(packet_id),
            payload: vec![packet_id as u8],
            properties: PublishProperties {
                topic_alias: None,
                correlation_data: None,
                message_expiry_interval: None,
                content_type: None,
                user_properties: Vec::new(),
                is_utf8_payload: None,
                response_topic: None,
                subscription_ids: None,
            },
            create_time: at,
        },
        at,
    )
}

fn ids(w: &mut InflightWindow) -> Vec<u16> {
    let mut out = Vec::new();
    let mut taken = Vec::new();
    while let Some(m) = w.pop_front() {
        out.push(m.packet_id);
        taken.push(m);
    }
    for m in taken {
        assert!(w.push_back(m).is_ok());
    }
    out
}

#[test]
fn inflight_window_never_exceeds_its_capacity() {
    let mut w = InflightWindow::new(2, 30_000);
    assert!(w.is_empty());
    assert!(w.has_credit());
    assert!(w.push_back(message(1, 10)).is_ok());
    assert!(w.push_back(message(2, 20)).is_ok());
    assert!(!w.has_credit());
    assert_eq!(w.len(), 2);
    // the window is full: the message comes back, nothing is dropped or overwritten
    assert_eq!(w.push_back(message(3, 30)), Err(message(3, 30)));
    assert_eq!(w.len(), 2);
    assert_eq!(ids(&mut w), vec![1, 2]);
    assert!(w.exist(1) && w.exist(2) && !w.exist(3));
    // an acknowledgement makes room
    assert_eq!(w.remove(1), Some(message(1, 10)));
    assert!(w.has_credit());
    assert!(w.push_back(message(3, 30)).is_ok());
    assert_eq!(ids(&mut w), vec![2, 3]);
}

#[test]
fn inflight_window_of_no_capacity_takes_nothing() {
    let mut w = InflightWindow::new(0, 1);
    assert!(!w.has_credit());
    assert_eq!(w.push_back(message(1, 1)), Err(message(1, 1)));
    assert_eq!(w.len(), 0);
    assert_eq!(w.pop_front(), None);
    assert_eq!(w.front(), None);
}

#[test]
fn inflight_packet_ids_are_unique() {
    let mut w = InflightWindow::new(4, 30_000);
    assert!(w.push_back(message(7, 10)).is_ok());
    assert_eq!(w.push_back(message(7, 99)), Err(message(7, 99)));
    assert_eq!(w.len(), 1);
    assert_eq!(w.front(), Some(&message(7, 10)));
}

#[test]
fn inflight_entries_retire_by_id_and_keep_their_order() {
    let mut w = InflightWindow::new(8, 30_000);
    for i in 1..=5u16 {
        assert!(w.push_back(message(i, i as i64)).is_ok());
    }
    assert_eq!(w.remove(3), Some(message(3, 3)));
    assert_eq!(w.remove(3), None);
    assert_eq!(w.remove(9), None);
    assert_eq!(ids(&mut w), vec![1, 2, 4, 5]);
    assert_eq!(w.remove(1), Some(message(1, 1)));
    assert_eq!(w.remove(5), Some(message(5, 5)));
    assert_eq!(ids(&mut w), vec![2, 4]);
    assert_eq!(w.pop_front(), Some(message(2, 2)));
    assert_eq!(w.pop_front(), Some(message(4, 4)));
    assert_eq!(w.pop_front(), None);
}

#[test]
fn inflight_status_moves_on_with_the_receipt() {
    let mut w = InflightWindow::new(8, 30_000);
    assert!(w.push_back(message(1, 10)).is_ok());
    assert!(w.push_back(message(2, 20)).is_ok());
    assert!(w.update_status(2, MomentStatus::UnComplete, 500));
    assert!(!w.update_status(5, MomentStatus::UnComplete, 500));
    assert_eq!(w.front(), Some(&message(1, 10)));
    let second = w.remove(2).unwrap();
    assert_eq!(second.status, MomentStatus::UnComplete);
    assert_eq!(second.update_time, 500);
    assert_eq!(second.publish, message(2, 20).publish);
    assert_eq!(second.from, message(2, 20).from);
}

#[test]
fn inflight_retry_is_due_after_the_interval() {
    let mut w = InflightWindow::new(8, 30_000);
    assert_eq!(w.pop_front_timeout(1_000_000), None);
    assert!(w.push_back(message(1, 1_000)).is_ok());
    assert!(w.push_back(message(2, 2_000)).is_ok());
    assert!(!message(1, 1_000).timeout(30_000, 30_999));
    assert!(message(1, 1_000).timeout(30_000, 31_000));
    assert_eq!(w.pop_front_timeout(30_999), None);
    assert_eq!(w.len(), 2);
    assert_eq!(w.pop_front_timeout(31_000), Some(message(1, 1_000)));
    assert_eq!(w.pop_front_timeout(31_000), None);
    assert_eq!(w.pop_front_timeout(32_000), Some(message(2, 2_000)));
    assert!(w.is_empty());
}

#[test]
fn publish_messages_drive_the_window() {
    let mut w = InflightWindow::new(8, 30_000);
    assert!(w.push_back(message(1, 10)).is_ok());
    assert!(w.push_back(message(2, 20)).is_ok());
    assert_eq!(publish(&mut w, PublishMessage::Publish, 100), PublishOutcome::Deliver);
    assert_eq!(w.len(), 2);
    assert_eq!(
        publish(&mut w, PublishMessage::PublishAck(1), 100),
        PublishOutcome::Acked(message(1, 10))
    );
    assert_eq!(publish(&mut w, PublishMessage::PublishAck(1), 100), PublishOutcome::Nothing);
    assert_eq!(publish(&mut w, PublishMessage::PublishReceived(2), 150), PublishOutcome::Nothing);
    assert_eq!(w.front().map(|m| (m.status, m.update_time)), Some((MomentStatus::UnComplete, 150)));
    match publish(&mut w, PublishMessage::PublishComplete(2), 200) {
        PublishOutcome::Acked(m) => {
            assert_eq!(m.packet_id, 2);
            assert_eq!(m.status, MomentStatus::UnComplete);
        }
        other => panic!("unexpected {:?}", other),
    }
    assert!(w.is_empty());
    assert_eq!(publish(&mut w, PublishMessage::PublishComplete(2), 200), PublishOutcome::Nothing);
}
