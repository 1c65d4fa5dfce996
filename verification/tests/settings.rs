use rmqtt::settings::listener::{Listener, ListenerInner, Listeners, RateLimitError};
use rmqtt::types::QoS;

fn named(port: u16) -> ListenerInner {
    let mut l = ListenerInner::default();
    l.addr.port = port;
    l
}

#[test]
fn listener_defaults() {
    let l = ListenerInner::default();
    assert_eq!(l.name, "external");
    assert_eq!((l.addr.ip.as_str(), l.addr.port), ("0.0.0.0", 1883));
    assert_eq!(l.workers, 8);
    assert_eq!(l.max_connections, 1024000);
    assert_eq!(l.max_handshaking_limit, 500);
    assert_eq!(l.max_packet_size, 1024 * 1024);
    assert_eq!(l.backlog, 1024);
    assert_eq!(l.idle_timeout_millis, 15_000);
    assert!(l.allow_anonymous);
    assert_eq!(l.min_keepalive, 0);
    assert_eq!(l.keepalive_backoff, (3, 4));
    assert_eq!(l.max_inflight, 16);
    assert_eq!(l.handshake_timeout_millis, 15_000);
    assert_eq!(l.max_mqueue_len, 1000);
    assert_eq!(l.mqueue_rate_limit, (u32::MAX, 1000));
    assert_eq!(l.max_clientid_len, 65535);
    assert_eq!(l.max_qos_allowed, QoS::ExactlyOnce);
    assert_eq!(l.max_topic_levels, 0);
    assert!(l.retain_available);
    assert_eq!(l.session_expiry_interval_millis, 7_200_000);
    assert_eq!(l.message_retry_interval_millis, 30_000);
    assert_eq!(l.message_expiry_interval_millis, 30_000);
    assert_eq!(l.max_awaiting_rel, 100);
    assert_eq!(l.await_rel_timeout_millis, 300_000);
    assert_eq!(l.max_subscriptions, 0);
    assert!(l.shared_subscription);
    assert_eq!(l.cert, None);
    assert_eq!(l.key, None);
    assert_eq!(l.clone(), l);
    assert_eq!(Listener::default().deref(), &l);
    assert_eq!(Listener::new(named(9)).deref().addr.port, 9);
}

#[test]
fn handshake_timeout_is_capped() {
    let mut l = ListenerInner::default();
    assert_eq!(l.handshake_timeout(), 15_000);
    l.handshake_timeout_millis = 65_535;
    assert_eq!(l.handshake_timeout(), 65_535);
    l.handshake_timeout_millis = 65_536;
    assert_eq!(l.handshake_timeout(), 65_535);
    l.handshake_timeout_millis = 3_600_000;
    assert_eq!(l.handshake_timeout(), 0xffff);
    l.handshake_timeout_millis = 0;
    assert_eq!(l.handshake_timeout(), 0);
}

#[test]
fn max_qos_allowed_takes_three_values() {
    assert_eq!(ListenerInner::deserialize_max_qos_allowed(0), Ok(QoS::AtMostOnce));
    assert_eq!(ListenerInner::deserialize_max_qos_allowed(1), Ok(QoS::AtLeastOnce));
    assert_eq!(ListenerInner::deserialize_max_qos_allowed(2), Ok(QoS::ExactlyOnce));
    assert_eq!(
        ListenerInner::deserialize_max_qos_allowed(3),
        Err(String::from("QoS configuration error, only values (0,1,2) are supported"))
    );
}

#[test]
fn mqueue_rate_limit_needs_a_burst_and_a_time() {
    assert_eq!(ListenerInner::deserialize_mqueue_rate_limit("100", 1000), Ok((100, 1000)));
    assert_eq!(
        ListenerInner::deserialize_mqueue_rate_limit("4294967295", 1),
        Ok((u32::MAX, 1))
    );
    assert_eq!(
        ListenerInner::deserialize_mqueue_rate_limit("0", 1000),
        Err(RateLimitError::Burst)
    );
    assert_eq!(
        ListenerInner::deserialize_mqueue_rate_limit("4294967296", 1000),
        Err(RateLimitError::Burst)
    );
    assert_eq!(
        ListenerInner::deserialize_mqueue_rate_limit("ten", 1000),
        Err(RateLimitError::Burst)
    );
    assert_eq!(ListenerInner::deserialize_mqueue_rate_limit("", 1000), Err(RateLimitError::Burst));
    assert_eq!(
        ListenerInner::deserialize_mqueue_rate_limit("100", 0),
        Err(RateLimitError::Value)
    );
}

#[test]
fn listeners_are_filed_by_port() {
    let mut ls = Listeners::new();
    assert_eq!(ls.get(1883), None);
    ls.add_tcp(String::from("external"), named(1883));
    ls.add_tcp(String::from("internal"), named(11883));
    ls.add_tls(String::from("secure"), named(8883));
    assert_eq!(ls.tcp(1883), None);
    ls.init();
    assert_eq!(ls.tcp(1883).map(|l| l.deref().name.clone()), Some(String::from("external")));
    assert_eq!(ls.tcp(11883).map(|l| l.deref().name.clone()), Some(String::from("internal")));
    assert_eq!(ls.tcp(8883), None);
    assert_eq!(ls.tls(8883).map(|l| l.deref().name.clone()), Some(String::from("secure")));
    assert_eq!(ls.get(8883).map(|l| l.deref().addr.port), Some(8883));
    assert_eq!(ls.get(11883).map(|l| l.deref().addr.port), Some(11883));
    assert_eq!(ls.get(1), None);
    assert!(ls.named_tcps.is_empty());
    assert!(ls.named_tlss.is_empty());
}

#[test]
fn of_two_listeners_on_one_port_the_later_stays() {
    let mut ls = Listeners::new();
    ls.add_tcp(String::from("first"), named(1883));
    ls.add_tcp(String::from("second"), named(1883));
    ls.add_tls(String::from("tls"), named(1883));
    ls.init();
    assert_eq!(ls.tcp(1883).map(|l| l.deref().name.clone()), Some(String::from("second")));
    // the plain listener comes before the TLS one
    assert_eq!(ls.get(1883).map(|l| l.deref().name.clone()), Some(String::from("second")));
    assert_eq!(ls.tls(1883).map(|l| l.deref().name.clone()), Some(String::from("tls")));
}

#[test]
fn the_default_listener_is_plain_on_1883() {
    let mut ls = Listeners::new();
    ls.set_default();
    assert_eq!(ls.tcp(1883), Some(Listener::default()));
    assert_eq!(ls.tls(1883), None);
}
