use rmqtt::plugins::bridge_egress_kafka::{producer_attrs, ProducerAttr, Sink};
use rmqtt::broker::error::MqttError;
use rmqtt::broker::v5::SubscribeAckReason;
use rmqtt::collections::StrMap;
use rmqtt::plugins::auth_http::{
    allowed_by_cache, answer, authenticate_settled, client_authenticate, client_disconnected,
    client_subscribe_check_acl, fill, message_publish_check_acl, note_answer, replaces,
    request_kind, ACLType, AuthResult, CacheItem, CacheValue, HookResult, PublishAclResult,
    RequestKind, SubscribeAclResult, Substitutes, IGNORE,
};
use rmqtt::plugins::bridge_egress_reductstore::{Auth, Bridge, Entry, Local, Remote};
use rmqtt::plugins::registration::{registration, starts, PluginMeta};
use rmqtt::plugins::retainer::{set_decision, RamRetainer, RetainDecision};
use rmqtt::plugins::sys_topic::{publish_interval, sys_publish, topic, SysEvent};
use rmqtt::text::{join2, join3, u64_to_string};
use rmqtt::topic::Topic;
use rmqtt::types::{FromType, Id, Origin, Publish, PublishProperties, QoS, Retain};

fn substitutes(sub_or_pub: Option<(ACLType, String)>) -> Substitutes {
    Substitutes {
        username: String::from("alice"),
        client_id: String::from("c-1"),
        remote_addr: String::from("10.0.0.7"),
        password: String::from("s3cret"),
        sub_or_pub,
    }
}

#[test]
fn acl_type_numbers() {
    assert_eq!(ACLType::Sub.as_str(), "1");
    assert_eq!(ACLType::Pub.as_str(), "2");
    assert_eq!(IGNORE, "ignore");
}

#[test]
fn placeholders_are_filled_in() {
    let s = substitutes(Some((ACLType::Pub, String::from("a/b"))));
    assert_eq!(fill("%u", &s), "alice");
    assert_eq!(fill("user=%u&id=%c", &s), "user=alice&id=c-1");
    assert_eq!(fill("%a %r %P %A %t", &s), "10.0.0.7 mqtt s3cret 2 a/b");
    assert_eq!(fill("%u%u", &s), "alicealice");
    assert_eq!(fill("no placeholders", &s), "no placeholders");
    assert_eq!(fill("", &s), "");
    assert_eq!(fill("100%", &s), "100%");
    let s = substitutes(None);
    assert_eq!(fill("[%A|%t]", &s), "[|]");
    let s = substitutes(Some((ACLType::Sub, String::from("x/#"))));
    assert_eq!(fill("access=%A&topic=%t", &s), "access=1&topic=x/#");
}

#[test]
fn every_parameter_is_filled_in() {
    let mut params = vec![
        (String::from("clientid"), String::from("%c")),
        (String::from("username"), String::from("%u")),
        (String::from("protocol"), String::from("%r")),
        (String::from("%u"), String::from("kept")),
    ];
    replaces(&mut params, &substitutes(None));
    assert_eq!(
        params,
        vec![
            (String::from("clientid"), String::from("c-1")),
            (String::from("username"), String::from("alice")),
            (String::from("protocol"), String::from("mqtt")),
            (String::from("%u"), String::from("kept")),
        ]
    );
}

#[test]
fn the_cache_remembers_superusers_and_ignored_questions() {
    let key = |path: &str, t: Option<&str>| {
        CacheItem(String::from(path), t.map(|t| (ACLType::Sub, String::from(t))))
    };
    assert!(!allowed_by_cache(None, &key("/acl", Some("a"))));
    let mut c = CacheValue::new();
    assert!(!allowed_by_cache(Some(&c), &key("/acl", Some("a"))));

    // an answer that is not "ignore" is not remembered
    assert!(note_answer(&mut c, true, &String::from("ok"), false, key("/acl", Some("a"))));
    assert!(!note_answer(&mut c, false, &String::from("ignore"), false, key("/acl", Some("a"))));
    assert!(c.ignores.is_empty());
    // "ignore" on a question about an access is
    assert!(note_answer(&mut c, true, &String::from("ignore"), false, key("/acl", Some("a"))));
    assert!(allowed_by_cache(Some(&c), &key("/acl", Some("a"))));
    assert!(!allowed_by_cache(Some(&c), &key("/acl", Some("b"))));
    assert!(!allowed_by_cache(Some(&c), &key("/auth", Some("a"))));
    assert!(!allowed_by_cache(Some(&c), &key("/acl", None)));
    // "ignore" on a question about no access is not
    assert!(note_answer(&mut c, true, &String::from("ignore"), false, key("/auth", None)));
    assert_eq!(c.ignores.len(), 1);
    assert!(!c.is_super);
    // "ignore" on the superuser question makes a superuser
    assert!(note_answer(&mut c, true, &String::from("ignore"), true, key("/super", None)));
    assert!(c.is_super);
    assert!(allowed_by_cache(Some(&c), &key("/anything", Some("z"))));
    assert!(key("/acl", Some("a")).is_same(&key("/acl", Some("a"))));

    let mut map: StrMap<CacheValue> = StrMap::new();
    map.insert(String::from("c1"), c);
    map.insert(String::from("c2"), CacheValue::new());
    client_disconnected(&mut map, &String::from("c1"));
    assert!(!map.contains_key(&String::from("c1")));
    assert!(map.contains_key(&String::from("c2")));
    assert_eq!(map.len(), 1);
}

#[test]
fn requests_go_out_in_one_of_three_ways() {
    assert_eq!(request_kind(true, false), RequestKind::Get);
    assert_eq!(request_kind(true, true), RequestKind::Get);
    assert_eq!(request_kind(false, true), RequestKind::Json);
    assert_eq!(request_kind(false, false), RequestKind::Form);
    let unasked: Option<Result<bool, String>> = None;
    assert!(answer(false, unasked));
    assert!(answer(true, Some(Ok::<bool, String>(true))));
    assert!(!answer(true, Some(Ok::<bool, String>(false))));
    assert!(!answer(true, Some(Err::<bool, String>(String::from("timeout")))));
}

#[test]
fn authentication_by_the_service() {
    let allow = Some(HookResult::AuthResult(AuthResult::Allow));
    let bad = Some(HookResult::AuthResult(AuthResult::BadUsernameOrPassword));
    let denied = Some(HookResult::AuthResult(AuthResult::NotAuthorized));
    assert!(authenticate_settled(bad));
    assert!(authenticate_settled(denied));
    assert!(!authenticate_settled(allow));
    assert!(!authenticate_settled(None));
    // an earlier refusal stands
    assert_eq!(client_authenticate(bad, true, None, false), (false, bad));
    assert_eq!(client_authenticate(denied, false, Some(true), false), (false, denied));
    // a superuser is allowed without the password being checked
    assert_eq!(client_authenticate(None, true, None, false), (true, allow));
    assert_eq!(client_authenticate(None, true, None, true), (false, allow));
    assert_eq!(client_authenticate(allow, false, Some(true), false), (true, allow));
    assert_eq!(client_authenticate(None, false, Some(true), true), (false, allow));
    assert_eq!(client_authenticate(None, false, Some(false), false), (false, bad));
    assert_eq!(client_authenticate(None, false, Some(false), true), (false, bad));
}

#[test]
fn access_control_by_the_service() {
    let granted = Some(HookResult::SubscribeAclResult(SubscribeAclResult::Success(QoS::AtLeastOnce)));
    let refused = Some(HookResult::SubscribeAclResult(SubscribeAclResult::Failure(
        SubscribeAckReason::NotAuthorized,
    )));
    let earlier = Some(HookResult::SubscribeAclResult(SubscribeAclResult::Failure(
        SubscribeAckReason::QuotaExceeded,
    )));
    assert_eq!(client_subscribe_check_acl(earlier, true, QoS::AtLeastOnce, false), (false, earlier));
    assert_eq!(client_subscribe_check_acl(None, true, QoS::AtLeastOnce, false), (true, granted));
    assert_eq!(client_subscribe_check_acl(None, true, QoS::AtLeastOnce, true), (false, granted));
    assert_eq!(client_subscribe_check_acl(granted, false, QoS::AtLeastOnce, false), (false, refused));

    let allow = Some(HookResult::PublishAclResult(PublishAclResult::Allow));
    let rejected = Some(HookResult::PublishAclResult(PublishAclResult::Rejected(false)));
    assert_eq!(message_publish_check_acl(rejected, true, false, true), (false, rejected));
    assert_eq!(message_publish_check_acl(None, true, false, true), (true, allow));
    assert_eq!(message_publish_check_acl(allow, true, true, true), (false, allow));
    assert_eq!(
        message_publish_check_acl(None, false, false, true),
        (false, Some(HookResult::PublishAclResult(PublishAclResult::Rejected(true))))
    );
    assert_eq!(message_publish_check_acl(None, false, true, false), (false, rejected));
}

fn retain(payload: Vec<u8>) -> Retain {
    Retain {
        msg_id: None,
        from: Origin::from_custom(Id::from(1, String::from("p"))),
        publish: Publish {
            dup: false,
            retain: true,
            qos: QoS::AtMostOnce,
            topic: String::from("t"),
            packet_id: None,
            payload,
            properties: PublishProperties {
                topic_alias: None,
                correlation_data: None,
                message_expiry_interval: None,
                content_type: None,
                user_properties: Vec::new(),
                is_utf8_payload: None,
                response_topic: None,
                subscription_ids: None,
            },
            create_time: 0,
        },
    }
}

#[test]
fn retained_messages_are_admitted_by_size_and_number() {
    assert_eq!(set_decision(false, 1, 10, 0, 0), RetainDecision::NotSupported);
    assert_eq!(set_decision(true, 11, 10, 0, 0), RetainDecision::PayloadTooLarge);
    assert_eq!(set_decision(true, 10, 10, 0, 0), RetainDecision::Store);
    assert_eq!(set_decision(true, 1, 10, 5, 5), RetainDecision::Full);
    assert_eq!(set_decision(true, 1, 10, 4, 5), RetainDecision::Store);
    assert_eq!(set_decision(true, 1, 10, 1_000_000, 0), RetainDecision::Store);
    assert_eq!(set_decision(true, 11, 10, 5, 5), RetainDecision::PayloadTooLarge);
}

#[test]
fn the_retainer_keeps_and_finds_messages() {
    let t = |s: &str| Topic::from_str(s).unwrap();
    let mut r = RamRetainer::new(true, 4, 2);
    assert_eq!(r.max(), 2);
    assert_eq!(r.set(&t("a/b"), retain(vec![1])), RetainDecision::Store);
    assert_eq!(r.set(&t("a/c"), retain(vec![1, 2, 3, 4, 5])), RetainDecision::PayloadTooLarge);
    assert_eq!(r.set(&t("a/c"), retain(vec![2])), RetainDecision::Store);
    assert_eq!(r.count(), 2);
    assert_eq!(r.set(&t("a/d"), retain(vec![3])), RetainDecision::Full);
    let mut found: Vec<(Topic, u8)> =
        r.get(&t("a/+")).into_iter().map(|(topic, m)| (topic, m.publish.payload[0])).collect();
    found.sort_by_key(|f| f.1);
    assert_eq!(found, vec![(t("a/b"), 1), (t("a/c"), 2)]);
    assert!(r.get(&t("b/#")).is_empty());

    let mut off = RamRetainer::new(false, 4, 0);
    assert_eq!(off.set(&t("a/b"), retain(vec![1])), RetainDecision::NotSupported);
    assert!(off.get(&t("#")).is_empty());
    assert_eq!(off.count(), 0);
}

#[test]
fn system_topics() {
    assert_eq!(topic(1, SysEvent::SessionCreated, "c1"), "$SYS/brokers/1/session/c1/created");
    assert_eq!(topic(1, SysEvent::SessionTerminated, "c1"), "$SYS/brokers/1/session/c1/terminated");
    assert_eq!(topic(12, SysEvent::ClientConnected, "c1"), "$SYS/brokers/12/clients/c1/connected");
    assert_eq!(topic(12, SysEvent::ClientDisconnected, "c"), "$SYS/brokers/12/clients/c/disconnected");
    assert_eq!(topic(3, SysEvent::SessionSubscribed, "c1"), "$SYS/brokers/3/session/c1/subscribed");
    assert_eq!(topic(3, SysEvent::SessionUnsubscribed, "c1"), "$SYS/brokers/3/session/c1/unsubscribed");
    assert_eq!(topic(3, SysEvent::MessageDropped, "ignored"), "$SYS/brokers/3/message/dropped");
    assert_eq!(topic(0, SysEvent::Stats, ""), "$SYS/brokers/0/stats");
    assert_eq!(
        topic(u64::MAX, SysEvent::Metrics, ""),
        "$SYS/brokers/18446744073709551615/metrics"
    );
    assert_eq!(publish_interval(0), 1000);
    assert_eq!(publish_interval(999), 1000);
    assert_eq!(publish_interval(1000), 1000);
    assert_eq!(publish_interval(60_000), 60_000);
}

#[test]
fn system_publishes_come_from_the_system() {
    let (from, p) = sys_publish(7, String::from("$SYS/brokers/7/stats"), QoS::AtLeastOnce, vec![123, 125], 99);
    assert_eq!(from.typ, FromType::System);
    assert_eq!(
        from.id,
        Id::new(7, None, None, String::from("system"), Some(String::from("system")))
    );
    assert!(!p.dup && !p.retain);
    assert_eq!(p.qos, QoS::AtLeastOnce);
    assert_eq!(p.topic, "$SYS/brokers/7/stats");
    assert_eq!(p.packet_id, None);
    assert_eq!(p.payload, vec![123, 125]);
    assert_eq!(p.create_time, 99);
    assert!(p.properties.user_properties.is_empty());
}

#[test]
fn plugins_register_under_their_names() {
    let meta = PluginMeta {
        id: String::from("rmqtt-auth-http"),
        name: None,
        description: None,
        default_startup: None,
        immutable: None,
    };
    let r = registration(&meta);
    assert_eq!((r.name.as_str(), r.descr.as_str()), ("rmqtt-auth-http", ""));
    assert!(!r.default_startup && !r.immutable);
    assert!(!starts(&r, &Vec::new()));
    assert!(starts(&r, &vec![String::from("x"), String::from("rmqtt-auth-http")]));
    let meta = PluginMeta {
        id: String::from("rmqtt-acl"),
        name: Some(String::from("acl")),
        description: Some(String::from("access control")),
        default_startup: Some(true),
        immutable: Some(true),
    };
    let r = registration(&meta);
    assert_eq!((r.name.as_str(), r.descr.as_str()), ("acl", "access control"));
    assert!(r.default_startup && r.immutable);
    assert!(starts(&r, &Vec::new()));
}

#[test]
fn bridge_settings_default_to_nothing() {
    let b = Bridge::default();
    assert!(!b.enable);
    assert_eq!((b.name.as_str(), b.servers.as_str()), ("", ""));
    assert_eq!(b.timeout_millis, None);
    assert!(b.entries.is_empty());
    assert_eq!(Entry::default(), Entry { local: Local::default(), remote: Remote::default() });
    assert_eq!(Local::default().topic_filter, "");
    assert_eq!(Remote::default().quota_size, None);
    assert!(!Remote::default().forward_all_from);
    assert_eq!(Auth::default().token, None);
}

#[test]
fn numbers_and_texts() {
    assert_eq!(u64_to_string(0), "0");
    assert_eq!(u64_to_string(9), "9");
    assert_eq!(u64_to_string(10), "10");
    assert_eq!(u64_to_string(1234567890), "1234567890");
    assert_eq!(u64_to_string(u64::MAX), "18446744073709551615");
    assert_eq!(join2("a", "b"), "ab");
    assert_eq!(join3("a", "", "c"), "ac");
}

#[test]
fn errors_say_what_went_wrong() {
    assert_eq!(MqttError::default(), MqttError::ServiceUnavailable);
    assert_eq!(MqttError::from(()), MqttError::ServiceUnavailable);
    assert_eq!(MqttError::from(String::from("x")), MqttError::Msg(String::from("x")));
    assert_eq!(MqttError::msg("x"), MqttError::Msg(String::from("x")));
    assert_eq!(MqttError::ServiceUnavailable.message(), "service unavailable");
    assert_eq!(MqttError::Timeout(5).message(), "read/write timeout");
    assert_eq!(MqttError::SendPacketError(String::from("closed")).message(), "send packet error, closed");
    assert_eq!(MqttError::Msg(String::from("m")).message(), "m");
    assert_eq!(MqttError::TopicError(String::from("InvalidTopic")).message(), "topic error, InvalidTopic");
    assert_eq!(MqttError::Utf8Error(String::from("bad")).message(), "utf8 error, bad");
    assert_eq!(MqttError::TooManySubscriptions.message(), "too many subscriptions");
    assert_eq!(MqttError::ListenerConfigError.message(), "listener config is error");
    assert_eq!(MqttError::NoneError.message(), "None");
    assert_eq!(MqttError::Json(String::from("j")).message(), "j");
    assert_eq!(MqttError::Error(String::from("e")).message(), "e");
    assert_eq!(MqttError::IoError(String::from("io")).message(), "io");
    assert_eq!(MqttError::Anyhow(String::from("any")).message(), "any");
    assert_eq!(MqttError::ConfigError(String::from("cfg")).message(), "cfg");
    assert_eq!(MqttError::AddrParseError(String::from("addr")).message(), "addr");
    assert_eq!(MqttError::ParseIntError(String::from("int")).message(), "int");
}

#[test]
fn the_kafka_bridge_tells_of_each_producer() {
    let sinks = vec![
        Sink {
            bridge_name: String::from("b1"),
            entry_idx: 0,
            producers: vec![String::from("p-0"), String::from("p-1")],
        },
        Sink { bridge_name: String::from("b1"), entry_idx: 1, producers: Vec::new() },
        Sink { bridge_name: String::from("b2"), entry_idx: 3, producers: vec![String::from("q-0")] },
    ];
    let attr = |client_id: &str, name: &str, entry_idx: usize, client_no: usize| ProducerAttr {
        client_id: String::from(client_id),
        name: String::from(name),
        entry_idx,
        client_no,
    };
    assert_eq!(
        producer_attrs(&sinks),
        vec![attr("p-0", "b1", 0, 0), attr("p-1", "b1", 0, 1), attr("q-0", "b2", 3, 0)]
    );
    assert_eq!(producer_attrs(&Vec::new()), Vec::<ProducerAttr>::new());
}
