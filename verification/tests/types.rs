use rmqtt::collections::StrMap;
use rmqtt::types::{FromType, Id, Origin, QoS, SocketAddress};

#[test]
fn qos_levels() {
    assert_eq!(QoS::AtMostOnce.value(), 0);
    assert_eq!(QoS::AtLeastOnce.value(), 1);
    assert_eq!(QoS::ExactlyOnce.value(), 2);
    assert_eq!(QoS::from_level(0), Some(QoS::AtMostOnce));
    assert_eq!(QoS::from_level(2), Some(QoS::ExactlyOnce));
    assert_eq!(QoS::from_level(3), None);
    assert_eq!(QoS::ExactlyOnce.less_value(QoS::AtLeastOnce), QoS::AtLeastOnce);
    assert_eq!(QoS::AtMostOnce.less_value(QoS::AtLeastOnce), QoS::AtMostOnce);
    assert_eq!(QoS::AtLeastOnce.less_value(QoS::AtLeastOnce), QoS::AtLeastOnce);
}

#[test]
fn identities() {
    let a = Id::new(
        3,
        None,
        Some(SocketAddress { ip: String::from("10.0.0.1"), port: 5000 }),
        String::from("cli\u{e9}nt"),
        Some(String::from("u")),
    );
    assert_eq!(a.node(), 3);
    assert_eq!(a.client_id_len(), 7);
    assert!(a.is_same(&a.clone()));
    let mut b = a.clone();
    b.remote_addr = Some(SocketAddress { ip: String::from("10.0.0.1"), port: 5001 });
    assert!(!a.is_same(&b));
    let mut c = a.clone();
    c.username = None;
    assert!(!a.is_same(&c));
    let d = Id::from(3, String::from("x"));
    assert_eq!(d.username, None);
    assert_eq!(d.local_addr, None);
    assert!(!a.is_same(&d));
    assert_eq!(Origin::from_custom(d.clone()).typ, FromType::Custom);
    assert_eq!(Origin::from_admin(d.clone()).typ, FromType::Admin);
    assert_eq!(Origin::from_system(d.clone()).typ, FromType::System);
    assert_eq!(Origin::from_lastwill(d.clone()).typ, FromType::LastWill);
    assert_eq!(Origin::from_bridge(d.clone()).id, d);
}

#[test]
fn text_keyed_map() {
    let k = |s: &str| String::from(s);
    let mut m: StrMap<u32> = StrMap::new();
    assert!(m.is_empty());
    assert_eq!(m.insert(k("a"), 1), None);
    assert_eq!(m.insert(k("b"), 2), None);
    assert_eq!(m.insert(k("a"), 3), Some(1));
    assert_eq!(m.len(), 2);
    assert_eq!(m.get(&k("a")), Some(&3));
    assert_eq!(m.get(&k("c")), None);
    assert!(m.contains_key(&k("b")));
    assert_eq!(m.at(0), (&k("a"), &3));
    assert_eq!(m.at(1), (&k("b"), &2));
    assert_eq!(m.remove(&k("a")), Some(3));
    assert_eq!(m.remove(&k("a")), None);
    assert_eq!(m.at(0), (&k("b"), &2));
    assert_eq!(m.len(), 1);
}
