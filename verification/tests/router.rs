use rmqtt::broker::router::{RouteEntry, Router};
use rmqtt::cluster::shared::ClusterShared;
use rmqtt::grpc::{GrpcClients, NodeGrpcClient};
use rmqtt::topic::Topic;
use rmqtt::types::{QoS, SubRelation};

fn route(filter: &str, node: u64, client: &str, qos: QoS) -> RouteEntry {
    RouteEntry {
        filter: Topic::from_str(filter).unwrap(),
        topic_filter: String::from(filter),
        node_id: node,
        client_id: String::from(client),
        qos,
        group: None,
    }
}

fn relation(filter: &str, client: &str, qos: QoS) -> SubRelation {
    SubRelation { topic_filter: String::from(filter), client_id: String::from(client), qos, group: None }
}

fn topic(text: &str) -> Topic {
    Topic::from_str(text).unwrap()
}

fn router() -> Router {
    let mut r = Router::new();
    r.add(route("a/#", 1, "c1", QoS::AtLeastOnce));
    r.add(route("a/+", 2, "c2", QoS::AtMostOnce));
    r.add(route("b", 1, "c1", QoS::ExactlyOnce));
    r.add(route("+/b", 3, "c3", QoS::AtLeastOnce));
    r.add(route("#", 1, "c4", QoS::AtMostOnce));
    r
}

#[test]
fn a_publish_goes_to_matching_subscribers_by_node() {
    let r = router();
    assert_eq!(
        r.matches(&topic("a/b")),
        vec![
            (1, vec![relation("a/#", "c1", QoS::AtLeastOnce), relation("#", "c4", QoS::AtMostOnce)]),
            (2, vec![relation("a/+", "c2", QoS::AtMostOnce)]),
            (3, vec![relation("+/b", "c3", QoS::AtLeastOnce)]),
        ]
    );
    assert_eq!(
        r.matches(&topic("b")),
        vec![(1, vec![relation("b", "c1", QoS::ExactlyOnce), relation("#", "c4", QoS::AtMostOnce)])]
    );
    assert_eq!(r.matches(&topic("$SYS/b")), Vec::new());
    assert_eq!(Router::new().matches(&topic("a")), Vec::new());
}

#[test]
fn a_route_is_replaced_and_removed_by_client_and_filter() {
    let mut r = router();
    assert_eq!(r.len(), 5);
    r.add(route("a/#", 1, "c1", QoS::ExactlyOnce));
    assert_eq!(r.len(), 5);
    assert_eq!(
        r.matches(&topic("a"))[0].1[0],
        relation("a/#", "c1", QoS::ExactlyOnce)
    );
    r.add(route("a/#", 1, "c9", QoS::AtMostOnce));
    assert_eq!(r.len(), 6);
    assert!(r.remove(&String::from("c1"), &String::from("a/#")));
    assert!(!r.remove(&String::from("c1"), &String::from("a/#")));
    assert!(!r.remove(&String::from("c2"), &String::from("a/#")));
    assert_eq!(r.len(), 5);
    assert_eq!(
        r.matches(&topic("a")),
        vec![(1, vec![relation("#", "c4", QoS::AtMostOnce), relation("a/#", "c9", QoS::AtMostOnce)])]
    );
}

#[test]
fn routing_splits_local_and_remote_subscribers() {
    let mut clients = GrpcClients::new();
    clients.insert(NodeGrpcClient { node_id: 2, addr: String::from("n2:5363") });
    let shared = ClusterShared::new(1, clients, 198, 10_000);
    let plan = shared.route(&router(), &topic("a/b"));
    assert_eq!(
        plan.local,
        Some(vec![relation("a/#", "c1", QoS::AtLeastOnce), relation("#", "c4", QoS::AtMostOnce)])
    );
    assert_eq!(plan.remote.len(), 1);
    assert_eq!(plan.remote[0].client.node_id, 2);
    assert_eq!(plan.remote[0].relations, vec![relation("a/+", "c2", QoS::AtMostOnce)]);
    assert_eq!(plan.unreachable, vec![(3, vec![relation("+/b", "c3", QoS::AtLeastOnce)])]);
}
