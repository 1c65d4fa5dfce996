use rmqtt::retain::{Node, RetainTree};
use rmqtt::topic::{Level, Topic, TopicError};

fn match_one(tree: &RetainTree<i32>, topic_filter: &str, vs: &[i32]) -> bool {
    let mut matcheds = 0;
    let t = Topic::from_str(topic_filter).unwrap();
    for (topic, v) in tree.matches(&t).iter() {
        println!("[retain] {}({}) => {:?}, {:?}", topic_filter, topic.to_string(), v, vs);
        if !vs.contains(v) {
            return false;
        }
        matcheds += 1;
    }
    matcheds == vs.len()
}

fn topic(text: &str) -> Topic {
    Topic::from_str(text).unwrap()
}

fn found(tree: &RetainTree<i32>, filter: &str) -> Vec<(Topic, i32)> {
    tree.matches(&topic(filter))
}

fn values(tree: &RetainTree<i32>, filter: &str) -> Vec<i32> {
    let mut vs: Vec<i32> = found(tree, filter).into_iter().map(|(_, v)| v).collect();
    vs.sort();
    vs
}

#[test]
fn retain() {
    let mut tree: RetainTree<i32> = RetainTree::default();
    tree.insert(&Topic::from_str("/iot/b/x").unwrap(), 1);
    tree.insert(&Topic::from_str("/iot/b/y").unwrap(), 2);
    tree.insert(&Topic::from_str("/iot/b/z").unwrap(), 3);
    tree.insert(&Topic::from_str("/x/y/z").unwrap(), 4);

    assert!(match_one(&tree, "/iot/b/y", &[2]));
    assert!(match_one(&tree, "/iot/b/+", &[1, 2, 3]));
    assert!(match_one(&tree, "/x/y/z", &[4]));
    assert!(!match_one(&tree, "/x/y/z", &[1]));
}

#[test]
fn matches_gives_each_topic_with_its_value() {
    let mut tree: RetainTree<i32> = RetainTree::new();
    tree.insert(&topic("/iot/b/x"), 1);
    tree.insert(&topic("/iot/b/y"), 2);
    tree.insert(&topic("/iot/b/z"), 3);
    tree.insert(&topic("/x/y/z"), 4);

    let out = found(&tree, "/iot/b/y");
    assert_eq!(out.len(), 1);
    assert_eq!(out[0].0, topic("/iot/b/y"));
    assert_eq!(out[0].1, 2);

    assert_eq!(values(&tree, "/iot/b/+"), vec![1, 2, 3]);
    assert_eq!(values(&tree, "/x/y/z"), vec![4]);
    assert!(!values(&tree, "/x/y/z").contains(&1));
    assert_eq!(values(&tree, "/iot/+/x"), vec![1]);
    assert_eq!(values(&tree, "/+/+/z"), vec![3, 4]);
    assert_eq!(values(&tree, "/iot/b"), Vec::<i32>::new());
    assert_eq!(values(&tree, "/iot/b/x/more"), Vec::<i32>::new());
    assert_eq!(values(&tree, "iot/b/x"), Vec::<i32>::new());
}

#[test]
fn insert_then_remove_leaves_no_branch() {
    let mut tree: RetainTree<i32> = RetainTree::new();
    let fresh: RetainTree<i32> = RetainTree::new();
    let t = topic("/iot/b/x");
    tree.insert(&t, 7);
    assert_eq!(tree.children().len(), 1);
    assert_eq!(tree.remove(&t), Some(7));
    assert_eq!(tree.children().len(), fresh.children().len());
    assert_eq!(tree.children().len(), 0);
    assert!(tree.value().is_none());

    tree.insert(&topic("/iot/c"), 8);
    assert_eq!(tree.children().len(), 1);
    let blank = tree.child(&Level::Blank).unwrap();
    assert_eq!(blank.children().len(), 1);
    let iot = blank.child(&Level::Normal(String::from("iot"))).unwrap();
    assert_eq!(iot.children().len(), 1);
    assert!(iot.child(&Level::Normal(String::from("b"))).is_none());
    assert_eq!(values(&tree, "#"), vec![8]);
}

#[test]
fn remove_prunes_only_what_leads_to_nothing() {
    let mut tree: Node<i32> = Node::default();
    tree.insert(&topic("a/b"), 1);
    tree.insert(&topic("a/b/c"), 2);
    tree.insert(&topic("a/d"), 3);

    assert_eq!(tree.remove(&topic("a/b/c")), Some(2));
    assert_eq!(tree.remove(&topic("a/b/c")), None);
    assert_eq!(tree.remove(&topic("a/x/y")), None);
    assert_eq!(values(&tree, "a/#"), vec![1, 3]);
    let a = tree.child(&Level::Normal(String::from("a"))).unwrap();
    assert_eq!(a.children().len(), 2);
    let b = a.child(&Level::Normal(String::from("b"))).unwrap();
    assert_eq!(b.children().len(), 0);
    assert_eq!(b.value(), Some(&1));

    assert_eq!(tree.remove(&topic("a/b")), Some(1));
    let a = tree.child(&Level::Normal(String::from("a"))).unwrap();
    assert_eq!(a.children().len(), 1);
    assert_eq!(tree.remove(&topic("a/d")), Some(3));
    assert_eq!(tree.children().len(), 0);
}

#[test]
fn insert_replaces_the_value_of_a_topic() {
    let mut tree: Node<i32> = Node::new();
    tree.insert(&topic("a/b"), 1);
    tree.insert(&topic("a/b"), 2);
    assert_eq!(values(&tree, "a/b"), vec![2]);
    assert_eq!(tree.remove(&topic("a/b")), Some(2));
    assert_eq!(tree.children().len(), 0);
}

#[test]
fn multi_wildcard_matches_the_parent_and_all_below() {
    let mut tree: Node<i32> = Node::new();
    tree.insert(&topic("a"), 1);
    tree.insert(&topic("a/b"), 2);
    tree.insert(&topic("a/b/c"), 3);
    tree.insert(&topic("b"), 4);

    assert_eq!(values(&tree, "a/#"), vec![1, 2, 3]);
    assert_eq!(values(&tree, "a/b/#"), vec![2, 3]);
    assert_eq!(values(&tree, "#"), vec![1, 2, 3, 4]);
    assert_eq!(values(&tree, "+/#"), vec![1, 2, 3, 4]);
    assert_eq!(values(&tree, "+"), vec![1, 4]);
    assert_eq!(values(&tree, "a/+"), vec![2]);
    assert_eq!(values(&tree, "a/+/#"), vec![2, 3]);

    let topics: Vec<Topic> = found(&tree, "a/#").into_iter().map(|(t, _)| t).collect();
    assert!(topics.contains(&topic("a")));
    assert!(topics.contains(&topic("a/b/c")));
    assert!(!topics.contains(&topic("b")));
}

#[test]
fn wildcards_at_the_first_level_skip_metadata() {
    let mut tree: Node<i32> = Node::new();
    tree.insert(&topic("$sys/b"), 1);
    tree.insert(&topic("x/b"), 2);
    tree.insert(&topic("$sys"), 3);

    assert_eq!(values(&tree, "+/b"), vec![2]);
    assert_eq!(values(&tree, "#"), vec![2]);
    assert_eq!(values(&tree, "+/#"), vec![2]);
    assert_eq!(values(&tree, "+"), Vec::<i32>::new());
    assert_eq!(values(&tree, "$sys/b"), vec![1]);
    assert_eq!(values(&tree, "$sys/+"), vec![1]);
    assert_eq!(values(&tree, "$sys/#"), vec![1, 3]);
}

#[test]
fn a_blank_level_is_a_level() {
    let mut tree: Node<i32> = Node::new();
    tree.insert(&topic("/"), 1);
    tree.insert(&topic("a/"), 2);
    tree.insert(&topic("a"), 3);
    assert_eq!(values(&tree, "/"), vec![1]);
    assert_eq!(values(&tree, "a/"), vec![2]);
    assert_eq!(values(&tree, "a/+"), vec![2]);
    assert_eq!(values(&tree, "+/+"), vec![1, 2]);
    assert_eq!(values(&tree, "+"), vec![3]);
}

#[test]
fn topics_parse_into_levels() {
    let t = topic("/iot/+/#");
    assert_eq!(t.len(), 4);
    assert_eq!(
        t.levels(),
        &vec![
            Level::Blank,
            Level::Normal(String::from("iot")),
            Level::SingleWildcard,
            Level::MultiWildcard
        ]
    );
    assert_eq!(
        topic("$SYS/brokers").levels(),
        &vec![Level::Metadata(String::from("$SYS")), Level::Normal(String::from("brokers"))]
    );
    assert!(t.same(&topic("/iot/+/#")));
    assert!(!t.same(&topic("/iot/+")));
    assert!(topic("a/b").clone().same(&topic("a/b")));
    assert_eq!(Topic::from_str("").err(), Some(TopicError::InvalidTopic));
    assert_eq!(Topic::from_str("a/#/b").err(), Some(TopicError::InvalidTopic));
    assert_eq!(Topic::from_str("a/b+").err(), Some(TopicError::InvalidLevel));
    assert_eq!(Topic::from_str("a#").err(), Some(TopicError::InvalidLevel));
}

#[test]
fn topics_are_written_as_they_were_read() {
    for text in ["/iot/+/#", "a", "/", "a//b", "$SYS/brokers/1/stats", "+", "#", "a/", "/a"] {
        assert_eq!(topic(text).to_string(), text);
    }
    assert_eq!(Topic::from(Vec::new()).to_string(), "");
    assert_eq!(Level::Blank.as_str(), "");
    assert_eq!(Level::SingleWildcard.as_str(), "+");
    assert_eq!(Level::MultiWildcard.as_str(), "#");
    assert_eq!(Level::Metadata(String::from("$SYS")).as_str(), "$SYS");
    let out = found(&{
        let mut tree: Node<i32> = Node::new();
        tree.insert(&topic("/iot/b/x"), 1);
        tree
    }, "/iot/#");
    assert_eq!(out[0].0.to_string(), "/iot/b/x");
}

#[test]
fn levels_tell_their_kind() {
    assert!(Level::Normal(String::from("a")).is_normal());
    assert!(Level::Metadata(String::from("$a")).is_metadata());
    assert!(!Level::Blank.is_metadata());
    assert!(Level::MultiWildcard.is_multi_wildcard());
    assert!(Level::SingleWildcard.is_single_wildcard());
    assert!(!Level::Normal(String::from("a")).same(&Level::Metadata(String::from("a"))));
    assert!(Level::Normal(String::from("a")).same(&Level::Normal(String::from("a"))));
    assert!(!Level::Normal(String::from("a")).same(&Level::Normal(String::from("b"))));
}
