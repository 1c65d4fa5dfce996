//! The router of one node: who has subscribed with which filter, and for
//! a publish, which of them it goes to, node by node.

use vstd::prelude::*;
use crate::topic::{filter_matches, Topic};
use crate::types::{
    ClientId, IsOnline, NodeId, QoS, SharedGroup, SubRelation, SubRelations, SubRelationsMap,
    TopicFilter,
};

verus! {

/// One subscription as the router keeps it: the filter in levels and as
/// the client wrote it, and who subscribed, on which node.
#[derive(Debug, PartialEq, Eq)]
pub struct RouteEntry {
    pub filter: Topic,
    pub topic_filter: TopicFilter,
    pub node_id: NodeId,
    pub client_id: ClientId,
    pub qos: QoS,
    pub group: Option<(SharedGroup, IsOnline)>,
}

/// The router.
#[derive(Debug, PartialEq, Eq)]
pub struct Router {
    routes: Vec<RouteEntry>,
}

/// The subscriber that a route stands for.
pub open spec fn relation_of(e: RouteEntry) -> SubRelation {
    SubRelation { topic_filter: e.topic_filter, client_id: e.client_id, qos: e.qos, group: e.group }
}

/// Whether a route is the subscription of a client with a filter.
pub open spec fn is_route(e: RouteEntry, client_id: Seq<char>, topic_filter: Seq<char>) -> bool {
    e.client_id@ == client_id && e.topic_filter@ == topic_filter
}

/// The subscribers on `node` among the routes that match a topic, in the
/// order of the routes.
pub open spec fn matched_on(routes: Seq<RouteEntry>, topic: Topic, node: NodeId) -> Seq<SubRelation>
    decreases routes.len(),
{
    if routes.len() == 0 {
        Seq::empty()
    } else {
        let rest = matched_on(routes.drop_last(), topic, node);
        let e = routes.last();
        if e.node_id == node && filter_matches(e.filter@, topic@, true) {
            rest.push(relation_of(e))
        } else {
            rest
        }
    }
}

/// No node id occurs twice.
pub open spec fn distinct_nodes(map: Seq<(NodeId, SubRelations)>) -> bool {
    forall|i: int, j: int| 0 <= i < j < map.len() ==> (#[trigger] map[i]).0 != (#[trigger] map[j]).0
}

/// Position of a node in a map, or -1.
pub open spec fn node_index(map: Seq<(NodeId, SubRelations)>, node: NodeId) -> int {
    if exists|i: int| 0 <= i < map.len() && (#[trigger] map[i]).0 == node {
        choose|i: int| 0 <= i < map.len() && (#[trigger] map[i]).0 == node
    } else {
        -1
    }
}

/// What a map of matched subscribers owes to the routes it was made of:
/// each node occurs once at most; a node that occurs has the subscribers
/// matched on it, one at least and in the order of the routes; and a node
/// that does not occur has none.
pub open spec fn grouped(
    map: Seq<(NodeId, SubRelations)>,
    routes: Seq<RouteEntry>,
    topic: Topic,
) -> bool {
    &&& distinct_nodes(map)
    &&& forall|i: int|
        0 <= i < map.len() ==> (#[trigger] map[i]).1@ == matched_on(routes, topic, map[i].0)
            && map[i].1@.len() > 0
    &&& forall|node: NodeId|
        node_index(map, node) < 0 ==> #[trigger] matched_on(routes, topic, node).len() == 0
}

impl View for Router {
    type V = Seq<RouteEntry>;

    closed spec fn view(&self) -> Seq<RouteEntry> {
        self.routes@
    }
}

impl Router {
    /// No client has two routes with one filter.
    pub open spec fn wf(&self) -> bool {
        forall|i: int, j: int|
            0 <= i < j < self@.len() ==> !is_route(
                #[trigger] self@[i],
                (#[trigger] self@[j]).client_id@,
                self@[j].topic_filter@,
            )
    }

    pub fn new() -> (r: Router)
        ensures
            r.wf(),
            r@.len() == 0,
    {
        Router { routes: Vec::new() }
    }

    /// Number of routes.
    pub fn len(&self) -> (r: usize)
        ensures
            r == self@.len(),
    {
        self.routes.len()
    }

    fn find(&self, client_id: &ClientId, topic_filter: &TopicFilter) -> (r: Option<usize>)
        ensures
            match r {
                Some(i) => i < self@.len() && is_route(self@[i as int], client_id@, topic_filter@),
                None => forall|j: int|
                    0 <= j < self@.len() ==> !is_route(
                        #[trigger] self@[j],
                        client_id@,
                        topic_filter@,
                    ),
            },
    {
        let mut i: usize = 0;
        while i < self.routes.len()
            invariant
                i <= self.routes@.len(),
                forall|j: int|
                    0 <= j < i ==> !is_route(#[trigger] self.routes@[j], client_id@, topic_filter@),
            decreases self.routes@.len() - i,
        {
            if self.routes[i].client_id == *client_id && self.routes[i].topic_filter
                == *topic_filter {
                return Some(i);
            }
            i = i + 1;
        }
        None
    }

    /// Adds a route, in place of the route of the same client with the
    /// same filter if there is one.
    pub fn add(&mut self, entry: RouteEntry)
        requires
            old(self).wf(),
        ensures
            final(self).wf(),
            exists|i: int| 0 <= i < final(self)@.len() && #[trigger] final(self)@[i] == entry,
            final(self)@.len() == old(self)@.len() || final(self)@.len() == old(self)@.len() + 1,
            forall|i: int|
                0 <= i < old(self)@.len() ==> is_route(
                    #[trigger] old(self)@[i],
                    entry.client_id@,
                    entry.topic_filter@,
                ) || final(self)@[i] == old(self)@[i],
            forall|i: int|
                0 <= i < final(self)@.len() ==> #[trigger] final(self)@[i] == entry || (i < old(self)@.len() && final(self)@[i] == old(self)@[i]),
    {
        let ghost before = self.routes@;
        match self.find(&entry.client_id, &entry.topic_filter) {
            Some(i) => {
                self.routes.set(i, entry);
                proof {
                    let after = self.routes@;
                    assert(after[i as int] == entry);
                    assert forall|a: int, b: int| 0 <= a < b < after.len() implies !is_route(
                        #[trigger] after[a],
                        (#[trigger] after[b]).client_id@,
                        after[b].topic_filter@,
                    ) by {
                        assert(!is_route(before[a], before[b].client_id@, before[b].topic_filter@));
                    }
                }
            },
            None => {
                self.routes.push(entry);
                proof {
                    let after = self.routes@;
                    let n = before.len() as int;
                    assert(after[n] == entry);
                    assert forall|a: int, b: int| 0 <= a < b < after.len() implies !is_route(
                        #[trigger] after[a],
                        (#[trigger] after[b]).client_id@,
                        after[b].topic_filter@,
                    ) by {
                        if b < n {
                            assert(!is_route(
                                before[a],
                                before[b].client_id@,
                                before[b].topic_filter@,
                            ));
                        } else {
                            assert(!is_route(before[a], entry.client_id@, entry.topic_filter@));
                        }
                    }
                }
            },
        }
    }

    /// Takes out the route of a client with a filter. Returns whether there
    /// was one. The other routes keep their order.
    pub fn remove(&mut self, client_id: &ClientId, topic_filter: &TopicFilter) -> (r: bool)
        requires
            old(self).wf(),
        ensures
            final(self).wf(),
            r == exists|i: int|
                0 <= i < old(self)@.len() && is_route(
                    #[trigger] old(self)@[i],
                    client_id@,
                    topic_filter@,
                ),
            forall|i: int|
                0 <= i < final(self)@.len() ==> !is_route(
                    #[trigger] final(self)@[i],
                    client_id@,
                    topic_filter@,
                ),
            final(self)@.len() == if r {
                old(self)@.len() - 1
            } else {
                old(self)@.len() as int
            },
            !r ==> final(self)@ == old(self)@,
            r ==> exists|i: int|
                0 <= i < old(self)@.len() && is_route(
                    #[trigger] old(self)@[i],
                    client_id@,
                    topic_filter@,
                ) && final(self)@ == old(self)@.remove(i),
    {
        let ghost before = self.routes@;
        match self.find(client_id, topic_filter) {
            Some(i) => {
                self.routes.remove(i);
                proof {
                    let after = self.routes@;
                    assert(is_route(before[i as int], client_id@, topic_filter@));
                    assert(after == before.remove(i as int));
                    assert forall|a: int| 0 <= a < after.len() implies #[trigger] after[a]
                        == before[if a < i {
                        a
                    } else {
                        a + 1
                    }] by {}
                    assert forall|a: int, b: int| 0 <= a < b < after.len() implies !is_route(
                        #[trigger] after[a],
                        (#[trigger] after[b]).client_id@,
                        after[b].topic_filter@,
                    ) by {
                        let a0 = if a < i { a } else { a + 1 };
                        let b0 = if b < i { b } else { b + 1 };
                        assert(!is_route(
                            before[a0],
                            before[b0].client_id@,
                            before[b0].topic_filter@,
                        ));
                    }
                    assert forall|a: int| 0 <= a < after.len() implies !is_route(
                        #[trigger] after[a],
                        client_id@,
                        topic_filter@,
                    ) by {
                        let a0 = if a < i { a } else { a + 1 };
                        if a0 < i {
                            assert(!is_route(
                                before[a0],
                                before[i as int].client_id@,
                                before[i as int].topic_filter@,
                            ));
                        } else {
                            assert(!is_route(
                                before[i as int],
                                before[a0].client_id@,
                                before[a0].topic_filter@,
                            ));
                        }
                    }
                }
                true
            },
            None => false,
        }
    }

    /// The subscribers that a publish on `topic` goes to, grouped by the
    /// node they are on.
    pub fn matches(&self, topic: &Topic) -> (r: SubRelationsMap)
        ensures
            grouped(r@, self@, *topic),
    {
        let mut map: SubRelationsMap = Vec::new();
        let mut i: usize = 0;
        proof {
            assert(self.routes@.take(0) =~= Seq::<RouteEntry>::empty());
            assert forall|node: NodeId| #[trigger]
                matched_on(self.routes@.take(0), *topic, node).len() == 0 by {}
        }
        while i < self.routes.len()
            invariant
                i <= self.routes@.len(),
                grouped(map@, self.routes@.take(i as int), *topic),
            decreases self.routes@.len() - i,
        {
            let e = &self.routes[i];
            let ghost done = self.routes@.take(i as int);
            let ghost next = self.routes@.take(i + 1);
            let ghost old_map = map@;
            proof {
                assert(next.drop_last() =~= done);
                assert(next.last() == *e);
            }
            if e.filter.matches(topic) {
                let relation = SubRelation {
                    topic_filter: e.topic_filter.clone(),
                    client_id: e.client_id.clone(),
                    qos: e.qos,
                    group: clone_group(&e.group),
                };
                let at = find_node(&map, e.node_id);
                match at {
                    Some(k) => {
                        let (node, mut relations) = map.remove(k);
                        relations.push(relation);
                        map.insert(k, (node, relations));
                        proof {
                            let new_map = map@;
                            assert(new_map.len() == old_map.len());
                            assert forall|a: int| 0 <= a < new_map.len() implies (
                            #[trigger] new_map[a]).0 == old_map[a].0 by {}
                            assert forall|a: int| 0 <= a < new_map.len() implies (
                            #[trigger] new_map[a]).1@ == matched_on(next, *topic, new_map[a].0)
                                && new_map[a].1@.len() > 0 by {
                                if a != k {
                                    assert(new_map[a] == old_map[a]);
                                    assert(old_map[a].0 != old_map[k as int].0);
                                }
                            }
                            assert forall|node: NodeId| node_index(new_map, node)
                                < 0 implies #[trigger] matched_on(next, *topic, node).len() == 0 by {
                                assert(node != e.node_id) by {
                                    assert(new_map[k as int].0 == e.node_id);
                                }
                                if node_index(old_map, node) >= 0 {
                                    let b = choose|b: int|
                                        0 <= b < old_map.len() && (#[trigger] old_map[b]).0 == node;
                                    assert(new_map[b].0 == node);
                                    assert(false);
                                }
                                assert(matched_on(done, *topic, node).len() == 0);
                            }
                            assert(distinct_nodes(new_map)) by {
                                assert forall|a: int, b: int|
                                    0 <= a < b < new_map.len() implies (#[trigger] new_map[a]).0 != (
                                #[trigger] new_map[b]).0 by {
                                    assert(old_map[a].0 != old_map[b].0);
                                }
                            }
                        }
                    },
                    None => {
                        let mut relations: SubRelations = Vec::new();
                        relations.push(relation);
                        map.push((e.node_id, relations));
                        proof {
                            let new_map = map@;
                            let n = old_map.len() as int;
                            assert(node_index(old_map, e.node_id) < 0);
                            assert(matched_on(done, *topic, e.node_id).len() == 0);
                            assert(new_map[n].1@ =~= matched_on(next, *topic, e.node_id));
                            assert forall|a: int| 0 <= a < new_map.len() implies (
                            #[trigger] new_map[a]).1@ == matched_on(next, *topic, new_map[a].0)
                                && new_map[a].1@.len() > 0 by {
                                if a < n {
                                    assert(new_map[a] == old_map[a]);
                                    assert(old_map[a].0 != e.node_id);
                                }
                            }
                            assert forall|node: NodeId| node_index(new_map, node)
                                < 0 implies #[trigger] matched_on(next, *topic, node).len() == 0 by {
                                assert(node != e.node_id) by {
                                    assert(new_map[n].0 == e.node_id);
                                }
                                if node_index(old_map, node) >= 0 {
                                    let b = choose|b: int|
                                        0 <= b < old_map.len() && (#[trigger] old_map[b]).0 == node;
                                    assert(new_map[b].0 == node);
                                    assert(false);
                                }
                                assert(matched_on(done, *topic, node).len() == 0);
                            }
                            assert(distinct_nodes(new_map)) by {
                                assert forall|a: int, b: int|
                                    0 <= a < b < new_map.len() implies (#[trigger] new_map[a]).0 != (
                                #[trigger] new_map[b]).0 by {
                                    if b < n {
                                        assert(old_map[a].0 != old_map[b].0);
                                    } else {
                                        assert(old_map[a].0 != e.node_id);
                                    }
                                }
                            }
                        }
                    },
                }
            } else {
                proof {
                    assert forall|node: NodeId| #[trigger]
                        matched_on(next, *topic, node) == matched_on(done, *topic, node) by {}
                }
            }
            i = i + 1;
        }
        proof {
            assert(self.routes@.take(self.routes@.len() as int) =~= self.routes@);
        }
        map
    }
}

fn clone_group(group: &Option<(SharedGroup, IsOnline)>) -> (r: Option<(SharedGroup, IsOnline)>)
    ensures
        r == *group,
{
    match group {
        Some((g, online)) => Some((g.clone(), *online)),
        None => None,
    }
}

/// Position of a node in a map of matched subscribers.
fn find_node(map: &SubRelationsMap, node: NodeId) -> (r: Option<usize>)
    ensures
        match r {
            Some(i) => i < map@.len() && map@[i as int].0 == node,
            None => node_index(map@, node) < 0,
        },
{
    let mut i: usize = 0;
    while i < map.len()
        invariant
            i <= map@.len(),
            forall|j: int| 0 <= j < i ==> (#[trigger] map@[j]).0 != node,
        decreases map@.len() - i,
    {
        if map[i].0 == node {
            return Some(i);
        }
        i = i + 1;
    }
    None
}

} // verus!
