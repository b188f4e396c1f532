//! One observation of the whole graph, the events that lead from one
//! observation to another, and the rule by which an event changes a mirror of
//! the graph.

use vstd::prelude::*;
use crate::entity::Entity;
use crate::laws::{
    is_added, is_removed, law_all_added_from_empty, law_all_removed_to_empty,
    law_same_graph_no_events,
};
use crate::mapping::{as_map, distinct_keys, has_key, Mapping};
use crate::select::{
    entry_missing_in, key_missing_in, lemma_select_contains, lemma_select_distinct,
    lemma_select_entries, lemma_select_len, lemma_select_none, lemma_select_step, select,
};
use crate::types::{
    DiscoveryEvent, EventModel, NodeModel, NodeProperties, ServiceModel, ServiceProperties,
    TopicModel, TopicProperties,
};

verus! {

/// The graph at one instant: its nodes by name and namespace, its topics by
/// name and its services by name.
#[derive(Debug, Clone)]
pub struct RosState {
    pub nodes: Mapping<(String, String), NodeProperties>,
    pub topics: Mapping<String, TopicProperties>,
    pub services: Mapping<String, ServiceProperties>,
}

/// The model of a [`RosState`]: three maps.
pub struct StateModel {
    pub nodes: Map<(Seq<char>, Seq<char>), NodeModel>,
    pub topics: Map<Seq<char>, TopicModel>,
    pub services: Map<Seq<char>, ServiceModel>,
}

impl StateModel {
    /// The graph in which nothing is known.
    pub open spec fn empty() -> StateModel {
        StateModel { nodes: Map::empty(), topics: Map::empty(), services: Map::empty() }
    }
}

/// The entries of a [`RosState`] in the order in which it holds them.
pub struct Listing {
    pub nodes: Seq<((Seq<char>, Seq<char>), NodeModel)>,
    pub topics: Seq<(Seq<char>, TopicModel)>,
    pub services: Seq<(Seq<char>, ServiceModel)>,
}

impl Listing {
    /// Whether no key is listed twice within a kind.
    pub open spec fn distinct(self) -> bool {
        distinct_keys(self.nodes) && distinct_keys(self.topics) && distinct_keys(self.services)
    }

    /// The number of entries of all three kinds.
    pub open spec fn count(self) -> nat {
        self.nodes.len() + self.topics.len() + self.services.len()
    }

    /// The graph that the listing lists.
    pub open spec fn model(self) -> StateModel {
        StateModel {
            nodes: as_map(self.nodes),
            topics: as_map(self.topics),
            services: as_map(self.services),
        }
    }
}

impl DeepView for RosState {
    type V = StateModel;

    open spec fn deep_view(&self) -> StateModel {
        self.listing().model()
    }
}

/// The graph after `event`: an `Added` event sets the entry of its key, a
/// `Removed` event takes the entry of its key away, and a `Ping` changes
/// nothing.
pub open spec fn apply(state: StateModel, event: EventModel) -> StateModel {
    match event {
        EventModel::Ping => state,
        EventModel::NodeAdded { name, namespace, properties } => StateModel {
            nodes: state.nodes.insert((name, namespace), properties),
            ..state
        },
        EventModel::NodeRemoved { name, namespace } => StateModel {
            nodes: state.nodes.remove((name, namespace)),
            ..state
        },
        EventModel::TopicAdded { name, properties } => StateModel {
            topics: state.topics.insert(name, properties),
            ..state
        },
        EventModel::TopicRemoved { name } => StateModel {
            topics: state.topics.remove(name),
            ..state
        },
        EventModel::ServiceAdded { name, properties } => StateModel {
            services: state.services.insert(name, properties),
            ..state
        },
        EventModel::ServiceRemoved { name } => StateModel {
            services: state.services.remove(name),
            ..state
        },
    }
}

/// The graph after each of `events` in turn.
pub open spec fn apply_all(state: StateModel, events: Seq<EventModel>) -> StateModel
    decreases events.len(),
{
    if events.len() == 0 {
        state
    } else {
        apply(apply_all(state, events.drop_last()), events.last())
    }
}

/// Whether `event` reports a difference between `previous` and `current`: a
/// key that `previous` alone has is reported as removed, and an entry that
/// `current` has and `previous` has not, under that key or with that value, is
/// reported as added with the value in `current`.
pub open spec fn reports_change(
    current: StateModel,
    previous: StateModel,
    event: EventModel,
) -> bool {
    match event {
        EventModel::Ping => false,
        EventModel::NodeAdded { name, namespace, properties } => {
            &&& current.nodes.contains_key((name, namespace))
            &&& current.nodes[(name, namespace)] == properties
            &&& !(previous.nodes.contains_key((name, namespace)) && previous.nodes[(
                name,
                namespace,
            )] == properties)
        },
        EventModel::NodeRemoved { name, namespace } => {
            &&& previous.nodes.contains_key((name, namespace))
            &&& !current.nodes.contains_key((name, namespace))
        },
        EventModel::TopicAdded { name, properties } => {
            &&& current.topics.contains_key(name)
            &&& current.topics[name] == properties
            &&& !(previous.topics.contains_key(name) && previous.topics[name] == properties)
        },
        EventModel::TopicRemoved { name } => {
            &&& previous.topics.contains_key(name)
            &&& !current.topics.contains_key(name)
        },
        EventModel::ServiceAdded { name, properties } => {
            &&& current.services.contains_key(name)
            &&& current.services[name] == properties
            &&& !(previous.services.contains_key(name) && previous.services[name] == properties)
        },
        EventModel::ServiceRemoved { name } => {
            &&& previous.services.contains_key(name)
            &&& !current.services.contains_key(name)
        },
    }
}

/// The place of an event in a list of changes: nodes come before topics and
/// topics before services, and within a kind what was removed comes before
/// what was added.
pub open spec fn phase(event: EventModel) -> int {
    match event {
        EventModel::NodeRemoved { .. } => 0,
        EventModel::NodeAdded { .. } => 1,
        EventModel::TopicRemoved { .. } => 2,
        EventModel::TopicAdded { .. } => 3,
        EventModel::ServiceRemoved { .. } => 4,
        EventModel::ServiceAdded { .. } => 5,
        EventModel::Ping => 6,
    }
}

/// Whether `events` is a list of the changes from `previous` to `current`: it
/// holds each event that reports a difference between them, once, and no
/// other, ordered by [`phase`].
pub open spec fn is_change_list(
    events: Seq<EventModel>,
    current: StateModel,
    previous: StateModel,
) -> bool {
    &&& forall|e: EventModel| #[trigger] events.contains(e) <==> reports_change(current, previous, e)
    &&& events.no_duplicates()
    &&& forall|i: int, j: int|
        0 <= i < j < events.len() ==> phase(#[trigger] events[i]) <= phase(#[trigger] events[j])
}

/// Turns a node entry into the report that its key is gone.
pub open spec fn node_removed() -> spec_fn(((Seq<char>, Seq<char>), NodeModel)) -> EventModel {
    |p: ((Seq<char>, Seq<char>), NodeModel)|
        EventModel::NodeRemoved { name: p.0.0, namespace: p.0.1 }
}

/// Turns a node entry into the report that it is there.
pub open spec fn node_added() -> spec_fn(((Seq<char>, Seq<char>), NodeModel)) -> EventModel {
    |p: ((Seq<char>, Seq<char>), NodeModel)|
        EventModel::NodeAdded { name: p.0.0, namespace: p.0.1, properties: p.1 }
}

/// Turns a topic entry into the report that its key is gone.
pub open spec fn topic_removed() -> spec_fn((Seq<char>, TopicModel)) -> EventModel {
    |p: (Seq<char>, TopicModel)| EventModel::TopicRemoved { name: p.0 }
}

/// Turns a topic entry into the report that it is there.
pub open spec fn topic_added() -> spec_fn((Seq<char>, TopicModel)) -> EventModel {
    |p: (Seq<char>, TopicModel)| EventModel::TopicAdded { name: p.0, properties: p.1 }
}

/// Turns a service entry into the report that its key is gone.
pub open spec fn service_removed() -> spec_fn((Seq<char>, ServiceModel)) -> EventModel {
    |p: (Seq<char>, ServiceModel)| EventModel::ServiceRemoved { name: p.0 }
}

/// Turns a service entry into the report that it is there.
pub open spec fn service_added() -> spec_fn((Seq<char>, ServiceModel)) -> EventModel {
    |p: (Seq<char>, ServiceModel)| EventModel::ServiceAdded { name: p.0, properties: p.1 }
}

/// The changes from `previous` to `current` in the order in which
/// [`RosState::changes`] finds them: for each kind, the keys of `previous`
/// that `current` lacks, as `previous` lists them, and then the entries of
/// `current` that `previous` lacks, as `current` lists them.
pub open spec fn change_sequence(current: Listing, previous: Listing) -> Seq<EventModel> {
    select(previous.nodes, key_missing_in(as_map(current.nodes)), node_removed()) + select(
        current.nodes,
        entry_missing_in(as_map(previous.nodes)),
        node_added(),
    ) + select(previous.topics, key_missing_in(as_map(current.topics)), topic_removed()) + select(
        current.topics,
        entry_missing_in(as_map(previous.topics)),
        topic_added(),
    ) + select(previous.services, key_missing_in(as_map(current.services)), service_removed())
        + select(current.services, entry_missing_in(as_map(previous.services)), service_added())
}

/// Whether every event of `events` has phase `t`.
spec fn all_in_phase(events: Seq<EventModel>, t: int) -> bool {
    forall|i: int| 0 <= i < events.len() ==> phase(#[trigger] events[i]) == t
}

/// Whether `events` has no duplicates, is ordered by phase and stays below
/// phase `t`.
spec fn tidy_below(events: Seq<EventModel>, t: int) -> bool {
    &&& events.no_duplicates()
    &&& forall|i: int| 0 <= i < events.len() ==> phase(#[trigger] events[i]) < t
    &&& forall|i: int, j: int|
        0 <= i < j < events.len() ==> phase(#[trigger] events[i]) <= phase(#[trigger] events[j])
}

/// A tidy list stays tidy when the events of the next phase follow it.
proof fn lemma_next_phase(done: Seq<EventModel>, next: Seq<EventModel>, t: int)
    requires
        tidy_below(done, t),
        next.no_duplicates(),
        all_in_phase(next, t),
    ensures
        tidy_below(done + next, t + 1),
        forall|e: EventModel| (done + next).contains(e) <==> done.contains(e) || next.contains(e),
{
    let all = done + next;
    assert forall|i: int| 0 <= i < all.len() implies phase(#[trigger] all[i]) < t + 1 by {
        if i < done.len() {
            assert(all[i] == done[i]);
        } else {
            assert(all[i] == next[i - done.len()]);
        }
    }
    assert forall|i: int, j: int| 0 <= i < j < all.len() implies phase(#[trigger] all[i]) <= phase(
        #[trigger] all[j],
    ) && all[i] != all[j] by {
        if j < done.len() {
            assert(all[i] == done[i] && all[j] == done[j]);
        } else if i < done.len() {
            assert(all[i] == done[i] && all[j] == next[j - done.len()]);
        } else {
            assert(all[i] == next[i - done.len()] && all[j] == next[j - done.len()]);
        }
    }
    assert forall|e: EventModel| all.contains(e) <==> done.contains(e) || next.contains(e) by {
        if all.contains(e) {
            let i = choose|i: int| 0 <= i < all.len() && all[i] == e;
            if i < done.len() {
                assert(done[i] == e);
            } else {
                assert(next[i - done.len()] == e);
            }
        }
        if done.contains(e) {
            let i = choose|i: int| 0 <= i < done.len() && done[i] == e;
            assert(all[i] == e);
        }
        if next.contains(e) {
            let i = choose|i: int| 0 <= i < next.len() && next[i] == e;
            assert(all[i + done.len()] == e);
        }
    }
}

/// What one phase of the walk selects: no event twice, each of the phase, and
/// an event is among them exactly when it is the image of an entry of the
/// walked mapping that `keep` accepts.
proof fn lemma_phase<K, V>(
    pairs: Seq<(K, V)>,
    keep: spec_fn((K, V)) -> bool,
    make: spec_fn((K, V)) -> EventModel,
    t: int,
)
    requires
        distinct_keys(pairs),
        forall|p: (K, V)| phase(#[trigger] make(p)) == t,
        forall|p: (K, V), q: (K, V)| #[trigger] make(p) == #[trigger] make(q) ==> p.0 == q.0,
    ensures
        select(pairs, keep, make).no_duplicates(),
        all_in_phase(select(pairs, keep, make), t),
        forall|e: EventModel| #[trigger]
            select(pairs, keep, make).contains(e) <==> exists|k: K|
                #![trigger as_map(pairs).contains_key(k)]
                as_map(pairs).contains_key(k) && keep((k, as_map(pairs)[k])) && make(
                    (k, as_map(pairs)[k]),
                ) == e,
{
    lemma_select_distinct(pairs, keep, make);
    let got = select(pairs, keep, make);
    assert forall|i: int| 0 <= i < got.len() implies phase(#[trigger] got[i]) == t by {
        assert(got.contains(got[i]));
        lemma_select_contains(pairs, keep, make, got[i]);
    }
    assert forall|e: EventModel| #[trigger]
        got.contains(e) <==> exists|k: K|
            #![trigger as_map(pairs).contains_key(k)]
            as_map(pairs).contains_key(k) && keep((k, as_map(pairs)[k])) && make(
                (k, as_map(pairs)[k]),
            ) == e by {
        lemma_select_entries(pairs, keep, make, e);
    }
}

/// A list of pairs that stands for the empty map is empty.
proof fn lemma_no_pairs<K, V>(pairs: Seq<(K, V)>)
    requires
        as_map(pairs) == Map::<K, V>::empty(),
    ensures
        pairs.len() == 0,
{
    if pairs.len() > 0 {
        assert(has_key(pairs, pairs[0].0));
        assert(as_map(pairs).contains_key(pairs[0].0));
    }
}

/// Against the empty graph there are as many changes as the other graph has
/// entries.
proof fn lemma_count(current: Listing, previous: Listing)
    ensures
        previous.model() == StateModel::empty() ==> change_sequence(current, previous).len()
            == current.count(),
        current.model() == StateModel::empty() ==> change_sequence(current, previous).len()
            == previous.count(),
{
    let cur = current.model();
    let prev = previous.model();
    lemma_select_len(previous.nodes, key_missing_in(cur.nodes), node_removed());
    lemma_select_len(current.nodes, entry_missing_in(prev.nodes), node_added());
    lemma_select_len(previous.topics, key_missing_in(cur.topics), topic_removed());
    lemma_select_len(current.topics, entry_missing_in(prev.topics), topic_added());
    lemma_select_len(previous.services, key_missing_in(cur.services), service_removed());
    lemma_select_len(current.services, entry_missing_in(prev.services), service_added());
    if prev == StateModel::empty() {
        lemma_no_pairs(previous.nodes);
        lemma_no_pairs(previous.topics);
        lemma_no_pairs(previous.services);
    }
    if cur == StateModel::empty() {
        lemma_no_pairs(current.nodes);
        lemma_no_pairs(current.topics);
        lemma_no_pairs(current.services);
    }
}

/// The changes in the order in which they are found are a list of the
/// changes.
pub proof fn lemma_change_sequence(current: Listing, previous: Listing)
    requires
        current.distinct(),
        previous.distinct(),
    ensures
        is_change_list(change_sequence(current, previous), current.model(), previous.model()),
{
    let cur = current.model();
    let prev = previous.model();
    let s0 = select(previous.nodes, key_missing_in(cur.nodes), node_removed());
    let s1 = select(current.nodes, entry_missing_in(prev.nodes), node_added());
    let s2 = select(previous.topics, key_missing_in(cur.topics), topic_removed());
    let s3 = select(current.topics, entry_missing_in(prev.topics), topic_added());
    let s4 = select(previous.services, key_missing_in(cur.services), service_removed());
    let s5 = select(current.services, entry_missing_in(prev.services), service_added());
    lemma_phase(previous.nodes, key_missing_in(cur.nodes), node_removed(), 0);
    lemma_phase(current.nodes, entry_missing_in(prev.nodes), node_added(), 1);
    lemma_phase(previous.topics, key_missing_in(cur.topics), topic_removed(), 2);
    lemma_phase(current.topics, entry_missing_in(prev.topics), topic_added(), 3);
    lemma_phase(previous.services, key_missing_in(cur.services), service_removed(), 4);
    lemma_phase(current.services, entry_missing_in(prev.services), service_added(), 5);
    let none = Seq::<EventModel>::empty();
    assert(tidy_below(none, 0));
    lemma_next_phase(none, s0, 0);
    assert(none + s0 =~= s0);
    lemma_next_phase(s0, s1, 1);
    lemma_next_phase(s0 + s1, s2, 2);
    lemma_next_phase(s0 + s1 + s2, s3, 3);
    lemma_next_phase(s0 + s1 + s2 + s3, s4, 4);
    lemma_next_phase(s0 + s1 + s2 + s3 + s4, s5, 5);
    let all = change_sequence(current, previous);
    assert(all == s0 + s1 + s2 + s3 + s4 + s5);
    assert forall|e: EventModel| #[trigger] all.contains(e) <==> reports_change(cur, prev, e) by {
        assert(all.contains(e) <==> s0.contains(e) || s1.contains(e) || s2.contains(e)
            || s3.contains(e) || s4.contains(e) || s5.contains(e));
        match e {
            EventModel::Ping => {},
            EventModel::NodeAdded { name, namespace, properties } => {
                if reports_change(cur, prev, e) {
                    assert(cur.nodes.contains_key((name, namespace)));
                    assert(s1.contains(e));
                }
            },
            EventModel::NodeRemoved { name, namespace } => {
                if reports_change(cur, prev, e) {
                    assert(prev.nodes.contains_key((name, namespace)));
                    assert(s0.contains(e));
                }
            },
            EventModel::TopicAdded { name, properties } => {
                if reports_change(cur, prev, e) {
                    assert(cur.topics.contains_key(name));
                    assert(s3.contains(e));
                }
            },
            EventModel::TopicRemoved { name } => {
                if reports_change(cur, prev, e) {
                    assert(prev.topics.contains_key(name));
                    assert(s2.contains(e));
                }
            },
            EventModel::ServiceAdded { name, properties } => {
                if reports_change(cur, prev, e) {
                    assert(cur.services.contains_key(name));
                    assert(s5.contains(e));
                }
            },
            EventModel::ServiceRemoved { name } => {
                if reports_change(cur, prev, e) {
                    assert(prev.services.contains_key(name));
                    assert(s4.contains(e));
                }
            },
        }
    }
}

impl RosState {
    /// The entries in the order in which the three mappings hold them.
    pub open spec fn listing(&self) -> Listing {
        Listing {
            nodes: self.nodes.pairs(),
            topics: self.topics.pairs(),
            services: self.services.pairs(),
        }
    }

    /// Folds one event into the graph.
    pub fn update(&mut self, event: DiscoveryEvent)
        ensures
            final(self).deep_view() == apply(old(self).deep_view(), event.deep_view()),
    {
        match event {
            DiscoveryEvent::Ping => {},
            DiscoveryEvent::NodeAdded { name, namespace, properties } => {
                self.nodes.insert((name, namespace), properties);
            },
            DiscoveryEvent::NodeRemoved { name, namespace } => {
                self.nodes.remove(&(name, namespace));
            },
            DiscoveryEvent::TopicAdded { name, properties } => {
                self.topics.insert(name, properties);
            },
            DiscoveryEvent::TopicRemoved { name } => {
                self.topics.remove(&name);
            },
            DiscoveryEvent::ServiceAdded { name, properties } => {
                self.services.insert(name, properties);
            },
            DiscoveryEvent::ServiceRemoved { name } => {
                self.services.remove(&name);
            },
        }
    }
}

impl RosState {
    /// The events that lead from `prev` to `self`: for each kind in turn, first
    /// a `Removed` event for each key that only `prev` has, then an `Added`
    /// event, with the value in `self`, for each entry of `self` that `prev`
    /// has not under that key with that value.
    pub fn changes(&self, prev: &Self) -> (events: Vec<DiscoveryEvent>)
        ensures
            events.deep_view() == change_sequence(self.listing(), prev.listing()),
            is_change_list(events.deep_view(), self.deep_view(), prev.deep_view()),
            self.deep_view() == prev.deep_view() ==> events.len() == 0,
            prev.deep_view() == StateModel::empty() ==> events.len() == self.listing().count(),
            self.deep_view() == StateModel::empty() ==> events.len() == prev.listing().count(),
            prev.deep_view() == StateModel::empty() ==> forall|i: int|
                0 <= i < events.len() ==> is_added(#[trigger] events.deep_view()[i]),
            self.deep_view() == StateModel::empty() ==> forall|i: int|
                0 <= i < events.len() ==> is_removed(#[trigger] events.deep_view()[i]),
    {
        let mut events: Vec<DiscoveryEvent> = Vec::new();
        let ghost cur_model = self.deep_view();
        let ghost prev_model = prev.deep_view();

        let ghost done = Seq::<EventModel>::empty();
        let n = prev.nodes.len();
        let mut i: usize = 0;
        proof {
            lemma_select_none(prev.nodes.pairs(), key_missing_in(cur_model.nodes), node_removed());
            assert(events.deep_view() =~= done + select(
                prev.nodes.pairs().take(0),
                key_missing_in(cur_model.nodes),
                node_removed(),
            ));
        }
        while i < n
            invariant
                i <= n,
                n == prev.nodes.pairs().len(),
                cur_model.nodes == self.nodes.deep_view(),
                events.deep_view() == done + select(
                    prev.nodes.pairs().take(i as int),
                    key_missing_in(cur_model.nodes),
                    node_removed(),
                ),
            decreases n - i,
        {
            let ghost before = events.deep_view();
            let key = prev.nodes.key_at(i);
            if !self.nodes.contains_key(key) {
                events.push(
                    DiscoveryEvent::NodeRemoved { name: key.0.clone(), namespace: key.1.clone() },
                );
                assert(events.deep_view() =~= before.push(
                    node_removed()(prev.nodes.pairs()[i as int]),
                ));
            }
            proof {
                lemma_select_step(
                    prev.nodes.pairs(),
                    i as int,
                    key_missing_in(cur_model.nodes),
                    node_removed(),
                );
            }
            i += 1;
        }
        assert(prev.nodes.pairs().take(n as int) =~= prev.nodes.pairs());

        let ghost done = events.deep_view();
        let n = self.nodes.len();
        let mut i: usize = 0;
        proof {
            lemma_select_none(self.nodes.pairs(), entry_missing_in(prev_model.nodes), node_added());
            assert(events.deep_view() =~= done + select(
                self.nodes.pairs().take(0),
                entry_missing_in(prev_model.nodes),
                node_added(),
            ));
        }
        while i < n
            invariant
                i <= n,
                n == self.nodes.pairs().len(),
                prev_model.nodes == prev.nodes.deep_view(),
                events.deep_view() == done + select(
                    self.nodes.pairs().take(i as int),
                    entry_missing_in(prev_model.nodes),
                    node_added(),
                ),
            decreases n - i,
        {
            let ghost before = events.deep_view();
            let key = self.nodes.key_at(i);
            let node = self.nodes.value_at(i);
            let unchanged = match prev.nodes.get(key) {
                Some(known) => known.same(node),
                None => false,
            };
            if !unchanged {
                events.push(
                    DiscoveryEvent::NodeAdded {
                        name: key.0.clone(),
                        namespace: key.1.clone(),
                        properties: node.duplicate(),
                    },
                );
                assert(events.deep_view() =~= before.push(
                    node_added()(self.nodes.pairs()[i as int]),
                ));
            }
            proof {
                lemma_select_step(
                    self.nodes.pairs(),
                    i as int,
                    entry_missing_in(prev_model.nodes),
                    node_added(),
                );
            }
            i += 1;
        }
        assert(self.nodes.pairs().take(n as int) =~= self.nodes.pairs());

        let ghost done = events.deep_view();
        let n = prev.topics.len();
        let mut i: usize = 0;
        proof {
            lemma_select_none(
                prev.topics.pairs(),
                key_missing_in(cur_model.topics),
                topic_removed(),
            );
            assert(events.deep_view() =~= done + select(
                prev.topics.pairs().take(0),
                key_missing_in(cur_model.topics),
                topic_removed(),
            ));
        }
        while i < n
            invariant
                i <= n,
                n == prev.topics.pairs().len(),
                cur_model.topics == self.topics.deep_view(),
                events.deep_view() == done + select(
                    prev.topics.pairs().take(i as int),
                    key_missing_in(cur_model.topics),
                    topic_removed(),
                ),
            decreases n - i,
        {
            let ghost before = events.deep_view();
            let key = prev.topics.key_at(i);
            if !self.topics.contains_key(key) {
                events.push(DiscoveryEvent::TopicRemoved { name: key.clone() });
                assert(events.deep_view() =~= before.push(
                    topic_removed()(prev.topics.pairs()[i as int]),
                ));
            }
            proof {
                lemma_select_step(
                    prev.topics.pairs(),
                    i as int,
                    key_missing_in(cur_model.topics),
                    topic_removed(),
                );
            }
            i += 1;
        }
        assert(prev.topics.pairs().take(n as int) =~= prev.topics.pairs());

        let ghost done = events.deep_view();
        let n = self.topics.len();
        let mut i: usize = 0;
        proof {
            lemma_select_none(
                self.topics.pairs(),
                entry_missing_in(prev_model.topics),
                topic_added(),
            );
            assert(events.deep_view() =~= done + select(
                self.topics.pairs().take(0),
                entry_missing_in(prev_model.topics),
                topic_added(),
            ));
        }
        while i < n
            invariant
                i <= n,
                n == self.topics.pairs().len(),
                prev_model.topics == prev.topics.deep_view(),
                events.deep_view() == done + select(
                    self.topics.pairs().take(i as int),
                    entry_missing_in(prev_model.topics),
                    topic_added(),
                ),
            decreases n - i,
        {
            let ghost before = events.deep_view();
            let key = self.topics.key_at(i);
            let topic = self.topics.value_at(i);
            let unchanged = match prev.topics.get(key) {
                Some(known) => known.same(topic),
                None => false,
            };
            if !unchanged {
                events.push(
                    DiscoveryEvent::TopicAdded { name: key.clone(), properties: topic.duplicate() },
                );
                assert(events.deep_view() =~= before.push(
                    topic_added()(self.topics.pairs()[i as int]),
                ));
            }
            proof {
                lemma_select_step(
                    self.topics.pairs(),
                    i as int,
                    entry_missing_in(prev_model.topics),
                    topic_added(),
                );
            }
            i += 1;
        }
        assert(self.topics.pairs().take(n as int) =~= self.topics.pairs());

        let ghost done = events.deep_view();
        let n = prev.services.len();
        let mut i: usize = 0;
        proof {
            lemma_select_none(
                prev.services.pairs(),
                key_missing_in(cur_model.services),
                service_removed(),
            );
            assert(events.deep_view() =~= done + select(
                prev.services.pairs().take(0),
                key_missing_in(cur_model.services),
                service_removed(),
            ));
        }
        while i < n
            invariant
                i <= n,
                n == prev.services.pairs().len(),
                cur_model.services == self.services.deep_view(),
                events.deep_view() == done + select(
                    prev.services.pairs().take(i as int),
                    key_missing_in(cur_model.services),
                    service_removed(),
                ),
            decreases n - i,
        {
            let ghost before = events.deep_view();
            let key = prev.services.key_at(i);
            if !self.services.contains_key(key) {
                events.push(DiscoveryEvent::ServiceRemoved { name: key.clone() });
                assert(events.deep_view() =~= before.push(
                    service_removed()(prev.services.pairs()[i as int]),
                ));
            }
            proof {
                lemma_select_step(
                    prev.services.pairs(),
                    i as int,
                    key_missing_in(cur_model.services),
                    service_removed(),
                );
            }
            i += 1;
        }
        assert(prev.services.pairs().take(n as int) =~= prev.services.pairs());

        let ghost done = events.deep_view();
        let n = self.services.len();
        let mut i: usize = 0;
        proof {
            lemma_select_none(
                self.services.pairs(),
                entry_missing_in(prev_model.services),
                service_added(),
            );
            assert(events.deep_view() =~= done + select(
                self.services.pairs().take(0),
                entry_missing_in(prev_model.services),
                service_added(),
            ));
        }
        while i < n
            invariant
                i <= n,
                n == self.services.pairs().len(),
                prev_model.services == prev.services.deep_view(),
                events.deep_view() == done + select(
                    self.services.pairs().take(i as int),
                    entry_missing_in(prev_model.services),
                    service_added(),
                ),
            decreases n - i,
        {
            let ghost before = events.deep_view();
            let key = self.services.key_at(i);
            let service = self.services.value_at(i);
            let unchanged = match prev.services.get(key) {
                Some(known) => known.same(service),
                None => false,
            };
            if !unchanged {
                events.push(
                    DiscoveryEvent::ServiceAdded {
                        name: key.clone(),
                        properties: service.duplicate(),
                    },
                );
                assert(events.deep_view() =~= before.push(
                    service_added()(self.services.pairs()[i as int]),
                ));
            }
            proof {
                lemma_select_step(
                    self.services.pairs(),
                    i as int,
                    entry_missing_in(prev_model.services),
                    service_added(),
                );
            }
            i += 1;
        }
        assert(self.services.pairs().take(n as int) =~= self.services.pairs());

        proof {
            assert(events.deep_view() =~= change_sequence(self.listing(), prev.listing()));
            lemma_change_sequence(self.listing(), prev.listing());
            assert(events.deep_view().len() == events.len());
            if self.deep_view() == prev.deep_view() {
                law_same_graph_no_events(self.deep_view(), events.deep_view());
            }
            if prev.deep_view() == StateModel::empty() {
                law_all_added_from_empty(self.deep_view(), events.deep_view());
            }
            if self.deep_view() == StateModel::empty() {
                law_all_removed_to_empty(prev.deep_view(), events.deep_view());
            }
            lemma_count(self.listing(), prev.listing());
        }
        events
    }
}

impl Entity for RosState {
    fn same(&self, other: &Self) -> (r: bool) {
        self.nodes.same(&other.nodes) && self.topics.same(&other.topics) && self.services.same(
            &other.services,
        )
    }

    fn duplicate(&self) -> (r: Self) {
        RosState {
            nodes: self.nodes.duplicate(),
            topics: self.topics.duplicate(),
            services: self.services.duplicate(),
        }
    }
}

impl Default for RosState {
    /// The graph in which nothing is known.
    fn default() -> (state: Self)
        ensures
            state.deep_view() == StateModel::empty(),
    {
        RosState { nodes: Mapping::new(), topics: Mapping::new(), services: Mapping::new() }
    }
}

} // verus!
