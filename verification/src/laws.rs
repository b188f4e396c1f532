//! What holds of every list of changes, whatever the two graphs are.
//!
//! The statements are over the models: [`RosState::changes`] returns a list
//! whose model satisfies [`is_change_list`], and [`RosState::update`] changes
//! the model of a graph by [`apply`], so each statement here holds of what
//! those two functions do.
//!
//! [`RosState::changes`]: crate::state::RosState::changes
//! [`RosState::update`]: crate::state::RosState::update

use vstd::prelude::*;
use crate::state::{apply, apply_all, is_change_list, reports_change, StateModel};
use crate::types::EventModel;

verus! {

/// The entity that an event is about.
pub enum Subject {
    Node { name: Seq<char>, namespace: Seq<char> },
    Topic { name: Seq<char> },
    Service { name: Seq<char> },
}

/// The entity that `event` is about; a `Ping` is about none.
pub open spec fn subject(event: EventModel) -> Option<Subject> {
    match event {
        EventModel::Ping => None,
        EventModel::NodeAdded { name, namespace, .. } => Some(Subject::Node { name, namespace }),
        EventModel::NodeRemoved { name, namespace } => Some(Subject::Node { name, namespace }),
        EventModel::TopicAdded { name, .. } => Some(Subject::Topic { name }),
        EventModel::TopicRemoved { name } => Some(Subject::Topic { name }),
        EventModel::ServiceAdded { name, .. } => Some(Subject::Service { name }),
        EventModel::ServiceRemoved { name } => Some(Subject::Service { name }),
    }
}

/// Whether `event` is one of the three `Added` events.
pub open spec fn is_added(event: EventModel) -> bool {
    event is NodeAdded || event is TopicAdded || event is ServiceAdded
}

/// Whether `event` is one of the three `Removed` events.
pub open spec fn is_removed(event: EventModel) -> bool {
    event is NodeRemoved || event is TopicRemoved || event is ServiceRemoved
}

/// A graph compared with itself has no changes.
pub proof fn law_same_graph_no_events(a: StateModel, events: Seq<EventModel>)
    requires
        is_change_list(events, a, a),
    ensures
        events == Seq::<EventModel>::empty(),
{
    if events.len() > 0 {
        assert(events.contains(events[0]));
        assert(reports_change(a, a, events[0]));
    }
    assert(events =~= Seq::<EventModel>::empty());
}

/// A list of changes has at most one event about each entity.
pub proof fn law_one_event_per_entity(
    current: StateModel,
    previous: StateModel,
    events: Seq<EventModel>,
    i: int,
    j: int,
)
    requires
        is_change_list(events, current, previous),
        0 <= i < events.len(),
        0 <= j < events.len(),
        subject(events[i]) == subject(events[j]),
    ensures
        i == j,
{
    assert(events.contains(events[i]));
    assert(events.contains(events[j]));
    assert(reports_change(current, previous, events[i]));
    assert(reports_change(current, previous, events[j]));
    assert(events[i] == events[j]);
}

/// The changes from the empty graph to `a` are one `Added` event for each
/// entity of `a`, carrying its properties in `a`, and nothing else: no event
/// is a `Removed` event or a `Ping`, and no entity has two events.
pub proof fn law_all_added_from_empty(a: StateModel, events: Seq<EventModel>)
    requires
        is_change_list(events, a, StateModel::empty()),
    ensures
        forall|i: int| 0 <= i < events.len() ==> is_added(#[trigger] events[i]),
        forall|name: Seq<char>, namespace: Seq<char>|
            #![trigger a.nodes.contains_key((name, namespace))]
            a.nodes.contains_key((name, namespace)) ==> events.contains(
                EventModel::NodeAdded { name, namespace, properties: a.nodes[(name, namespace)] },
            ),
        forall|name: Seq<char>|
            #![trigger a.topics.contains_key(name)]
            a.topics.contains_key(name) ==> events.contains(
                EventModel::TopicAdded { name, properties: a.topics[name] },
            ),
        forall|name: Seq<char>|
            #![trigger a.services.contains_key(name)]
            a.services.contains_key(name) ==> events.contains(
                EventModel::ServiceAdded { name, properties: a.services[name] },
            ),
        forall|i: int, j: int|
            0 <= i < events.len() && 0 <= j < events.len() && subject(#[trigger] events[i])
                == subject(#[trigger] events[j]) ==> i == j,
{
    let empty = StateModel::empty();
    assert forall|i: int| 0 <= i < events.len() implies is_added(#[trigger] events[i]) by {
        assert(events.contains(events[i]));
        assert(reports_change(a, empty, events[i]));
    }
    assert forall|name: Seq<char>, namespace: Seq<char>|
        #![trigger a.nodes.contains_key((name, namespace))]
        a.nodes.contains_key((name, namespace)) implies events.contains(
        EventModel::NodeAdded { name, namespace, properties: a.nodes[(name, namespace)] },
    ) by {
        assert(reports_change(
            a,
            empty,
            EventModel::NodeAdded { name, namespace, properties: a.nodes[(name, namespace)] },
        ));
    }
    assert forall|name: Seq<char>|
        #![trigger a.topics.contains_key(name)]
        a.topics.contains_key(name) implies events.contains(
        EventModel::TopicAdded { name, properties: a.topics[name] },
    ) by {
        assert(reports_change(
            a,
            empty,
            EventModel::TopicAdded { name, properties: a.topics[name] },
        ));
    }
    assert forall|name: Seq<char>|
        #![trigger a.services.contains_key(name)]
        a.services.contains_key(name) implies events.contains(
        EventModel::ServiceAdded { name, properties: a.services[name] },
    ) by {
        assert(reports_change(
            a,
            empty,
            EventModel::ServiceAdded { name, properties: a.services[name] },
        ));
    }
    assert forall|i: int, j: int|
        0 <= i < events.len() && 0 <= j < events.len() && subject(#[trigger] events[i]) == subject(
            #[trigger] events[j],
        ) implies i == j by {
        law_one_event_per_entity(a, empty, events, i, j);
    }
}

/// The changes from a graph to the empty graph are one `Removed` event for
/// each entity of the graph, and nothing else.
pub proof fn law_all_removed_to_empty(a: StateModel, events: Seq<EventModel>)
    requires
        is_change_list(events, StateModel::empty(), a),
    ensures
        forall|i: int| 0 <= i < events.len() ==> is_removed(#[trigger] events[i]),
        forall|name: Seq<char>, namespace: Seq<char>|
            #![trigger a.nodes.contains_key((name, namespace))]
            a.nodes.contains_key((name, namespace)) ==> events.contains(
                EventModel::NodeRemoved { name, namespace },
            ),
        forall|name: Seq<char>|
            #![trigger a.topics.contains_key(name)]
            a.topics.contains_key(name) ==> events.contains(EventModel::TopicRemoved { name }),
        forall|name: Seq<char>|
            #![trigger a.services.contains_key(name)]
            a.services.contains_key(name) ==> events.contains(EventModel::ServiceRemoved { name }),
{
    let empty = StateModel::empty();
    assert forall|i: int| 0 <= i < events.len() implies is_removed(#[trigger] events[i]) by {
        assert(events.contains(events[i]));
        assert(reports_change(empty, a, events[i]));
    }
    assert forall|name: Seq<char>, namespace: Seq<char>|
        #![trigger a.nodes.contains_key((name, namespace))]
        a.nodes.contains_key((name, namespace)) implies events.contains(
        EventModel::NodeRemoved { name, namespace },
    ) by {
        assert(reports_change(empty, a, EventModel::NodeRemoved { name, namespace }));
    }
    assert forall|name: Seq<char>|
        #![trigger a.topics.contains_key(name)]
        a.topics.contains_key(name) implies events.contains(
        EventModel::TopicRemoved { name },
    ) by {
        assert(reports_change(empty, a, EventModel::TopicRemoved { name }));
    }
    assert forall|name: Seq<char>|
        #![trigger a.services.contains_key(name)]
        a.services.contains_key(name) implies events.contains(
        EventModel::ServiceRemoved { name },
    ) by {
        assert(reports_change(empty, a, EventModel::ServiceRemoved { name }));
    }
}

/// Whether one of the first `n` events is about `s`.
spec fn touched(events: Seq<EventModel>, n: int, s: Subject) -> bool {
    exists|i: int| 0 <= i < n && subject(#[trigger] events[i]) == Some(s)
}

/// The graph that has, for each entity that one of the first `n` events is
/// about, what `b` has for it, and for every other entity what `a` has.
spec fn partly_updated(a: StateModel, b: StateModel, events: Seq<EventModel>, n: int) -> StateModel {
    StateModel {
        nodes: Map::new(
            |k: (Seq<char>, Seq<char>)|
                if touched(events, n, Subject::Node { name: k.0, namespace: k.1 }) {
                    b.nodes.contains_key(k)
                } else {
                    a.nodes.contains_key(k)
                },
            |k: (Seq<char>, Seq<char>)|
                if touched(events, n, Subject::Node { name: k.0, namespace: k.1 }) {
                    b.nodes[k]
                } else {
                    a.nodes[k]
                },
        ),
        topics: Map::new(
            |k: Seq<char>|
                if touched(events, n, Subject::Topic { name: k }) {
                    b.topics.contains_key(k)
                } else {
                    a.topics.contains_key(k)
                },
            |k: Seq<char>|
                if touched(events, n, Subject::Topic { name: k }) {
                    b.topics[k]
                } else {
                    a.topics[k]
                },
        ),
        services: Map::new(
            |k: Seq<char>|
                if touched(events, n, Subject::Service { name: k }) {
                    b.services.contains_key(k)
                } else {
                    a.services.contains_key(k)
                },
            |k: Seq<char>|
                if touched(events, n, Subject::Service { name: k }) {
                    b.services[k]
                } else {
                    a.services[k]
                },
        ),
    }
}

/// After the first `n` changes from `a` to `b`, the graph is `a` brought up to
/// `b` for the entities that those changes are about.
proof fn lemma_partly_updated(a: StateModel, b: StateModel, events: Seq<EventModel>, n: int)
    requires
        is_change_list(events, b, a),
        0 <= n <= events.len(),
    ensures
        apply_all(a, events.take(n)) == partly_updated(a, b, events, n),
    decreases n,
{
    if n == 0 {
        assert(events.take(0).len() == 0);
        let got = partly_updated(a, b, events, 0);
        assert(got.nodes =~= a.nodes);
        assert(got.topics =~= a.topics);
        assert(got.services =~= a.services);
    } else {
        lemma_partly_updated(a, b, events, n - 1);
        let e = events[n - 1];
        let before = partly_updated(a, b, events, n - 1);
        let after = partly_updated(a, b, events, n);
        assert(events.take(n).drop_last() =~= events.take(n - 1));
        assert(events.take(n).last() == e);
        assert(apply_all(a, events.take(n)) == apply(before, e));
        assert(events.contains(e));
        assert(reports_change(b, a, e));
        assert forall|s: Subject| touched(events, n, s) <==> (touched(events, n - 1, s) || subject(
            e,
        ) == Some(s)) by {
            if touched(events, n, s) {
                let i = choose|i: int| 0 <= i < n && subject(#[trigger] events[i]) == Some(s);
                if i < n - 1 {
                    assert(touched(events, n - 1, s));
                }
            }
            if touched(events, n - 1, s) {
                let i = choose|i: int| 0 <= i < n - 1 && subject(#[trigger] events[i]) == Some(s);
                assert(0 <= i < n);
            }
            if subject(e) == Some(s) {
                assert(subject(events[n - 1]) == Some(s));
            }
        }
        assert forall|s: Subject| subject(e) == Some(s) implies !touched(events, n - 1, s) by {
            if touched(events, n - 1, s) {
                let i = choose|i: int| 0 <= i < n - 1 && subject(#[trigger] events[i]) == Some(s);
                law_one_event_per_entity(b, a, events, i, n - 1);
            }
        }
        let next = apply(before, e);
        assert(next.nodes =~= after.nodes);
        assert(next.topics =~= after.topics);
        assert(next.services =~= after.services);
    }
}

/// Applying the changes from `a` to `b` to the graph `a`, one after the other,
/// gives the graph `b`.
pub proof fn law_changes_lead_to_current(a: StateModel, b: StateModel, events: Seq<EventModel>)
    requires
        is_change_list(events, b, a),
    ensures
        apply_all(a, events) == b,
{
    let n = events.len() as int;
    lemma_partly_updated(a, b, events, n);
    assert(events.take(n) =~= events);
    let got = partly_updated(a, b, events, n);
    assert forall|k: (Seq<char>, Seq<char>)|
        (#[trigger] got.nodes.contains_key(k) <==> b.nodes.contains_key(k)) && (
        got.nodes.contains_key(k) ==> got.nodes[k] == b.nodes[k]) by {
        if !touched(events, n, Subject::Node { name: k.0, namespace: k.1 }) {
            lemma_untouched(a, b, events, EventModel::NodeRemoved { name: k.0, namespace: k.1 });
            if b.nodes.contains_key(k) {
                lemma_untouched(
                    a,
                    b,
                    events,
                    EventModel::NodeAdded { name: k.0, namespace: k.1, properties: b.nodes[k] },
                );
            }
        }
    }
    assert forall|k: Seq<char>|
        (#[trigger] got.topics.contains_key(k) <==> b.topics.contains_key(k)) && (
        got.topics.contains_key(k) ==> got.topics[k] == b.topics[k]) by {
        if !touched(events, n, Subject::Topic { name: k }) {
            lemma_untouched(a, b, events, EventModel::TopicRemoved { name: k });
            if b.topics.contains_key(k) {
                lemma_untouched(
                    a,
                    b,
                    events,
                    EventModel::TopicAdded { name: k, properties: b.topics[k] },
                );
            }
        }
    }
    assert forall|k: Seq<char>|
        (#[trigger] got.services.contains_key(k) <==> b.services.contains_key(k)) && (
        got.services.contains_key(k) ==> got.services[k] == b.services[k]) by {
        if !touched(events, n, Subject::Service { name: k }) {
            lemma_untouched(a, b, events, EventModel::ServiceRemoved { name: k });
            if b.services.contains_key(k) {
                lemma_untouched(
                    a,
                    b,
                    events,
                    EventModel::ServiceAdded { name: k, properties: b.services[k] },
                );
            }
        }
    }
    assert(got.nodes =~= b.nodes);
    assert(got.topics =~= b.topics);
    assert(got.services =~= b.services);
}

/// An event about an entity that no change is about reports no change.
proof fn lemma_untouched(a: StateModel, b: StateModel, events: Seq<EventModel>, e: EventModel)
    requires
        is_change_list(events, b, a),
        subject(e) is Some,
        !touched(events, events.len() as int, subject(e)->0),
    ensures
        !reports_change(b, a, e),
{
    if reports_change(b, a, e) {
        assert(events.contains(e));
        let i = choose|i: int| 0 <= i < events.len() && events[i] == e;
        assert(subject(events[i]) == Some(subject(e)->0));
    }
}

} // verus!
