//! From what the runtime reports to one observation of the graph.
//!
//! The runtime is asked by the caller. It answers with lists: the endpoints
//! of a node, each with the types declared for it, and the nodes, topics and
//! services themselves. These functions turn such lists into mappings.

use vstd::prelude::*;
use crate::mapping::{collected, Mapping};
use crate::state::{RosState, StateModel};
use crate::types::{NodeModel, NodeProperties, ServiceProperties, TopicProperties};

verus! {

/// The endpoints of `entries` that have exactly one type, each with that type.
/// Of two entries for one endpoint with one type each, the later stays.
pub open spec fn typed(entries: Seq<(Seq<char>, Seq<Seq<char>>)>) -> Map<Seq<char>, Seq<char>>
    decreases entries.len(),
{
    if entries.len() == 0 {
        Map::empty()
    } else {
        let rest = typed(entries.drop_last());
        let last = entries.last();
        if last.1.len() == 1 {
            rest.insert(last.0, last.1[0])
        } else {
            rest
        }
    }
}

/// Maps each endpoint that was reported with exactly one type to that type,
/// and leaves out the endpoints reported with none or with several.
pub fn single_typed(entries: Vec<(String, Vec<String>)>) -> (m: Mapping<String, String>)
    ensures
        m.deep_view() == typed(entries.deep_view()),
{
    let ghost all = entries.deep_view();
    let mut m: Mapping<String, String> = Mapping::new();
    proof {
        assert(all.take(0) =~= Seq::empty());
    }
    for entry in it: entries
        invariant
            it.seq().len() == all.len(),
            forall|j: int|
                0 <= j < it.seq().len() ==> (#[trigger] it.seq()[j]).deep_view() == all[j],
            m.deep_view() == typed(all.take(it.index() as int)),
    {
        let ghost i = it.index() as int;
        proof {
            assert(all.take(i + 1).drop_last() =~= all.take(i));
            assert(all.take(i + 1).last() == all[i]);
        }
        let (name, mut types) = entry;
        if types.len() == 1 {
            match types.pop() {
                Some(only) => {
                    m.insert(name, only);
                },
                None => {},
            }
        }
    }
    proof {
        assert(all.take(all.len() as int) =~= all);
    }
    m
}

/// The properties of a node, from its enclave and the four lists of its
/// endpoints.
pub fn node_properties(
    enclave: String,
    publishers: Vec<(String, Vec<String>)>,
    subscribers: Vec<(String, Vec<String>)>,
    clients: Vec<(String, Vec<String>)>,
    services: Vec<(String, Vec<String>)>,
) -> (node: NodeProperties)
    ensures
        node.deep_view() == (NodeModel {
            enclave: enclave@,
            publishers: typed(publishers.deep_view()),
            subscribers: typed(subscribers.deep_view()),
            clients: typed(clients.deep_view()),
            services: typed(services.deep_view()),
        }),
{
    NodeProperties {
        enclave,
        publishers: single_typed(publishers),
        subscribers: single_typed(subscribers),
        clients: single_typed(clients),
        services: single_typed(services),
    }
}

/// The observation that holds the reported nodes, topics and services. Where
/// a key is reported twice, what was reported later stays.
pub fn snapshot(
    nodes: Vec<((String, String), NodeProperties)>,
    topics: Vec<(String, TopicProperties)>,
    services: Vec<(String, ServiceProperties)>,
) -> (state: RosState)
    ensures
        state.deep_view() == (StateModel {
            nodes: collected(nodes.deep_view()),
            topics: collected(topics.deep_view()),
            services: collected(services.deep_view()),
        }),
{
    RosState {
        nodes: Mapping::from_pairs(nodes),
        topics: Mapping::from_pairs(topics),
        services: Mapping::from_pairs(services),
    }
}

} // verus!
