//! The sending side: it is shown one observation of the graph after the
//! other and says which events go out for each.

use vstd::prelude::*;
use crate::state::{change_sequence, is_change_list, RosState, StateModel};
use crate::types::{DiscoveryEvent, DiscoveryEventWrapper, EnvelopeModel, EventModel};

verus! {

/// The events of `envelopes`, without their time stamps.
pub open spec fn events_of(envelopes: Seq<EnvelopeModel>) -> Seq<EventModel> {
    Seq::new(envelopes.len(), |i: int| envelopes[i].event)
}

/// `events`, each stamped with `ts`.
pub open spec fn stamped(events: Seq<EventModel>, ts: u64) -> Seq<EnvelopeModel> {
    Seq::new(events.len(), |i: int| EnvelopeModel { ts, event: events[i] })
}

/// Wraps each event with the time stamp `ts`, in order.
pub fn stamp(events: Vec<DiscoveryEvent>, ts: u64) -> (envelopes: Vec<DiscoveryEventWrapper>)
    ensures
        envelopes.deep_view() == stamped(events.deep_view(), ts),
{
    let ghost all = events.deep_view();
    let mut envelopes: Vec<DiscoveryEventWrapper> = Vec::new();
    for event in it: events
        invariant
            envelopes.len() == it.index(),
            it.seq().len() == all.len(),
            forall|j: int| 0 <= j < it.seq().len() ==> (#[trigger] it.seq()[j]).deep_view() == all[j],
            forall|j: int|
                0 <= j < envelopes.len() ==> (#[trigger] envelopes[j]).deep_view() == (
                EnvelopeModel { ts, event: all[j] }),
    {
        envelopes.push(DiscoveryEventWrapper { ts, event });
    }
    assert(envelopes.deep_view() =~= stamped(all, ts));
    envelopes
}

/// The sending side's memory: the graph as it was last observed.
#[derive(Debug, Clone)]
pub struct Producer {
    pub previous: RosState,
}

impl Producer {
    /// A producer that has observed nothing yet.
    pub fn new() -> (producer: Self)
        ensures
            producer.previous.deep_view() == StateModel::empty(),
    {
        Producer { previous: RosState::default() }
    }

    /// Takes in the observation `snapshot`, made at time `ts`: returns the
    /// changes since the previous observation, each stamped with `ts`, and
    /// keeps `snapshot` as the previous observation from now on.
    pub fn tick(&mut self, snapshot: RosState, ts: u64) -> (envelopes: Vec<DiscoveryEventWrapper>)
        ensures
            final(self).previous == snapshot,
            envelopes.deep_view() == stamped(
                change_sequence(snapshot.listing(), old(self).previous.listing()),
                ts,
            ),
            is_change_list(
                events_of(envelopes.deep_view()),
                snapshot.deep_view(),
                old(self).previous.deep_view(),
            ),
    {
        let events = snapshot.changes(&self.previous);
        proof {
            assert(events_of(stamped(events.deep_view(), ts)) =~= events.deep_view());
        }
        self.previous = snapshot;
        stamp(events, ts)
    }
}

} // verus!
