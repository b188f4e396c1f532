//! The data carried by the graph: quality-of-service profiles, endpoint
//! descriptors, the properties of nodes, topics and services, and the events
//! that report a change of any of them.
//!
//! Each type has a model (its deep view) in which strings are sequences of
//! characters, lists are sequences and mappings are maps. Two values are the
//! same entity exactly when their models are equal.

use vstd::prelude::*;
use crate::entity::Entity;
use crate::mapping::Mapping;

verus! {

/// How many samples an endpoint keeps.
#[derive(Debug, Clone, Copy, PartialEq, Eq, Structural)]
pub enum HistoryPolicy {
    KeepAll,
    KeepLast,
    SystemDefault,
    Unknown,
}

/// Whether an endpoint retries delivery.
#[derive(Debug, Clone, Copy, PartialEq, Eq, Structural)]
pub enum ReliabilityPolicy {
    BestEffort,
    Reliable,
    SystemDefault,
    BestAvailable,
    Unknown,
}

/// Whether samples outlive the endpoint that wrote them.
#[derive(Debug, Clone, Copy, PartialEq, Eq, Structural)]
pub enum DurabilityPolicy {
    TransientLocal,
    Volatile,
    SystemDefault,
    BestAvailable,
    Unknown,
}

/// How an endpoint shows that it is alive.
#[derive(Debug, Clone, Copy, PartialEq, Eq, Structural)]
pub enum LivelinessPolicy {
    Automatic,
    ManualByNode,
    ManualByTopic,
    SystemDefault,
    BestAvailable,
    Unknown,
}

/// A length of time: whole seconds and the nanoseconds beyond them.
#[derive(Debug, Clone, Copy, PartialEq, Eq, Structural)]
pub struct TimeSpan {
    pub secs: u64,
    pub nanos: u32,
}

/// The quality-of-service settings of one endpoint.
#[derive(Debug, Clone, PartialEq, Eq, Structural)]
pub struct QosProfile {
    pub history: HistoryPolicy,
    pub depth: usize,
    pub reliability: ReliabilityPolicy,
    pub durability: DurabilityPolicy,
    pub deadline: TimeSpan,
    pub lifespan: TimeSpan,
    pub liveliness: LivelinessPolicy,
    pub liveliness_lease_duration: TimeSpan,
}

impl DeepView for QosProfile {
    type V = QosProfile;

    open spec fn deep_view(&self) -> QosProfile {
        *self
    }
}

impl Entity for QosProfile {
    fn same(&self, other: &Self) -> (r: bool) {
        *self == *other
    }

    fn duplicate(&self) -> (r: Self) {
        QosProfile {
            history: self.history,
            depth: self.depth,
            reliability: self.reliability,
            durability: self.durability,
            deadline: self.deadline,
            lifespan: self.lifespan,
            liveliness: self.liveliness,
            liveliness_lease_duration: self.liveliness_lease_duration,
        }
    }
}

/// One publisher or subscriber of a topic.
#[derive(Debug, Clone, PartialEq, Eq)]
pub struct PubSubProperties {
    pub node_name: String,
    pub node_namespace: String,
    pub topic_type: String,
    pub qos_profile: QosProfile,
}

/// The model of a [`PubSubProperties`].
pub struct EndpointModel {
    pub node_name: Seq<char>,
    pub node_namespace: Seq<char>,
    pub topic_type: Seq<char>,
    pub qos_profile: QosProfile,
}

impl DeepView for PubSubProperties {
    type V = EndpointModel;

    open spec fn deep_view(&self) -> EndpointModel {
        EndpointModel {
            node_name: self.node_name@,
            node_namespace: self.node_namespace@,
            topic_type: self.topic_type@,
            qos_profile: self.qos_profile,
        }
    }
}

impl Entity for PubSubProperties {
    fn same(&self, other: &Self) -> (r: bool) {
        self.node_name == other.node_name && self.node_namespace == other.node_namespace
            && self.topic_type == other.topic_type && self.qos_profile == other.qos_profile
    }

    fn duplicate(&self) -> (r: Self) {
        PubSubProperties {
            node_name: self.node_name.clone(),
            node_namespace: self.node_namespace.clone(),
            topic_type: self.topic_type.clone(),
            qos_profile: self.qos_profile.duplicate(),
        }
    }
}

/// What is known of a topic: its declared types and its endpoints, each list in
/// the order in which it was observed.
#[derive(Debug, Clone, PartialEq, Eq)]
pub struct TopicProperties {
    pub types: Vec<String>,
    pub publishers: Vec<PubSubProperties>,
    pub subscribers: Vec<PubSubProperties>,
}

/// The model of a [`TopicProperties`].
pub struct TopicModel {
    pub types: Seq<Seq<char>>,
    pub publishers: Seq<EndpointModel>,
    pub subscribers: Seq<EndpointModel>,
}

impl DeepView for TopicProperties {
    type V = TopicModel;

    open spec fn deep_view(&self) -> TopicModel {
        TopicModel {
            types: self.types.deep_view(),
            publishers: self.publishers.deep_view(),
            subscribers: self.subscribers.deep_view(),
        }
    }
}

impl Entity for TopicProperties {
    fn same(&self, other: &Self) -> (r: bool) {
        self.types.same(&other.types) && self.publishers.same(&other.publishers)
            && self.subscribers.same(&other.subscribers)
    }

    fn duplicate(&self) -> (r: Self) {
        TopicProperties {
            types: self.types.duplicate(),
            publishers: self.publishers.duplicate(),
            subscribers: self.subscribers.duplicate(),
        }
    }
}

/// What is known of a service: its declared types.
#[derive(Debug, Clone, PartialEq, Eq)]
pub struct ServiceProperties {
    pub types: Vec<String>,
}

/// The model of a [`ServiceProperties`].
pub struct ServiceModel {
    pub types: Seq<Seq<char>>,
}

impl DeepView for ServiceProperties {
    type V = ServiceModel;

    open spec fn deep_view(&self) -> ServiceModel {
        ServiceModel { types: self.types.deep_view() }
    }
}

impl Entity for ServiceProperties {
    fn same(&self, other: &Self) -> (r: bool) {
        self.types.same(&other.types)
    }

    fn duplicate(&self) -> (r: Self) {
        ServiceProperties { types: self.types.duplicate() }
    }
}

/// What is known of a node: its enclave and, for each kind of endpoint, the
/// type behind each local endpoint name.
#[derive(Debug, Clone, PartialEq, Eq)]
pub struct NodeProperties {
    pub enclave: String,
    pub publishers: Mapping<String, String>,
    pub subscribers: Mapping<String, String>,
    pub clients: Mapping<String, String>,
    pub services: Mapping<String, String>,
}

/// The model of a [`NodeProperties`].
pub struct NodeModel {
    pub enclave: Seq<char>,
    pub publishers: Map<Seq<char>, Seq<char>>,
    pub subscribers: Map<Seq<char>, Seq<char>>,
    pub clients: Map<Seq<char>, Seq<char>>,
    pub services: Map<Seq<char>, Seq<char>>,
}

impl DeepView for NodeProperties {
    type V = NodeModel;

    open spec fn deep_view(&self) -> NodeModel {
        NodeModel {
            enclave: self.enclave@,
            publishers: self.publishers.deep_view(),
            subscribers: self.subscribers.deep_view(),
            clients: self.clients.deep_view(),
            services: self.services.deep_view(),
        }
    }
}

impl Entity for NodeProperties {
    fn same(&self, other: &Self) -> (r: bool) {
        self.enclave == other.enclave && self.publishers.same(&other.publishers)
            && self.subscribers.same(&other.subscribers) && self.clients.same(&other.clients)
            && self.services.same(&other.services)
    }

    fn duplicate(&self) -> (r: Self) {
        NodeProperties {
            enclave: self.enclave.clone(),
            publishers: self.publishers.duplicate(),
            subscribers: self.subscribers.duplicate(),
            clients: self.clients.duplicate(),
            services: self.services.duplicate(),
        }
    }
}

/// One change of the graph. An `Added` event carries the properties that now
/// hold for its key, whether the key is new or its properties changed.
#[derive(Debug, Clone, PartialEq, Eq)]
#[allow(inconsistent_fields)]
pub enum DiscoveryEvent {
    Ping,
    NodeAdded { name: String, namespace: String, properties: NodeProperties },
    NodeRemoved { name: String, namespace: String },
    TopicAdded { name: String, properties: TopicProperties },
    TopicRemoved { name: String },
    ServiceAdded { name: String, properties: ServiceProperties },
    ServiceRemoved { name: String },
}

/// The model of a [`DiscoveryEvent`].
#[allow(inconsistent_fields)]
pub enum EventModel {
    Ping,
    NodeAdded { name: Seq<char>, namespace: Seq<char>, properties: NodeModel },
    NodeRemoved { name: Seq<char>, namespace: Seq<char> },
    TopicAdded { name: Seq<char>, properties: TopicModel },
    TopicRemoved { name: Seq<char> },
    ServiceAdded { name: Seq<char>, properties: ServiceModel },
    ServiceRemoved { name: Seq<char> },
}

impl DeepView for DiscoveryEvent {
    type V = EventModel;

    open spec fn deep_view(&self) -> EventModel {
        match self {
            DiscoveryEvent::Ping => EventModel::Ping,
            DiscoveryEvent::NodeAdded { name, namespace, properties } => EventModel::NodeAdded {
                name: name@,
                namespace: namespace@,
                properties: properties.deep_view(),
            },
            DiscoveryEvent::NodeRemoved { name, namespace } => EventModel::NodeRemoved {
                name: name@,
                namespace: namespace@,
            },
            DiscoveryEvent::TopicAdded { name, properties } => EventModel::TopicAdded {
                name: name@,
                properties: properties.deep_view(),
            },
            DiscoveryEvent::TopicRemoved { name } => EventModel::TopicRemoved { name: name@ },
            DiscoveryEvent::ServiceAdded { name, properties } => EventModel::ServiceAdded {
                name: name@,
                properties: properties.deep_view(),
            },
            DiscoveryEvent::ServiceRemoved { name } => EventModel::ServiceRemoved { name: name@ },
        }
    }
}

impl Entity for DiscoveryEvent {
    fn same(&self, other: &Self) -> (r: bool) {
        match (self, other) {
            (DiscoveryEvent::Ping, DiscoveryEvent::Ping) => true,
            (
                DiscoveryEvent::NodeAdded { name: n1, namespace: s1, properties: p1 },
                DiscoveryEvent::NodeAdded { name: n2, namespace: s2, properties: p2 },
            ) => *n1 == *n2 && *s1 == *s2 && p1.same(p2),
            (
                DiscoveryEvent::NodeRemoved { name: n1, namespace: s1 },
                DiscoveryEvent::NodeRemoved { name: n2, namespace: s2 },
            ) => *n1 == *n2 && *s1 == *s2,
            (
                DiscoveryEvent::TopicAdded { name: n1, properties: p1 },
                DiscoveryEvent::TopicAdded { name: n2, properties: p2 },
            ) => *n1 == *n2 && p1.same(p2),
            (
                DiscoveryEvent::TopicRemoved { name: n1 },
                DiscoveryEvent::TopicRemoved { name: n2 },
            ) => *n1 == *n2,
            (
                DiscoveryEvent::ServiceAdded { name: n1, properties: p1 },
                DiscoveryEvent::ServiceAdded { name: n2, properties: p2 },
            ) => *n1 == *n2 && p1.same(p2),
            (
                DiscoveryEvent::ServiceRemoved { name: n1 },
                DiscoveryEvent::ServiceRemoved { name: n2 },
            ) => *n1 == *n2,
            _ => false,
        }
    }

    fn duplicate(&self) -> (r: Self) {
        match self {
            DiscoveryEvent::Ping => DiscoveryEvent::Ping,
            DiscoveryEvent::NodeAdded { name, namespace, properties } => DiscoveryEvent::NodeAdded {
                name: name.clone(),
                namespace: namespace.clone(),
                properties: properties.duplicate(),
            },
            DiscoveryEvent::NodeRemoved { name, namespace } => DiscoveryEvent::NodeRemoved {
                name: name.clone(),
                namespace: namespace.clone(),
            },
            DiscoveryEvent::TopicAdded { name, properties } => DiscoveryEvent::TopicAdded {
                name: name.clone(),
                properties: properties.duplicate(),
            },
            DiscoveryEvent::TopicRemoved { name } => DiscoveryEvent::TopicRemoved {
                name: name.clone(),
            },
            DiscoveryEvent::ServiceAdded { name, properties } => DiscoveryEvent::ServiceAdded {
                name: name.clone(),
                properties: properties.duplicate(),
            },
            DiscoveryEvent::ServiceRemoved { name } => DiscoveryEvent::ServiceRemoved {
                name: name.clone(),
            },
        }
    }
}

/// One event with the time at which it was emitted, in milliseconds since the
/// epoch: the unit that travels between processes.
#[derive(Debug, Clone, PartialEq, Eq)]
pub struct DiscoveryEventWrapper {
    pub ts: u64,
    pub event: DiscoveryEvent,
}

/// The model of a [`DiscoveryEventWrapper`].
pub struct EnvelopeModel {
    pub ts: u64,
    pub event: EventModel,
}

impl DeepView for DiscoveryEventWrapper {
    type V = EnvelopeModel;

    open spec fn deep_view(&self) -> EnvelopeModel {
        EnvelopeModel { ts: self.ts, event: self.event.deep_view() }
    }
}

impl Entity for DiscoveryEventWrapper {
    fn same(&self, other: &Self) -> (r: bool) {
        self.ts == other.ts && self.event.same(&other.event)
    }

    fn duplicate(&self) -> (r: Self) {
        DiscoveryEventWrapper { ts: self.ts, event: self.event.duplicate() }
    }
}

} // verus!
