//! Change tracking for the node, topic and service graph of a publish-subscribe
//! runtime.
//!
//! A [`state::RosState`] is one observation of the whole graph. Two
//! observations are compared by [`state::RosState::changes`], which lists what
//! was added and removed between them, and such events are folded into a
//! mirror of the graph by [`state::RosState::update`]. The module [`laws`]
//! states what holds of every such list.
//!
//! Around that core stand the two sides of an event stream. The sending side
//! ([`producer`]) turns each new observation into time-stamped events, and
//! [`framing`] lays them out as bytes. The receiving side ([`supervisor`])
//! keeps the sender running as a child process, mirrors what it reports and
//! says what goes out to subscribers; [`diagnosis`] words the failure when it
//! gives up. Neither side waits, reads or writes: the caller does, and reports
//! what it has seen.
//!
//! The graph itself is built from what the runtime reports by [`graph`], on
//! the [`mapping::Mapping`] that all keyed data is held in.

pub mod diagnosis;
pub mod entity;
pub mod equality;
pub mod framing;
pub mod graph;
pub mod laws;
pub mod mapping;
pub mod name;
pub mod producer;
pub mod select;
pub mod state;
pub mod supervisor;
pub mod types;
