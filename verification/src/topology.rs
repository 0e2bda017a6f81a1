//! Cluster and node topology records, and observability events: plain
//! value types with fresh identifiers.

use crate::util::fresh_event_id;
use vstd::prelude::*;
use vstd::string::StringExecFns;

verus! {

#[derive(Clone, Debug)]
pub struct ClusterId(pub String);

impl ClusterId {
    pub fn new() -> (r: ClusterId)
        ensures
            r.0@.len() == 36,
    {
        ClusterId(fresh_event_id())
    }
}

#[derive(Clone, Copy, Debug, PartialEq, Eq, Structural)]
pub enum ClusterRole {
    Master,
    Worker,
    Validator,
    Storage,
}

#[derive(Clone, Debug)]
pub struct Cluster {
    pub id: ClusterId,
    pub name: String,
    pub role: ClusterRole,
    pub eco_profile: String,
    pub ethical_profile: String,
}

impl Cluster {
    /// A fresh cluster with the default eco and ethics profiles.
    pub fn new(name: &str, role: ClusterRole) -> (r: Cluster)
        ensures
            r.name@ == name@,
            r.role == role,
            r.eco_profile@ == "eco_friendly"@,
            r.ethical_profile@ == "harm_aware_safe"@,
            r.id.0@.len() == 36,
    {
        Cluster {
            id: ClusterId::new(),
            name: String::from_str(name),
            role,
            eco_profile: String::from_str("eco_friendly"),
            ethical_profile: String::from_str("harm_aware_safe"),
        }
    }
}

#[derive(Clone, Debug)]
pub struct NodeId(pub String);

impl NodeId {
    pub fn new() -> (r: NodeId)
        ensures
            r.0@.len() == 36,
    {
        NodeId(fresh_event_id())
    }
}

#[derive(Clone, Copy, Debug, PartialEq, Eq, Structural)]
pub enum NodeKind {
    Cpu,
    Gpu,
    ArVr,
    Storage,
}

#[derive(Clone, Debug)]
pub struct Node {
    pub id: NodeId,
    pub cluster_id: String,
    pub kind: NodeKind,
    pub capacity_score: u32,
    pub eco_cost_score: u32,
}

impl Node {
    /// A fresh node with the default capacity and eco-cost scores.
    pub fn new(cluster_id: &str, kind: NodeKind) -> (r: Node)
        ensures
            r.cluster_id@ == cluster_id@,
            r.kind == kind,
            r.capacity_score == 100,
            r.eco_cost_score == 10,
            r.id.0@.len() == 36,
    {
        Node {
            id: NodeId::new(),
            cluster_id: String::from_str(cluster_id),
            kind,
            capacity_score: 100,
            eco_cost_score: 10,
        }
    }
}

#[derive(Clone, Debug)]
pub struct EventId(pub String);

impl EventId {
    pub fn new() -> (r: EventId)
        ensures
            r.0@.len() == 36,
    {
        EventId(fresh_event_id())
    }
}

#[derive(Clone, Copy, Debug, PartialEq, Eq, Structural)]
pub enum EventKind {
    JobStarted,
    JobFinished,
    PolicyViolation,
}

#[derive(Clone, Debug)]
pub struct Event {
    pub id: EventId,
    pub kind: EventKind,
    pub description: String,
}

impl Event {
    pub fn new(kind: EventKind, description: &str) -> (r: Event)
        ensures
            r.kind == kind,
            r.description@ == description@,
            r.id.0@.len() == 36,
    {
        Event { id: EventId::new(), kind, description: String::from_str(description) }
    }
}

} // verus!
