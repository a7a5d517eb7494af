//! One observation: who, what, what was hit, when.

use std::collections::HashMap;
use vstd::prelude::*;

use crate::numeric::{Real, ONE_BITS};

verus! {

/// One observation of behaviour.
#[derive(Debug, Clone)]
pub struct Event {
    /// Who caused it (user, IP, service, script).
    pub actor: String,
    /// What was done (GET, POST, run, query).
    pub action: String,
    /// What was affected (endpoint, command, resource).
    pub target: String,
    /// When it happened, in nanoseconds since the Unix epoch (negative before it).
    pub timestamp: i128,
    /// Cost/impact for weighted overuse; 1.0 if unset.
    pub weight: Option<Real>,
    /// Tags or context; never read by the guard.
    pub metadata: Option<HashMap<String, String>>,
}

/// What an event says, as mathematical values.
pub struct EventView {
    pub actor: Seq<char>,
    pub action: Seq<char>,
    pub target: Seq<char>,
    pub timestamp: i128,
    pub weight: Option<Real>,
    pub metadata: Option<Map<String, String>>,
}

/// The metadata of an event, as a map.
pub open spec fn metadata_view(m: Option<HashMap<String, String>>) -> Option<Map<String, String>> {
    match m {
        Some(h) => Some(h@),
        None => None,
    }
}

impl View for Event {
    type V = EventView;

    open spec fn view(&self) -> EventView {
        EventView {
            actor: self.actor@,
            action: self.action@,
            target: self.target@,
            timestamp: self.timestamp,
            weight: self.weight,
            metadata: metadata_view(self.metadata),
        }
    }
}

/// The events of a sequence, as what they say.
pub open spec fn events_view(v: Seq<Event>) -> Seq<EventView> {
    v.map_values(|e: Event| e@)
}

impl Event {
    /// An event with no weight and no metadata.
    pub fn new(actor: String, action: String, target: String, timestamp: i128) -> (e: Event)
        ensures
            e.actor == actor,
            e.action == action,
            e.target == target,
            e.timestamp == timestamp,
            e.weight.is_none(),
            e.metadata.is_none(),
    {
        Event { actor, action, target, timestamp, weight: None, metadata: None }
    }

    /// The same event with its weight set.
    pub fn with_weight(self, weight: Real) -> (e: Event)
        ensures
            e.weight == Some(weight),
            e.actor == self.actor,
            e.action == self.action,
            e.target == self.target,
            e.timestamp == self.timestamp,
            e.metadata == self.metadata,
    {
        let mut e = self;
        e.weight = Some(weight);
        e
    }

    /// The same event with its metadata set.
    pub fn with_metadata(self, metadata: HashMap<String, String>) -> (e: Event)
        ensures
            e.metadata == Some(metadata),
            e.actor == self.actor,
            e.action == self.action,
            e.target == self.target,
            e.timestamp == self.timestamp,
            e.weight == self.weight,
    {
        let mut e = self;
        e.metadata = Some(metadata);
        e
    }

    /// The weight of the event: its own, or 1.0 if unset.
    pub fn effective_weight(&self) -> (w: Real)
        ensures
            w == (match self.weight {
                Some(v) => v,
                None => Real { bits: ONE_BITS },
            }),
    {
        match self.weight {
            Some(v) => v,
            None => Real { bits: ONE_BITS },
        }
    }

    /// A copy of this event that says the same.
    pub fn duplicate(&self) -> (e: Event)
        ensures
            e@ == self@,
    {
        let metadata = match &self.metadata {
            Some(m) => Some(m.clone()),
            None => None,
        };
        Event {
            actor: self.actor.clone(),
            action: self.action.clone(),
            target: self.target.clone(),
            timestamp: self.timestamp,
            weight: self.weight,
            metadata,
        }
    }
}

} // verus!
