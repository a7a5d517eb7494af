//! Configuration: `[guard]` defaults for every actor, merged with per-actor
//! overrides under `[guard.actors."id"]`.

use vstd::prelude::*;

use crate::keyed::{find_key, key_index};
use crate::numeric::Real;

verus! {

/// How independent pattern risks are merged into one score.
#[derive(Debug, Clone, Copy, PartialEq, Eq, Structural)]
pub enum RiskCombine {
    Max,
    WeightedSum,
}

impl Default for RiskCombine {
    fn default() -> (r: RiskCombine)
        ensures
            r == RiskCombine::Max,
    {
        RiskCombine::Max
    }
}

/// The whole configuration file.
pub struct Config {
    pub guard: GuardConfig,
}

/// The `[guard]` section.
pub struct GuardConfig {
    /// Default sliding window, in seconds.
    pub window_secs: u64,
    /// Burst: most events in the window before risk.
    pub burst_max_events: u32,
    /// Repetition: most events with the same (action, target) in the window.
    pub repetition_max_count: u32,
    /// Target hopping: most distinct targets in the window.
    pub hopping_max_targets: u32,
    /// Weighted overuse: largest sum of weights in the window.
    pub weight_max_total: Real,
    /// Fixed interval: expected period in seconds; `None` disables the check.
    pub interval_secs: Option<Real>,
    /// Fixed interval: accepted deviation, as a ratio of the period.
    pub interval_tolerance_ratio: Real,
    pub risk_combine: RiskCombine,
    /// Risk below this allows.
    pub allow_below: Real,
    /// Risk below this (and not below `allow_below`) warns.
    pub warn_below: Real,
    /// Risk below this (and not below `warn_below`) delays; above blocks.
    pub delay_below: Real,
    /// Suggested delay, in seconds.
    pub delay_secs: Real,
    /// When set (and never zero), at most this many distinct actors are
    /// retained; least-recently-used actors are dropped.
    pub max_actors: Option<usize>,
    /// Per-actor overrides, by actor id.
    pub actors: Vec<(String, ActorOverride)>,
}

/// Per-actor fields; omitted ones inherit from `[guard]`.
#[derive(Debug, Clone, Copy, PartialEq, Eq, Structural)]
pub struct ActorOverride {
    pub window_secs: Option<u64>,
    pub burst_max_events: Option<u32>,
    pub repetition_max_count: Option<u32>,
    pub hopping_max_targets: Option<u32>,
    pub weight_max_total: Option<Real>,
    pub interval_secs: Option<Real>,
    pub interval_tolerance_ratio: Option<Real>,
    pub risk_combine: Option<RiskCombine>,
    pub allow_below: Option<Real>,
    pub warn_below: Option<Real>,
    pub delay_below: Option<Real>,
    pub delay_secs: Option<Real>,
}

/// The settings that apply to one actor.
#[derive(Debug, Clone, Copy, PartialEq, Eq, Structural)]
pub struct EffectiveConfig {
    pub window_secs: u64,
    pub burst_max_events: u32,
    pub repetition_max_count: u32,
    pub hopping_max_targets: u32,
    pub weight_max_total: Real,
    pub interval_secs: Option<Real>,
    pub interval_tolerance_ratio: Real,
    pub risk_combine: RiskCombine,
    pub allow_below: Real,
    pub warn_below: Real,
    pub delay_below: Real,
    pub delay_secs: Real,
}

/// An override that sets nothing.
pub open spec fn no_override() -> ActorOverride {
    ActorOverride {
        window_secs: None,
        burst_max_events: None,
        repetition_max_count: None,
        hopping_max_targets: None,
        weight_max_total: None,
        interval_secs: None,
        interval_tolerance_ratio: None,
        risk_combine: None,
        allow_below: None,
        warn_below: None,
        delay_below: None,
        delay_secs: None,
    }
}

impl Default for ActorOverride {
    fn default() -> (o: ActorOverride)
        ensures
            o == no_override(),
    {
        ActorOverride {
            window_secs: None,
            burst_max_events: None,
            repetition_max_count: None,
            hopping_max_targets: None,
            weight_max_total: None,
            interval_secs: None,
            interval_tolerance_ratio: None,
            risk_combine: None,
            allow_below: None,
            warn_below: None,
            delay_below: None,
            delay_secs: None,
        }
    }
}

/// A set value, or the inherited one.
pub open spec fn inherit<T>(set: Option<T>, parent: T) -> T {
    match set {
        Some(v) => v,
        None => parent,
    }
}

/// A set optional value, or the inherited one.
pub open spec fn inherit_option<T>(set: Option<T>, parent: Option<T>) -> Option<T> {
    match set {
        Some(v) => Some(v),
        None => parent,
    }
}

/// The override of the actor whose id reads `id`, if there is one.
pub open spec fn override_for(actors: Seq<(String, ActorOverride)>, id: Seq<char>) -> Option<
    ActorOverride,
> {
    let i = key_index(actors, id);
    if i >= 0 {
        Some(actors[i].1)
    } else {
        None
    }
}

/// The settings of `g`, with every field that `o` sets taken from `o`.
pub open spec fn merged(g: GuardConfig, o: ActorOverride) -> EffectiveConfig {
    EffectiveConfig {
        window_secs: inherit(o.window_secs, g.window_secs),
        burst_max_events: inherit(o.burst_max_events, g.burst_max_events),
        repetition_max_count: inherit(o.repetition_max_count, g.repetition_max_count),
        hopping_max_targets: inherit(o.hopping_max_targets, g.hopping_max_targets),
        weight_max_total: inherit(o.weight_max_total, g.weight_max_total),
        interval_secs: inherit_option(o.interval_secs, g.interval_secs),
        interval_tolerance_ratio: inherit(o.interval_tolerance_ratio, g.interval_tolerance_ratio),
        risk_combine: inherit(o.risk_combine, g.risk_combine),
        allow_below: inherit(o.allow_below, g.allow_below),
        warn_below: inherit(o.warn_below, g.warn_below),
        delay_below: inherit(o.delay_below, g.delay_below),
        delay_secs: inherit(o.delay_secs, g.delay_secs),
    }
}

/// The settings that apply to the actor whose id reads `id`.
pub open spec fn effective_for(g: GuardConfig, id: Seq<char>) -> EffectiveConfig {
    match override_for(g.actors@, id) {
        Some(o) => merged(g, o),
        None => merged(g, no_override()),
    }
}

/// Inheritance: an actor without an override gets every `[guard]` value, and
/// an override that sets a field decides that field alone.
pub proof fn lemma_overrides_inherit_from_guard(g: GuardConfig, id: Seq<char>)
    ensures
        override_for(g.actors@, id) is None ==> effective_for(g, id) == merged(g, no_override()),
        merged(g, no_override()) == (EffectiveConfig {
            window_secs: g.window_secs,
            burst_max_events: g.burst_max_events,
            repetition_max_count: g.repetition_max_count,
            hopping_max_targets: g.hopping_max_targets,
            weight_max_total: g.weight_max_total,
            interval_secs: g.interval_secs,
            interval_tolerance_ratio: g.interval_tolerance_ratio,
            risk_combine: g.risk_combine,
            allow_below: g.allow_below,
            warn_below: g.warn_below,
            delay_below: g.delay_below,
            delay_secs: g.delay_secs,
        }),
        override_for(g.actors@, id) matches Some(o) ==> {
            &&& (o.window_secs matches Some(v) ==> effective_for(g, id).window_secs == v)
            &&& (o.window_secs is None ==> effective_for(g, id).window_secs == g.window_secs)
            &&& (o.burst_max_events matches Some(v) ==> effective_for(g, id).burst_max_events == v)
            &&& (o.burst_max_events is None ==> effective_for(g, id).burst_max_events
                == g.burst_max_events)
            &&& (o.interval_secs matches Some(v) ==> effective_for(g, id).interval_secs == Some(v))
            &&& (o.interval_secs is None ==> effective_for(g, id).interval_secs == g.interval_secs)
        },
{
}

/// Every field of an actor's settings: a field its override sets is taken
/// from the override; a field the override leaves unset, or any field of an
/// actor without an override, is the `[guard]` value.
pub proof fn lemma_every_field_inherits(g: GuardConfig, id: Seq<char>)
    ensures
        override_for(g.actors@, id) is None ==> {
            &&& effective_for(g, id).window_secs == g.window_secs
            &&& effective_for(g, id).burst_max_events == g.burst_max_events
            &&& effective_for(g, id).repetition_max_count == g.repetition_max_count
            &&& effective_for(g, id).hopping_max_targets == g.hopping_max_targets
            &&& effective_for(g, id).weight_max_total == g.weight_max_total
            &&& effective_for(g, id).interval_secs == g.interval_secs
            &&& effective_for(g, id).interval_tolerance_ratio == g.interval_tolerance_ratio
            &&& effective_for(g, id).risk_combine == g.risk_combine
            &&& effective_for(g, id).allow_below == g.allow_below
            &&& effective_for(g, id).warn_below == g.warn_below
            &&& effective_for(g, id).delay_below == g.delay_below
            &&& effective_for(g, id).delay_secs == g.delay_secs
        },
        override_for(g.actors@, id) matches Some(o) ==> {
            &&& (o.window_secs matches Some(v) ==> effective_for(g, id).window_secs == v)
            &&& (o.window_secs is None ==> effective_for(g, id).window_secs == g.window_secs)
            &&& (o.burst_max_events matches Some(v) ==> effective_for(g, id).burst_max_events == v)
            &&& (o.burst_max_events is None ==> effective_for(g, id).burst_max_events == g.burst_max_events)
            &&& (o.repetition_max_count matches Some(v) ==> effective_for(g, id).repetition_max_count == v)
            &&& (o.repetition_max_count is None ==> effective_for(g, id).repetition_max_count == g.repetition_max_count)
            &&& (o.hopping_max_targets matches Some(v) ==> effective_for(g, id).hopping_max_targets == v)
            &&& (o.hopping_max_targets is None ==> effective_for(g, id).hopping_max_targets == g.hopping_max_targets)
            &&& (o.weight_max_total matches Some(v) ==> effective_for(g, id).weight_max_total == v)
            &&& (o.weight_max_total is None ==> effective_for(g, id).weight_max_total == g.weight_max_total)
            &&& (o.interval_secs matches Some(v) ==> effective_for(g, id).interval_secs == Some(v))
            &&& (o.interval_secs is None ==> effective_for(g, id).interval_secs == g.interval_secs)
            &&& (o.interval_tolerance_ratio matches Some(v) ==> effective_for(g, id).interval_tolerance_ratio == v)
            &&& (o.interval_tolerance_ratio is None ==> effective_for(g, id).interval_tolerance_ratio == g.interval_tolerance_ratio)
            &&& (o.risk_combine matches Some(v) ==> effective_for(g, id).risk_combine == v)
            &&& (o.risk_combine is None ==> effective_for(g, id).risk_combine == g.risk_combine)
            &&& (o.allow_below matches Some(v) ==> effective_for(g, id).allow_below == v)
            &&& (o.allow_below is None ==> effective_for(g, id).allow_below == g.allow_below)
            &&& (o.warn_below matches Some(v) ==> effective_for(g, id).warn_below == v)
            &&& (o.warn_below is None ==> effective_for(g, id).warn_below == g.warn_below)
            &&& (o.delay_below matches Some(v) ==> effective_for(g, id).delay_below == v)
            &&& (o.delay_below is None ==> effective_for(g, id).delay_below == g.delay_below)
            &&& (o.delay_secs matches Some(v) ==> effective_for(g, id).delay_secs == v)
            &&& (o.delay_secs is None ==> effective_for(g, id).delay_secs == g.delay_secs)
        },
{
}

/// Default sliding window, in seconds.
pub fn default_window_secs() -> (r: u64)
    ensures
        r == 300,
{
    300
}

/// Default burst limit.
pub fn default_burst_max_events() -> (r: u32)
    ensures
        r == 100,
{
    100
}

/// Default repetition limit.
pub fn default_repetition_max_count() -> (r: u32)
    ensures
        r == 10,
{
    10
}

/// Default limit on distinct targets.
pub fn default_hopping_max_targets() -> (r: u32)
    ensures
        r == 50,
{
    50
}

fn pick<T: Copy>(set: Option<T>, parent: T) -> (r: T)
    ensures
        r == inherit(set, parent),
{
    match set {
        Some(v) => v,
        None => parent,
    }
}

fn pick_option<T: Copy>(set: Option<T>, parent: Option<T>) -> (r: Option<T>)
    ensures
        r == inherit_option(set, parent),
{
    match set {
        Some(v) => Some(v),
        None => parent,
    }
}

impl GuardConfig {
    /// Effective config: `[guard]` values merged with `[guard.actors."id"]`
    /// when present.
    pub fn for_actor(&self, actor_id: &str) -> (eff: EffectiveConfig)
        ensures
            eff == effective_for(*self, actor_id@),
    {
        let id = actor_id.to_owned();
        let o = match find_key(&self.actors, &id) {
            Some(i) => self.actors[i].1,
            None => ActorOverride::default(),
        };
        EffectiveConfig {
            window_secs: pick(o.window_secs, self.window_secs),
            burst_max_events: pick(o.burst_max_events, self.burst_max_events),
            repetition_max_count: pick(o.repetition_max_count, self.repetition_max_count),
            hopping_max_targets: pick(o.hopping_max_targets, self.hopping_max_targets),
            weight_max_total: pick(o.weight_max_total, self.weight_max_total),
            interval_secs: pick_option(o.interval_secs, self.interval_secs),
            interval_tolerance_ratio: pick(o.interval_tolerance_ratio, self.interval_tolerance_ratio),
            risk_combine: pick(o.risk_combine, self.risk_combine),
            allow_below: pick(o.allow_below, self.allow_below),
            warn_below: pick(o.warn_below, self.warn_below),
            delay_below: pick(o.delay_below, self.delay_below),
            delay_secs: pick(o.delay_secs, self.delay_secs),
        }
    }
}

} // verus!
