use pattern_guard::config::{ActorOverride, GuardConfig, RiskCombine};
use pattern_guard::config::{
    default_burst_max_events, default_hopping_max_targets, default_repetition_max_count,
    default_window_secs,
};
use pattern_guard::Real;

fn as_real(x: f64) -> Real {
    Real::from_bits(x.to_bits())
}

/// `[guard]` with every key at its documented default.
fn defaults() -> GuardConfig {
    GuardConfig {
        window_secs: default_window_secs(),
        burst_max_events: default_burst_max_events(),
        repetition_max_count: default_repetition_max_count(),
        hopping_max_targets: default_hopping_max_targets(),
        weight_max_total: as_real(1000.0),
        interval_secs: None,
        interval_tolerance_ratio: as_real(0.2),
        risk_combine: RiskCombine::default(),
        allow_below: as_real(0.3),
        warn_below: as_real(0.6),
        delay_below: as_real(0.85),
        delay_secs: as_real(5.0),
        max_actors: None,
        actors: Vec::new(),
    }
}

#[test]
fn default_values_match_the_schema() {
    assert_eq!(default_window_secs(), 300);
    assert_eq!(default_burst_max_events(), 100);
    assert_eq!(default_repetition_max_count(), 10);
    assert_eq!(default_hopping_max_targets(), 50);
    assert_eq!(RiskCombine::default(), RiskCombine::Max);
    assert_eq!(ActorOverride::default().window_secs, None);
}

#[test]
fn config_for_actor_inherits_parent_window() {
    // [guard] window_secs = 120, burst_max_events = 100
    // [guard.actors."bot"] burst_max_events = 5
    let mut g = defaults();
    g.window_secs = 120;
    g.burst_max_events = 100;
    let bot = ActorOverride { burst_max_events: Some(5), ..ActorOverride::default() };
    g.actors.push(("bot".to_string(), bot));
    let eff = g.for_actor("bot");
    assert_eq!(eff.burst_max_events, 5);
    assert_eq!(eff.window_secs, 120);
    let other = g.for_actor("other");
    assert_eq!(other.burst_max_events, 100);
    assert_eq!(other.window_secs, 120);
}

#[test]
fn config_for_actor_override_interval() {
    // [guard] interval_secs = 2.0
    // [guard.actors."fast"] interval_secs = 0.5
    let mut g = defaults();
    g.interval_secs = Some(as_real(2.0));
    let fast = ActorOverride { interval_secs: Some(as_real(0.5)), ..ActorOverride::default() };
    g.actors.push(("fast".to_string(), fast));
    assert_eq!(g.for_actor("fast").interval_secs, Some(as_real(0.5)));
    assert_eq!(g.for_actor("other").interval_secs, Some(as_real(2.0)));
}

#[test]
fn every_overridden_field_is_taken_from_the_actor() {
    let mut g = defaults();
    let o = ActorOverride {
        window_secs: Some(7),
        burst_max_events: Some(1),
        repetition_max_count: Some(2),
        hopping_max_targets: Some(3),
        weight_max_total: Some(as_real(4.0)),
        interval_secs: Some(as_real(5.0)),
        interval_tolerance_ratio: Some(as_real(0.5)),
        risk_combine: Some(RiskCombine::WeightedSum),
        allow_below: Some(as_real(0.1)),
        warn_below: Some(as_real(0.2)),
        delay_below: Some(as_real(0.3)),
        delay_secs: Some(as_real(9.0)),
    };
    g.actors.push(("svc".to_string(), o));
    let e = g.for_actor("svc");
    assert_eq!(e.window_secs, 7);
    assert_eq!(e.burst_max_events, 1);
    assert_eq!(e.repetition_max_count, 2);
    assert_eq!(e.hopping_max_targets, 3);
    assert_eq!(e.weight_max_total, as_real(4.0));
    assert_eq!(e.interval_secs, Some(as_real(5.0)));
    assert_eq!(e.interval_tolerance_ratio, as_real(0.5));
    assert_eq!(e.risk_combine, RiskCombine::WeightedSum);
    assert_eq!(e.allow_below, as_real(0.1));
    assert_eq!(e.warn_below, as_real(0.2));
    assert_eq!(e.delay_below, as_real(0.3));
    assert_eq!(e.delay_secs, as_real(9.0));
    let d = g.for_actor("nobody");
    assert_eq!(d.window_secs, 300);
    assert_eq!(d.weight_max_total, as_real(1000.0));
    assert_eq!(d.risk_combine, RiskCombine::Max);
}
