use pattern_guard::config::{ActorOverride, GuardConfig, RiskCombine};
use pattern_guard::decision::decide;
use pattern_guard::{Config, Decision, Event, Guard, Real};
use std::time::Duration;

fn as_real(x: f64) -> Real {
    Real::from_bits(x.to_bits())
}

fn config(window_secs: u64, max_actors: Option<usize>) -> Config {
    Config {
        guard: GuardConfig {
            window_secs,
            burst_max_events: 3,
            repetition_max_count: 10,
            hopping_max_targets: 50,
            weight_max_total: as_real(1000.0),
            interval_secs: None,
            interval_tolerance_ratio: as_real(0.2),
            risk_combine: RiskCombine::Max,
            allow_below: as_real(0.3),
            warn_below: as_real(0.6),
            delay_below: as_real(0.85),
            delay_secs: as_real(5.0),
            max_actors,
            actors: Vec::new(),
        },
    }
}

fn ev(actor: &str, target: &str) -> Event {
    Event::new(actor.to_string(), "run".to_string(), target.to_string(), 0)
}

#[test]
fn observed_event_closes_its_window() {
    let mut g = Guard::new(config(60, None));
    let (eff, events) = g.observe_at(&ev("a", "t1"), 0);
    assert_eq!(eff.window_secs, 60);
    assert_eq!(events.len(), 1);
    let (_, events) = g.observe_at(&ev("a", "t2"), 1);
    assert_eq!(events.len(), 2);
    assert_eq!(events[1].target, "t2");
    let (_, events) = g.observe(&ev("a", "t3"));
    assert_eq!(events.last().unwrap().target, "t3");
}

#[test]
fn actor_window_uses_override_and_memory_keeps_widest() {
    let mut c = config(10, None);
    let slow = ActorOverride { window_secs: Some(100), ..ActorOverride::default() };
    c.guard.actors.push(("slow".to_string(), slow));
    let mut g = Guard::new(c);
    let sec: u128 = 1_000_000_000;
    g.observe_at(&ev("slow", "x"), 0);
    let (eff, events) = g.observe_at(&ev("slow", "y"), 50 * sec);
    assert_eq!(eff.window_secs, 100);
    // the first event is 50 s old, beyond the default window but kept for "slow"
    assert_eq!(events.len(), 2);
    g.observe_at(&ev("fast", "x"), 0);
    let (eff, events) = g.observe_at(&ev("fast", "y"), 50 * sec);
    assert_eq!(eff.window_secs, 10);
    assert_eq!(events.len(), 1);
}

#[test]
fn guard_with_actor_cap_forgets_least_recent() {
    let mut g = Guard::new(config(60, Some(1)));
    g.observe_at(&ev("a", "x"), 0);
    g.observe_at(&ev("b", "x"), 1);
    let (_, events) = g.observe_at(&ev("a", "y"), 2);
    assert_eq!(events.len(), 1);
}

#[test]
fn decide_maps_bands() {
    let d = Duration::from_secs(5);
    assert_eq!(decide(true, true, true, d), Decision::Allow);
    assert_eq!(decide(false, true, true, d), Decision::Warn);
    assert_eq!(decide(false, false, true, d), Decision::Delay(d));
    assert_eq!(decide(false, false, false, d), Decision::Block);
}

#[test]
fn event_builders_set_fields() {
    let mut md = std::collections::HashMap::new();
    md.insert("k".to_string(), "v".to_string());
    let e = Event::new("a".to_string(), "b".to_string(), "c".to_string(), -3)
        .with_weight(as_real(1.5))
        .with_metadata(md.clone());
    assert_eq!(e.weight, Some(as_real(1.5)));
    assert_eq!(e.metadata, Some(md));
    assert_eq!(e.timestamp, -3);
    assert_eq!(f64::from_bits(e.effective_weight().bits), 1.5);
    let plain = Event::new("a".to_string(), "b".to_string(), "c".to_string(), 0);
    assert_eq!(f64::from_bits(plain.effective_weight().bits), 1.0);
    let d = e.duplicate();
    assert_eq!(d.actor, "a");
    assert_eq!(d.metadata, e.metadata);
    assert_eq!(d.weight, e.weight);
}
