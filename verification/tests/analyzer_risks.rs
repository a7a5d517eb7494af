use pattern_guard::analyzer::{
    burst_risk, distinct_target_count, hopping_risk, max_repetition, repetition_risk,
    sorted_epoch_offsets, Ratio,
};
use pattern_guard::Event;

fn as_f64(r: Ratio) -> f64 {
    r.numerator as f64 / r.denominator as f64
}

fn ev(action: &str, target: &str, timestamp: i128) -> Event {
    Event::new("a".to_string(), action.to_string(), target.to_string(), timestamp)
}

#[test]
fn burst_risk_below_threshold() {
    assert_eq!(as_f64(burst_risk(0, 100)), 0.0);
    assert_eq!(as_f64(burst_risk(100, 100)), 0.0);
}

#[test]
fn burst_risk_above_threshold() {
    assert!(as_f64(burst_risk(101, 100)) > 0.0);
    assert_eq!(as_f64(burst_risk(200, 100)), 1.0);
}

#[test]
fn burst_risk_exact_fractions() {
    assert_eq!(burst_risk(130, 100), Ratio { numerator: 30, denominator: 100 });
    assert_eq!(burst_risk(250, 100), Ratio { numerator: 1, denominator: 1 });
    assert_eq!(burst_risk(1, 0), Ratio { numerator: 1, denominator: 1 });
    assert_eq!(burst_risk(0, 0), Ratio { numerator: 0, denominator: 1 });
    assert_eq!(as_f64(burst_risk(7, 5)), ((7 - 5) as f64 / 5.0_f64).min(1.0));
}

#[test]
fn repetition_risk_pattern() {
    let mut events = Vec::new();
    for _ in 0..6 {
        events.push(Event::new("a".to_string(), "GET".to_string(), "/x".to_string(), 0));
    }
    assert!(as_f64(repetition_risk(&events, 5)) > 0.0);
    assert_eq!(as_f64(repetition_risk(&events, 10)), 0.0);
}

#[test]
fn repetition_counts_action_and_target_together() {
    let events = vec![
        ev("GET", "/x", 0),
        ev("POST", "/x", 0),
        ev("GET", "/y", 0),
        ev("GET", "/x", 0),
        ev("POST", "/x", 0),
        ev("GET", "/x", 0),
    ];
    assert_eq!(max_repetition(&events), 3);
    assert_eq!(repetition_risk(&events, 2), Ratio { numerator: 1, denominator: 2 });
    assert_eq!(max_repetition(&[]), 0);
}

#[test]
fn hopping_risk_pattern() {
    let mut events = Vec::new();
    for t in ["/a", "/b", "/c", "/d", "/e", "/f"] {
        events.push(Event::new("a".to_string(), "GET".to_string(), t.to_string(), 0));
    }
    assert!(as_f64(hopping_risk(&events, 3)) > 0.0);
    assert_eq!(as_f64(hopping_risk(&events, 10)), 0.0);
}

#[test]
fn hopping_counts_distinct_targets_only() {
    let events = vec![
        ev("GET", "/a", 0),
        ev("POST", "/a", 0),
        ev("GET", "/b", 0),
        ev("GET", "/c", 0),
        ev("GET", "/b", 0),
    ];
    assert_eq!(distinct_target_count(&events), 3);
    assert_eq!(hopping_risk(&events, 2), Ratio { numerator: 1, denominator: 2 });
}

#[test]
fn epoch_offsets_are_sorted_and_clamped() {
    let events = vec![
        ev("x", "y", 30_000_000_000),
        ev("x", "y", -5),
        ev("x", "y", 10_000_000_000),
        ev("x", "y", 30_000_000_000),
        ev("x", "y", 20_000_000_000),
    ];
    assert_eq!(
        sorted_epoch_offsets(&events),
        vec![0, 10_000_000_000, 20_000_000_000, 30_000_000_000, 30_000_000_000]
    );
    assert!(sorted_epoch_offsets(&[]).is_empty());
}
