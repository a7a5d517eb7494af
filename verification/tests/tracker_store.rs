use pattern_guard::tracker::Tracker;
use pattern_guard::Event;

fn ev(actor: &str, timestamp: i128) -> Event {
    Event::new(actor.to_string(), "run".to_string(), "x".to_string(), timestamp)
}

const SEC: u128 = 1_000_000_000;

#[test]
fn tracker_record_and_window() {
    let mut t = Tracker::new(60, None);
    let event = ev("a", 1_700_000_000_000_000_000);
    t.record(&event);
    t.record(&event);
    t.record(&event);
    let events = t.events_in_window("a", 60);
    assert_eq!(events.len(), 3);
    assert!(t.events_in_window("b", 60).is_empty());
}

#[test]
fn tracker_lru_evicts_least_recent_actor() {
    let mut t = Tracker::new(60, Some(2));
    let now = 1_700_000_000_000_000_000;
    t.record(&ev("a1", now));
    t.record(&ev("a2", now));
    t.record(&ev("a3", now));
    assert!(t.events_in_window("a1", 60).is_empty());
    assert!(!t.events_in_window("a2", 60).is_empty());
    assert!(!t.events_in_window("a3", 60).is_empty());
}

#[test]
fn tracker_ignores_stale_event_timestamp() {
    // An ancient event timestamp does not matter: windowing goes by the
    // clock reading taken when the event is recorded.
    let mut t = Tracker::new(60, None);
    t.record(&ev("a", 0));
    assert_eq!(t.events_in_window("a", 60).len(), 1);
}

#[test]
fn recording_refreshes_recency_before_eviction() {
    let mut t = Tracker::new(60, Some(2));
    t.record_at(&ev("a1", 0), 0);
    t.record_at(&ev("a2", 0), 1);
    t.record_at(&ev("a1", 0), 2);
    t.record_at(&ev("a3", 0), 3);
    assert_eq!(t.events_in_window_at("a1", 60, 3).len(), 2);
    assert!(t.events_in_window_at("a2", 60, 3).is_empty());
    assert_eq!(t.events_in_window_at("a3", 60, 3).len(), 1);
}

#[test]
fn window_keeps_only_recent_readings() {
    let mut t = Tracker::new(100, None);
    t.record_at(&ev("a", 1), 0);
    t.record_at(&ev("a", 2), 30 * SEC);
    t.record_at(&ev("a", 3), 60 * SEC);
    let recent = t.events_in_window_at("a", 30, 60 * SEC);
    assert_eq!(recent.iter().map(|e| e.timestamp).collect::<Vec<_>>(), vec![2, 3]);
    let all = t.events_in_window_at("a", 100, 60 * SEC);
    assert_eq!(all.len(), 3);
    // a later reading than the last record keeps the window moving
    let later = t.events_in_window_at("a", 30, 95 * SEC);
    assert!(later.is_empty());
}

#[test]
fn record_prunes_beyond_the_longest_window() {
    let mut t = Tracker::new(10, None);
    t.record_at(&ev("a", 1), 0);
    t.record_at(&ev("a", 2), 10 * SEC);
    t.record_at(&ev("a", 3), 10 * SEC + 1);
    // the first entry is pruned once it is older than ten seconds
    let kept = t.events_in_window_at("a", 1_000, 10 * SEC + 1);
    assert_eq!(kept.iter().map(|e| e.timestamp).collect::<Vec<_>>(), vec![2, 3]);
}

#[test]
fn readings_ahead_of_now_count_as_fresh() {
    let mut t = Tracker::new(10, None);
    t.record_at(&ev("a", 1), 50 * SEC);
    assert_eq!(t.events_in_window_at("a", 0, 20 * SEC).len(), 1);
}

#[test]
fn window_returns_what_was_recorded() {
    let mut t = Tracker::new(60, None);
    let e = Event::new("u".to_string(), "GET".to_string(), "/p".to_string(), 42)
        .with_weight(pattern_guard::Real::from_bits(2.5f64.to_bits()));
    t.record_at(&e, 5);
    let got = t.events_in_window_at("u", 60, 5);
    assert_eq!(got.len(), 1);
    assert_eq!(got[0].actor, "u");
    assert_eq!(got[0].action, "GET");
    assert_eq!(got[0].target, "/p");
    assert_eq!(got[0].timestamp, 42);
    assert_eq!(got[0].weight.map(|w| f64::from_bits(w.bits)), Some(2.5));
}

#[test]
fn other_actors_are_left_alone() {
    let mut t = Tracker::new(60, None);
    t.record_at(&ev("a", 1), 0);
    t.record_at(&ev("b", 2), 1);
    t.record_at(&ev("a", 3), 2);
    let b = t.events_in_window_at("b", 60, 2);
    assert_eq!(b.len(), 1);
    assert_eq!(b[0].timestamp, 2);
}

#[test]
fn window_holds_only_the_asked_actor() {
    let mut t = Tracker::new(60, Some(3));
    for (i, actor) in ["a", "b", "a", "c", "b", "a"].iter().enumerate() {
        t.record_at(&ev(actor, i as i128), i as u128);
    }
    let a = t.events_in_window_at("a", 60, 6);
    assert_eq!(a.len(), 3);
    assert!(a.iter().all(|e| e.actor == "a"));
    let b = t.events_in_window_at("b", 60, 6);
    assert_eq!(b.iter().map(|e| e.timestamp).collect::<Vec<_>>(), vec![1, 4]);
    assert!(b.iter().all(|e| e.actor == "b"));
}
