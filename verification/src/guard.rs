//! The guard: configuration plus the tracker, one event at a time.

use vstd::prelude::*;

use crate::config::{effective_for, inherit, ActorOverride, Config, EffectiveConfig, GuardConfig};
use crate::event::{events_view, Event};
use crate::keyed::lemma_key_index;
use crate::tracker::{
    capacity_of, lemma_prune_keeps_shorter_windows, lemma_recorded_event_ends_window, lookup, prune,
    record_history, window_events,
    EntryView, Tracker, NANOS_PER_SEC,
};

verus! {

/// The longest window that `[guard]` or any actor override asks for.
pub open spec fn widest_window(base: u64, actors: Seq<(String, ActorOverride)>) -> u64
    decreases actors.len(),
{
    if actors.len() == 0 {
        base
    } else {
        let w = widest_window(base, actors.drop_last());
        let a = inherit(actors.last().1.window_secs, base);
        if a > w {
            a
        } else {
            w
        }
    }
}

/// The widest window is at least the default one and at least the window of
/// every override.
pub proof fn lemma_widest_window_bounds(base: u64, actors: Seq<(String, ActorOverride)>)
    ensures
        base <= widest_window(base, actors),
        forall|i: int|
            0 <= i < actors.len() ==> inherit(#[trigger] actors[i].1.window_secs, base)
                <= widest_window(base, actors),
    decreases actors.len(),
{
    if actors.len() > 0 {
        let d = actors.drop_last();
        lemma_widest_window_bounds(base, d);
        assert forall|i: int| 0 <= i < d.len() implies d[i] == actors[i] by {}
    }
}

/// The tracker keeps everything a check may ask for: every actor's effective
/// window is no longer than the window the tracker prunes with.
pub proof fn lemma_actor_window_within_retention(g: GuardConfig, id: Seq<char>)
    ensures
        effective_for(g, id).window_secs <= widest_window(g.window_secs, g.actors@),
{
    lemma_widest_window_bounds(g.window_secs, g.actors@);
    lemma_key_index(g.actors@, id);
}

/// Pruning at the guard's retention never loses an event that an actor's own
/// window would show: any history, pruned at the widest configured window,
/// shows every actor the same window as before pruning.
pub proof fn lemma_retention_loses_no_window_event(
    g: GuardConfig,
    id: Seq<char>,
    s: Seq<EntryView>,
    now: u128,
)
    ensures
        window_events(
            prune(s, now, (widest_window(g.window_secs, g.actors@) * NANOS_PER_SEC) as nat),
            now,
            (effective_for(g, id).window_secs * NANOS_PER_SEC) as nat,
        ) == window_events(s, now, (effective_for(g, id).window_secs * NANOS_PER_SEC) as nat),
{
    lemma_actor_window_within_retention(g, id);
    lemma_prune_keeps_shorter_windows(
        s,
        now,
        (widest_window(g.window_secs, g.actors@) * NANOS_PER_SEC) as nat,
        (effective_for(g, id).window_secs * NANOS_PER_SEC) as nat,
    );
}

/// The longest window in `config`, in seconds.
fn widest_window_secs(config: &GuardConfig) -> (w: u64)
    ensures
        w == widest_window(config.window_secs, config.actors@),
{
    let mut w = config.window_secs;
    let mut i: usize = 0;
    while i < config.actors.len()
        invariant
            i <= config.actors.len(),
            w == widest_window(config.window_secs, config.actors@.take(i as int)),
        decreases config.actors.len() - i,
    {
        let a = match config.actors[i].1.window_secs {
            Some(v) => v,
            None => config.window_secs,
        };
        if a > w {
            w = a;
        }
        assert(config.actors@.take(i + 1).drop_last() =~= config.actors@.take(i as int));
        i = i + 1;
    }
    assert(config.actors@.take(i as int) =~= config.actors@);
    w
}

/// Configuration and per-actor memory.
pub struct Guard {
    config: GuardConfig,
    tracker: Tracker,
}

impl Guard {
    /// The configuration the guard was made with.
    pub closed spec fn settings(&self) -> GuardConfig {
        self.config
    }

    /// The guard's memory of recent events.
    pub closed spec fn memory(&self) -> Tracker {
        self.tracker
    }

    /// The memory is well formed, capped as configured, and keeps events as
    /// long as the widest configured window.
    pub closed spec fn wf(&self) -> bool {
        &&& self.tracker.wf()
        &&& self.tracker.capacity() == capacity_of(self.config.max_actors)
        &&& self.tracker.max_window() == widest_window(self.config.window_secs, self.config.actors@)
            * NANOS_PER_SEC
    }

    /// A guard for `config`, whose memory keeps events as long as the widest
    /// window of `[guard]` or of any actor override.
    pub fn new(config: Config) -> (g: Guard)
        requires
            config.guard.max_actors matches Some(c) ==> c > 0,
        ensures
            g.wf(),
            g.settings() == config.guard,
            g.memory().history() == Seq::<(String, Seq<EntryView>)>::empty(),
            g.memory().capacity() == capacity_of(config.guard.max_actors),
            g.memory().latest_reading() == 0,
            g.memory().max_window() == widest_window(
                config.guard.window_secs,
                config.guard.actors@,
            ) * NANOS_PER_SEC,
    {
        let max_window_secs = widest_window_secs(&config.guard);
        let tracker = Tracker::new(max_window_secs, config.guard.max_actors);
        Guard { config: config.guard, tracker }
    }

    /// Records `event` at clock reading `now` and hands back the settings of
    /// its actor with the actor's events in that actor's window at `now`,
    /// oldest first: what a risk score for the event is computed from.
    pub fn observe_at(&mut self, event: &Event, now: u128) -> (seen: (EffectiveConfig, Vec<Event>))
        requires
            old(self).wf(),
        ensures
            final(self).wf(),
            final(self).memory().latest_reading() == old(self).memory().latest_reading(),
            final(self).settings() == old(self).settings(),
            seen.0 == effective_for(old(self).settings(), event.actor@),
            final(self).memory().history() == record_history(
                old(self).memory().history(),
                old(self).memory().capacity(),
                event.actor,
                EntryView { event: event@, recorded_at: now },
                old(self).memory().max_window(),
            ),
            events_view(seen.1@) == window_events(
                lookup(final(self).memory().history(), event.actor@),
                now,
                (seen.0.window_secs * NANOS_PER_SEC) as nat,
            ),
            events_view(seen.1@).len() > 0,
            events_view(seen.1@).last() == event@,
            forall|i: int| 0 <= i < seen.1.len() ==> #[trigger] seen.1@[i].actor@ == event.actor@,
    {
        let effective = self.config.for_actor(event.actor.as_str());
        self.tracker.record_at(event, now);
        let events = self.tracker.events_in_window_at(event.actor.as_str(), effective.window_secs, now);
        proof {
            lemma_recorded_event_ends_window(
                old(self).memory().history(),
                old(self).memory().capacity(),
                event.actor,
                EntryView { event: event@, recorded_at: now },
                old(self).memory().max_window(),
                (effective.window_secs * NANOS_PER_SEC) as nat,
            );
        }
        (effective, events)
    }

    /// Records `event` at a fresh reading of the guard's clock and hands back
    /// the settings of its actor with the actor's events in that actor's
    /// window at the same reading, oldest first: the window always ends with
    /// the event just recorded.
    pub fn observe(&mut self, event: &Event) -> (seen: (EffectiveConfig, Vec<Event>))
        requires
            old(self).wf(),
        ensures
            final(self).wf(),
            final(self).settings() == old(self).settings(),
            seen.0 == effective_for(old(self).settings(), event.actor@),
            final(self).memory().latest_reading() >= old(self).memory().latest_reading(),
            final(self).memory().history() == record_history(
                old(self).memory().history(),
                old(self).memory().capacity(),
                event.actor,
                EntryView { event: event@, recorded_at: final(self).memory().latest_reading() },
                old(self).memory().max_window(),
            ),
            events_view(seen.1@) == window_events(
                lookup(final(self).memory().history(), event.actor@),
                final(self).memory().latest_reading(),
                (seen.0.window_secs * NANOS_PER_SEC) as nat,
            ),
            events_view(seen.1@).len() > 0,
            events_view(seen.1@).last() == event@,
            exists|recorded: u128|
                final(self).memory().history() == #[trigger] record_history(
                    old(self).memory().history(),
                    old(self).memory().capacity(),
                    event.actor,
                    EntryView { event: event@, recorded_at: recorded },
                    old(self).memory().max_window(),
                ),
            exists|now: u128|
                events_view(seen.1@) == #[trigger] window_events(
                    lookup(final(self).memory().history(), event.actor@),
                    now,
                    (seen.0.window_secs * NANOS_PER_SEC) as nat,
                ),
            forall|i: int| 0 <= i < seen.1.len() ==> #[trigger] seen.1@[i].actor@ == event.actor@,
    {
        let now = self.tracker.take_reading();
        self.observe_at(event, now)
    }
}

} // verus!
