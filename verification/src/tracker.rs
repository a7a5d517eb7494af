//! Per-actor event store; prune on record.  Optional LRU cap on actor count.
//!
//! Windowing uses a monotonic clock read at `record` time, so wall-clock
//! adjustments cannot corrupt eviction.  The public `Event::timestamp` is kept
//! untouched for callers that need it.

use lru::LruCache;
use std::time::Instant;
use vstd::prelude::*;

use crate::clock::{clock_origin, nanos_since};
use crate::event::{events_view, Event, EventView};
use crate::keyed::{
    find_key, key_index, keys_unique, lemma_key_index, lemma_key_index_same_keys,
    lemma_key_index_unique,
};
use crate::lru_cache::{lru_capacity, lru_new, lru_peek, lru_pop, lru_push, lru_records};

verus! {

/// Nanoseconds in one second.
pub const NANOS_PER_SEC: u128 = 1_000_000_000;

/// One recorded event, with the clock reading (in nanoseconds since the
/// tracker was made) at which it was recorded.
pub struct Entry {
    pub event: Event,
    pub recorded_at: u128,
}

/// What a recorded entry says.
pub struct EntryView {
    pub event: EventView,
    pub recorded_at: u128,
}

impl View for Entry {
    type V = EntryView;

    open spec fn view(&self) -> EntryView {
        EntryView { event: self.event@, recorded_at: self.recorded_at }
    }
}

impl Entry {
    fn duplicate(&self) -> (e: Entry)
        ensures
            e@ == self@,
    {
        Entry { event: self.event.duplicate(), recorded_at: self.recorded_at }
    }
}

/// The entries of a history, as what they say.
pub open spec fn entries_view(v: Seq<Entry>) -> Seq<EntryView> {
    v.map_values(|e: Entry| e@)
}

/// How long before `now` the reading `at` was taken (zero if it lies ahead,
/// as `Instant::duration_since` saturates).
pub open spec fn age(now: u128, at: u128) -> nat {
    if now >= at {
        (now - at) as nat
    } else {
        0
    }
}

/// The entries of `s` that are at most `window` old at `now`, in order.
pub open spec fn prune(s: Seq<EntryView>, now: u128, window: nat) -> Seq<EntryView>
    decreases s.len(),
{
    if s.len() == 0 {
        Seq::empty()
    } else {
        let rest = prune(s.drop_last(), now, window);
        if age(now, s.last().recorded_at) <= window {
            rest.push(s.last())
        } else {
            rest
        }
    }
}

/// The events of the entries of `s` that are at most `window` old at `now`,
/// in order.
pub open spec fn window_events(s: Seq<EntryView>, now: u128, window: nat) -> Seq<EventView>
    decreases s.len(),
{
    if s.len() == 0 {
        Seq::empty()
    } else {
        let rest = window_events(s.drop_last(), now, window);
        if age(now, s.last().recorded_at) <= window {
            rest.push(s.last().event)
        } else {
            rest
        }
    }
}

/// The history of `actor`, empty if there is none.
pub open spec fn lookup(h: Seq<(String, Seq<EntryView>)>, actor: Seq<char>) -> Seq<EntryView> {
    let i = key_index(h, actor);
    if i >= 0 {
        h[i].1
    } else {
        Seq::empty()
    }
}

/// The histories after `entry` is recorded for `actor`: the actor's history
/// gains the entry and loses whatever is older than `window` at the entry's
/// reading, and becomes the most recent one; with a capacity, a store that
/// would overflow first drops its least recent history.
pub open spec fn record_history(
    h: Seq<(String, Seq<EntryView>)>,
    cap: Option<nat>,
    actor: String,
    entry: EntryView,
    window: nat,
) -> Seq<(String, Seq<EntryView>)> {
    let i = key_index(h, actor@);
    let previous = if i >= 0 {
        h[i].1
    } else {
        Seq::empty()
    };
    let rest = if i >= 0 {
        h.remove(i)
    } else {
        h
    };
    let kept = match cap {
        Some(c) => if rest.len() == c {
            rest.drop_first()
        } else {
            rest
        },
        None => rest,
    };
    kept.push((actor, prune(previous.push(entry), entry.recorded_at, window)))
}

/// Histories with one per actor, and no more than the capacity of them.
pub open spec fn well_formed_history(h: Seq<(String, Seq<EntryView>)>, cap: Option<nat>) -> bool {
    &&& keys_unique(h)
    &&& match cap {
        Some(c) => c > 0 && h.len() <= c,
        None => true,
    }
}

/// Every history holds only events of the actor it is kept under.
pub open spec fn histories_own_actors(h: Seq<(String, Seq<EntryView>)>) -> bool {
    forall|i: int, j: int|
        0 <= i < h.len() && 0 <= j < h[i].1.len() ==> #[trigger] h[i].1[j].event.actor == h[i].0@
}

/// Pruning keeps only entries that were there: if every entry is an event of
/// `actor`, so is every entry kept.
pub proof fn lemma_prune_keeps_actor(s: Seq<EntryView>, now: u128, window: nat, actor: Seq<char>)
    requires
        forall|k: int| 0 <= k < s.len() ==> #[trigger] s[k].event.actor == actor,
    ensures
        forall|j: int|
            0 <= j < prune(s, now, window).len() ==> #[trigger] prune(s, now, window)[j].event.actor
                == actor,
    decreases s.len(),
{
    if s.len() > 0 {
        let d = s.drop_last();
        assert forall|k: int| 0 <= k < d.len() implies #[trigger] d[k].event.actor == actor by {
            assert(d[k] == s[k]);
        }
        lemma_prune_keeps_actor(d, now, window, actor);
        assert(s[s.len() - 1].event.actor == actor);
    }
}

/// A window shows only events that were recorded: if every entry is an event
/// of `actor`, so is every event shown.
pub proof fn lemma_window_keeps_actor(s: Seq<EntryView>, now: u128, window: nat, actor: Seq<char>)
    requires
        forall|k: int| 0 <= k < s.len() ==> #[trigger] s[k].event.actor == actor,
    ensures
        forall|j: int|
            0 <= j < window_events(s, now, window).len() ==> #[trigger] window_events(
                s,
                now,
                window,
            )[j].actor == actor,
    decreases s.len(),
{
    if s.len() > 0 {
        let d = s.drop_last();
        assert forall|k: int| 0 <= k < d.len() implies #[trigger] d[k].event.actor == actor by {
            assert(d[k] == s[k]);
        }
        lemma_window_keeps_actor(d, now, window, actor);
        assert(s[s.len() - 1].event.actor == actor);
    }
}

/// Recording an event of `actor` under `actor` keeps every history to its
/// own actor's events.
pub proof fn lemma_record_keeps_own_actors(
    h: Seq<(String, Seq<EntryView>)>,
    cap: Option<nat>,
    actor: String,
    entry: EntryView,
    window: nat,
)
    requires
        well_formed_history(h, cap),
        histories_own_actors(h),
        entry.event.actor == actor@,
    ensures
        histories_own_actors(record_history(h, cap, actor, entry, window)),
{
    lemma_key_index(h, actor@);
    let i = key_index(h, actor@);
    let previous = if i >= 0 {
        h[i].1
    } else {
        Seq::<EntryView>::empty()
    };
    let rest = if i >= 0 {
        h.remove(i)
    } else {
        h
    };
    let kept = match cap {
        Some(c) => if rest.len() == c {
            rest.drop_first()
        } else {
            rest
        },
        None => rest,
    };
    let s = previous.push(entry);
    assert forall|k: int| 0 <= k < s.len() implies #[trigger] s[k].event.actor == actor@ by {
        if k < previous.len() {
            assert(h[i].1[k].event.actor == h[i].0@);
        }
    }
    lemma_prune_keeps_actor(s, entry.recorded_at, window, actor@);
    assert(histories_own_actors(rest)) by {
        assert forall|a: int, j: int|
            0 <= a < rest.len() && 0 <= j < rest[a].1.len() implies #[trigger] rest[a].1[j].event.actor
            == rest[a].0@ by {
            let o = if i >= 0 && a >= i {
                a + 1
            } else {
                a
            };
            assert(rest[a] == h[o]);
            assert(h[o].1[j].event.actor == h[o].0@);
        }
    }
    assert(histories_own_actors(kept)) by {
        assert forall|a: int, j: int|
            0 <= a < kept.len() && 0 <= j < kept[a].1.len() implies #[trigger] kept[a].1[j].event.actor
            == kept[a].0@ by {
            if cap is Some && rest.len() == cap->0 {
                assert(kept[a] == rest[a + 1]);
                assert(rest[a + 1].1[j].event.actor == rest[a + 1].0@);
            } else {
                assert(rest[a].1[j].event.actor == rest[a].0@);
            }
        }
    }
    let r = record_history(h, cap, actor, entry, window);
    assert forall|a: int, j: int| 0 <= a < r.len() && 0 <= j < r[a].1.len() implies #[trigger] r[a].1[j].event.actor
        == r[a].0@ by {
        if a < kept.len() {
            assert(r[a] == kept[a]);
            assert(kept[a].1[j].event.actor == kept[a].0@);
        } else {
            assert(r[a].1 == prune(s, entry.recorded_at, window));
            assert(prune(s, entry.recorded_at, window)[j].event.actor == actor@);
        }
    }
}

/// Every event in an actor's window is an event of that actor.
pub proof fn lemma_lookup_is_own(
    h: Seq<(String, Seq<EntryView>)>,
    actor: Seq<char>,
    now: u128,
    window: nat,
)
    requires
        histories_own_actors(h),
    ensures
        forall|j: int|
            0 <= j < window_events(lookup(h, actor), now, window).len() ==> #[trigger] window_events(
                lookup(h, actor),
                now,
                window,
            )[j].actor == actor,
{
    lemma_key_index(h, actor);
    let i = key_index(h, actor);
    let s = lookup(h, actor);
    assert forall|k: int| 0 <= k < s.len() implies #[trigger] s[k].event.actor == actor by {
        assert(h[i].1[k].event.actor == h[i].0@);
    }
    lemma_window_keeps_actor(s, now, window, actor);
}

/// The capacity that an optional actor cap sets.
pub open spec fn capacity_of(max_actors: Option<usize>) -> Option<nat> {
    match max_actors {
        Some(c) => Some(c as nat),
        None => None,
    }
}

/// Recording keeps histories well formed: one per actor, within the capacity.
pub proof fn lemma_record_keeps_well_formed(
    h: Seq<(String, Seq<EntryView>)>,
    cap: Option<nat>,
    actor: String,
    entry: EntryView,
    window: nat,
)
    requires
        well_formed_history(h, cap),
    ensures
        well_formed_history(record_history(h, cap, actor, entry, window), cap),
{
    lemma_key_index(h, actor@);
    let i = key_index(h, actor@);
    let rest = if i >= 0 {
        h.remove(i)
    } else {
        h
    };
    assert(forall|j: int| 0 <= j < rest.len() ==> rest[j].0@ != actor@);
    assert(keys_unique(rest));
    let r = record_history(h, cap, actor, entry, window);
    assert forall|a: int, b: int| 0 <= a < b < r.len() implies r[a].0@ != r[b].0@ by {
        let kept = match cap {
            Some(c) => if rest.len() == c {
                rest.drop_first()
            } else {
                rest
            },
            None => rest,
        };
        if b == r.len() - 1 {
            assert(r[a] == kept[a]);
        } else {
            assert(r[a] == kept[a] && r[b] == kept[b]);
        }
    }
}

/// Pruning keeps exactly what is fresh: every entry it keeps is at most
/// `window` old at `now`.
pub proof fn lemma_prune_keeps_only_fresh(s: Seq<EntryView>, now: u128, window: nat)
    ensures
        forall|j: int|
            0 <= j < prune(s, now, window).len() ==> age(now, #[trigger] prune(s, now, window)[j].recorded_at)
                <= window,
    decreases s.len(),
{
    if s.len() > 0 {
        lemma_prune_keeps_only_fresh(s.drop_last(), now, window);
    }
}

/// Windowing goes by the clock readings taken at recording alone: histories
/// whose entries were recorded at the same readings keep and show the same
/// positions, whatever the events themselves (their timestamps included) say.
pub proof fn lemma_windowing_ignores_event_content(
    s: Seq<EntryView>,
    t: Seq<EntryView>,
    now: u128,
    window: nat,
)
    requires
        s.len() == t.len(),
        forall|i: int| 0 <= i < s.len() ==> #[trigger] s[i].recorded_at == t[i].recorded_at,
    ensures
        prune(s, now, window).len() == prune(t, now, window).len(),
        forall|j: int|
            0 <= j < prune(s, now, window).len() ==> #[trigger] prune(s, now, window)[j].recorded_at
                == prune(t, now, window)[j].recorded_at,
        window_events(s, now, window).len() == window_events(t, now, window).len(),
    decreases s.len(),
{
    if s.len() > 0 {
        let (ds, dt) = (s.drop_last(), t.drop_last());
        assert forall|i: int| 0 <= i < ds.len() implies #[trigger] ds[i].recorded_at
            == dt[i].recorded_at by {
            assert(ds[i] == s[i] && dt[i] == t[i]);
        }
        lemma_windowing_ignores_event_content(ds, dt, now, window);
        assert(s.last().recorded_at == t.last().recorded_at);
    }
}

/// Pruning at a window loses nothing that a window no longer than it would
/// show at the same reading.
pub proof fn lemma_prune_keeps_shorter_windows(s: Seq<EntryView>, now: u128, kept: nat, asked: nat)
    requires
        asked <= kept,
    ensures
        window_events(prune(s, now, kept), now, asked) == window_events(s, now, asked),
    decreases s.len(),
{
    if s.len() > 0 {
        let d = s.drop_last();
        lemma_prune_keeps_shorter_windows(d, now, kept, asked);
        let p = prune(d, now, kept);
        if age(now, s.last().recorded_at) <= kept {
            let q = p.push(s.last());
            assert(q.drop_last() =~= p);
            assert(q.last() == s.last());
        }
    }
}

/// Read after write, later: a window read at a reading no earlier than an
/// event's recording, and no further from it than the window's length, ends
/// with that event.
pub proof fn lemma_recorded_event_in_later_window(
    h: Seq<(String, Seq<EntryView>)>,
    cap: Option<nat>,
    actor: String,
    entry: EntryView,
    window: nat,
    now: u128,
    asked: nat,
)
    requires
        well_formed_history(h, cap),
        now >= entry.recorded_at,
        now - entry.recorded_at <= asked,
    ensures
        ({
            let seen = window_events(
                lookup(record_history(h, cap, actor, entry, window), actor@),
                now,
                asked,
            );
            seen.len() > 0 && seen.last() == entry.event
        }),
{
    lemma_key_index(h, actor@);
    let r = record_history(h, cap, actor, entry, window);
    lemma_record_keeps_well_formed(h, cap, actor, entry, window);
    lemma_key_index_unique(r, actor@, r.len() - 1);
    let i = key_index(h, actor@);
    let previous = if i >= 0 {
        h[i].1
    } else {
        Seq::<EntryView>::empty()
    };
    let s = previous.push(entry);
    assert(s.drop_last() =~= previous);
    let p = prune(s, entry.recorded_at, window);
    assert(p == prune(previous, entry.recorded_at, window).push(entry));
    assert(lookup(r, actor@) == p);
    assert(p.drop_last() =~= prune(previous, entry.recorded_at, window));
}

/// Read after write: right after an event is recorded, the window of its
/// actor at that same reading, whatever its length, ends with that event.
pub proof fn lemma_recorded_event_ends_window(
    h: Seq<(String, Seq<EntryView>)>,
    cap: Option<nat>,
    actor: String,
    entry: EntryView,
    window: nat,
    asked: nat,
)
    requires
        well_formed_history(h, cap),
    ensures
        ({
            let seen = window_events(
                lookup(record_history(h, cap, actor, entry, window), actor@),
                entry.recorded_at,
                asked,
            );
            seen.len() > 0 && seen.last() == entry.event
        }),
{
    lemma_key_index(h, actor@);
    let r = record_history(h, cap, actor, entry, window);
    lemma_record_keeps_well_formed(h, cap, actor, entry, window);
    lemma_key_index_unique(r, actor@, r.len() - 1);
    let i = key_index(h, actor@);
    let previous = if i >= 0 {
        h[i].1
    } else {
        Seq::<EntryView>::empty()
    };
    let s = previous.push(entry);
    assert(s.drop_last() =~= previous);
    let p = prune(s, entry.recorded_at, window);
    assert(p == prune(previous, entry.recorded_at, window).push(entry));
    assert(lookup(r, actor@) == p);
    assert(p.drop_last() =~= prune(previous, entry.recorded_at, window));
}

/// Recording for one actor leaves every other actor's history as it was; with
/// a cap on actors, another actor's history can only disappear as a whole.
pub proof fn lemma_record_leaves_others_alone(
    h: Seq<(String, Seq<EntryView>)>,
    cap: Option<nat>,
    actor: String,
    entry: EntryView,
    window: nat,
    other: Seq<char>,
)
    requires
        well_formed_history(h, cap),
        other != actor@,
    ensures
        key_index(record_history(h, cap, actor, entry, window), other) >= 0 ==> lookup(
            record_history(h, cap, actor, entry, window),
            other,
        ) == lookup(h, other),
        cap is None ==> lookup(record_history(h, cap, actor, entry, window), other) == lookup(
            h,
            other,
        ),
{
    let r = record_history(h, cap, actor, entry, window);
    lemma_record_keeps_well_formed(h, cap, actor, entry, window);
    lemma_key_index(h, actor@);
    lemma_key_index(h, other);
    lemma_key_index(r, other);
    let i = key_index(h, actor@);
    let rest = if i >= 0 {
        h.remove(i)
    } else {
        h
    };
    let kept = match cap {
        Some(c) => if rest.len() == c {
            rest.drop_first()
        } else {
            rest
        },
        None => rest,
    };
    assert(forall|j: int| 0 <= j < kept.len() ==> r[j] == kept[j]);
    let m = key_index(r, other);
    if m >= 0 {
        // the pair found in the new histories stood somewhere in the old ones
        let n = if cap is Some && rest.len() == cap->0 {
            m + 1
        } else {
            m
        };
        assert(kept[m] == rest[n]);
        let o = if i >= 0 && n >= i {
            n + 1
        } else {
            n
        };
        assert(rest[n] == h[o]);
        lemma_key_index_unique(h, other, o);
    }
    if cap is None && key_index(h, other) >= 0 {
        let o = key_index(h, other);
        let n = if i >= 0 && o > i {
            o - 1
        } else {
            o
        };
        assert(rest[n] == h[o]);
        assert(r[n] == rest[n]);
    }
}

/// Bounded memory: when the store is at its cap and a new actor is recorded,
/// the least recently recorded actor's history is the one that goes.
pub proof fn lemma_full_store_drops_least_recent(
    h: Seq<(String, Seq<EntryView>)>,
    c: nat,
    actor: String,
    entry: EntryView,
    window: nat,
)
    requires
        well_formed_history(h, Some(c)),
        key_index(h, actor@) < 0,
        h.len() == c,
    ensures
        record_history(h, Some(c), actor, entry, window).len() == c,
        key_index(record_history(h, Some(c), actor, entry, window), h[0].0@) < 0,
{
    let r = record_history(h, Some(c), actor, entry, window);
    lemma_key_index(h, actor@);
    lemma_key_index(r, h[0].0@);
    assert(forall|j: int| 0 <= j < r.len() - 1 ==> r[j] == h[j + 1]);
}

enum Store {
    Unbounded(Vec<(String, Vec<Entry>)>),
    Bounded(LruCache<String, Vec<Entry>>),
}

/// Recent events per actor, each stamped with a monotonic clock reading.
pub struct Tracker {
    store: Store,
    max_window_nanos: u128,
    clock: Instant,
    latest: u128,
}

/// The entries of `entries` and then `entry`, without those older than
/// `window` at `now`.
fn push_and_prune(entries: Vec<Entry>, entry: Entry, now: u128, window: u128) -> (kept: Vec<Entry>)
    ensures
        entries_view(kept@) == prune(entries_view(entries@).push(entry@), now, window as nat),
{
    let ghost wanted = entries_view(entries@).push(entry@);
    let mut all = entries;
    all.push(entry);
    assert(entries_view(all@) =~= wanted);
    let mut kept: Vec<Entry> = Vec::new();
    let mut i: usize = 0;
    while i < all.len()
        invariant
            i <= all.len(),
            entries_view(all@) == wanted,
            entries_view(kept@) == prune(wanted.take(i as int), now, window as nat),
        decreases all.len() - i,
    {
        let at = all[i].recorded_at;
        let age: u128 = if now >= at {
            now - at
        } else {
            0
        };
        let ghost before = kept@;
        if age <= window {
            kept.push(all[i].duplicate());
            assert(entries_view(kept@) =~= entries_view(before).push(all@[i as int]@));
        }
        assert(wanted.take(i + 1).drop_last() =~= wanted.take(i as int));
        assert(wanted.take(i + 1).last() == all@[i as int]@);
        i = i + 1;
    }
    assert(wanted.take(all.len() as int) =~= wanted);
    kept
}

/// The events of the entries that are at most `window` old at `now`.
fn collect_window(entries: &Vec<Entry>, now: u128, window: u128) -> (events: Vec<Event>)
    ensures
        events_view(events@) == window_events(entries_view(entries@), now, window as nat),
{
    let ghost all = entries_view(entries@);
    let mut events: Vec<Event> = Vec::new();
    let mut i: usize = 0;
    while i < entries.len()
        invariant
            i <= entries.len(),
            all == entries_view(entries@),
            events_view(events@) == window_events(all.take(i as int), now, window as nat),
        decreases entries.len() - i,
    {
        let at = entries[i].recorded_at;
        let age: u128 = if now >= at {
            now - at
        } else {
            0
        };
        let ghost before = events@;
        if age <= window {
            events.push(entries[i].event.duplicate());
            assert(events_view(events@) =~= events_view(before).push(entries@[i as int].event@));
        }
        assert(all.take(i + 1).drop_last() =~= all.take(i as int));
        assert(all.take(i + 1).last() == entries@[i as int]@);
        i = i + 1;
    }
    assert(all.take(entries.len() as int) =~= all);
    events
}

/// The history of `actor` taken out of `logs`, or an empty one.
fn take_log(logs: &mut Vec<(String, Vec<Entry>)>, actor: &String) -> (entries: Vec<Entry>)
    ensures
        key_index(old(logs)@, actor@) >= 0 ==> {
            let i = key_index(old(logs)@, actor@);
            &&& entries == old(logs)@[i].1
            &&& final(logs)@ == old(logs)@.remove(i)
        },
        key_index(old(logs)@, actor@) < 0 ==> {
            &&& entries@ == Seq::<Entry>::empty()
            &&& final(logs)@ == old(logs)@
        },
{
    proof {
        lemma_key_index(logs@, actor@);
    }
    match find_key(logs, actor) {
        Some(i) => {
            let (_, entries) = logs.remove(i);
            entries
        },
        None => Vec::new(),
    }
}

impl Store {
    /// The histories held, least recently recorded actor first.
    closed spec fn logs(self) -> Seq<(String, Vec<Entry>)> {
        match self {
            Store::Unbounded(v) => v@,
            Store::Bounded(c) => lru_records(c),
        }
    }

    closed spec fn history(self) -> Seq<(String, Seq<EntryView>)> {
        self.logs().map_values(|p: (String, Vec<Entry>)| (p.0, entries_view(p.1@)))
    }

    closed spec fn capacity(self) -> Option<nat> {
        match self {
            Store::Unbounded(_) => None,
            Store::Bounded(c) => Some(lru_capacity(c)),
        }
    }
}

impl Tracker {
    /// The histories, one per actor, as stored (least recent first).
    closed spec fn raw_logs(&self) -> Seq<(String, Vec<Entry>)> {
        self.store.logs()
    }

    /// The recorded histories, one per actor, from the least recently
    /// recorded actor to the most recent one.
    pub closed spec fn history(&self) -> Seq<(String, Seq<EntryView>)> {
        self.store.history()
    }

    /// The cap on the number of actors kept, if any.
    pub closed spec fn capacity(&self) -> Option<nat> {
        self.store.capacity()
    }

    /// The latest reading taken from the tracker's clock (zero before any).
    pub closed spec fn latest_reading(&self) -> u128 {
        self.latest
    }

    /// How old (in nanoseconds) an entry may grow before it is pruned.
    pub closed spec fn max_window(&self) -> nat {
        self.max_window_nanos as nat
    }

    /// One history per actor, holding only that actor's events, and no more
    /// histories than the cap allows.
    pub open spec fn wf(&self) -> bool {
        &&& well_formed_history(self.history(), self.capacity())
        &&& histories_own_actors(self.history())
    }

    /// Every tracker is well formed.
    #[verifier::type_invariant]
    closed spec fn tracker_is_well_formed(self) -> bool {
        self.wf()
    }

    proof fn lemma_history_keys(&self)
        ensures
            self.history().len() == self.raw_logs().len(),
            forall|k: Seq<char>| key_index(self.history(), k) == key_index(self.raw_logs(), k),
            forall|i: int|
                0 <= i < self.history().len() ==> #[trigger] self.history()[i] == (
                    self.raw_logs()[i].0,
                    entries_view(self.raw_logs()[i].1@),
                ),
    {
        assert forall|k: Seq<char>| key_index(self.history(), k) == key_index(self.raw_logs(), k) by {
            lemma_key_index_same_keys(self.history(), self.raw_logs(), k);
        }
    }

    /// A tracker that prunes entries older than `max_window_secs` and, when
    /// `max_actors` is set, keeps the histories of at most that many actors.
    pub fn new(max_window_secs: u64, max_actors: Option<usize>) -> (t: Tracker)
        requires
            max_actors matches Some(c) ==> c > 0,
        ensures
            t.wf(),
            t.history() == Seq::<(String, Seq<EntryView>)>::empty(),
            t.capacity() == capacity_of(max_actors),
            t.max_window() == max_window_secs * NANOS_PER_SEC,
            t.latest_reading() == 0,
    {
        let store = match max_actors {
            Some(cap) => Store::Bounded(lru_new(cap)),
            None => Store::Unbounded(Vec::new()),
        };
        assert(store.history() =~= Seq::<(String, Seq<EntryView>)>::empty());
        Tracker {
            store,
            max_window_nanos: max_window_secs as u128 * NANOS_PER_SEC,
            clock: clock_origin(),
            latest: 0,
        }
    }

    /// Records `event` at clock reading `now`.
    pub fn record_at(&mut self, event: &Event, now: u128)
        ensures
            final(self).wf(),
            final(self).latest_reading() == old(self).latest_reading(),
            final(self).capacity() == old(self).capacity(),
            final(self).max_window() == old(self).max_window(),
            final(self).history() == record_history(
                old(self).history(),
                old(self).capacity(),
                event.actor,
                EntryView { event: event@, recorded_at: now },
                old(self).max_window(),
            ),
    {
        proof {
            use_type_invariant(&*self);
        }
        let ghost h = self.history();
        let ghost raw = self.raw_logs();
        let ghost cap = self.capacity();
        let ghost entry_view = EntryView { event: event@, recorded_at: now };
        proof {
            self.lemma_history_keys();
            lemma_key_index(raw, event.actor@);
            lemma_record_keeps_well_formed(h, cap, event.actor, entry_view, self.max_window());
            lemma_record_keeps_own_actors(h, cap, event.actor, entry_view, self.max_window());
        }
        let entry = Entry { event: event.duplicate(), recorded_at: now };
        let window = self.max_window_nanos;
        let actor = event.actor.clone();
        let ghost i = key_index(raw, event.actor@);
        let ghost rest = if i >= 0 {
            raw.remove(i)
        } else {
            raw
        };
        let ghost previous_view = if i >= 0 {
            h[i].1
        } else {
            Seq::<EntryView>::empty()
        };
        let ghost kept = match cap {
            Some(c) => if rest.len() == c {
                rest.drop_first()
            } else {
                rest
            },
            None => rest,
        };
        let ghost mut fresh_view: Seq<EntryView>;
        let mut store = Store::Unbounded(Vec::new());
        assert(store.history() =~= Seq::<(String, Seq<EntryView>)>::empty());
        std::mem::swap(&mut store, &mut self.store);
        match &mut store {
            Store::Unbounded(logs) => {
                let previous = take_log(logs, &actor);
                assert(entries_view(previous@) =~= previous_view);
                let fresh = push_and_prune(previous, entry, now, window);
                proof {
                    fresh_view = entries_view(fresh@);
                }
                logs.push((actor, fresh));
            },
            Store::Bounded(cache) => {
                let previous = match lru_pop(cache, &actor) {
                    Some(v) => v,
                    None => Vec::new(),
                };
                assert(entries_view(previous@) =~= previous_view);
                proof {
                    let after = lru_records(*cache);
                    assert(forall|j: int| 0 <= j < raw.len() ==> #[trigger] raw[j].0 == h[j].0);
                    assert(forall|j: int| 0 <= j < after.len() ==> after[j].0@ != actor@);
                    lemma_key_index(after, actor@);
                }
                let fresh = push_and_prune(previous, entry, now, window);
                proof {
                    fresh_view = entries_view(fresh@);
                }
                let _ = lru_push(cache, actor, fresh);
            },
        }
        proof {
            let f = |p: (String, Vec<Entry>)| (p.0, entries_view(p.1@));
            assert(h == raw.map_values(f));
            assert(fresh_view == prune(previous_view.push(entry_view), now, (window as nat)));
            if i >= 0 {
                assert(h.remove(i) =~= rest.map_values(f));
            }
            if rest.len() > 0 {
                assert(rest.drop_first().map_values(f) =~= rest.map_values(f).drop_first());
            }
            assert(store.logs().len() == kept.len() + 1);
            assert(store.history() =~= kept.map_values(f).push((event.actor, fresh_view)));
            assert(store.history() =~= record_history(h, cap, event.actor, entry_view, (window as nat)));
        }
        self.store = store;
    }

    /// The events recorded for `actor` that are at most `window_secs` old at
    /// clock reading `now`, oldest first.
    pub fn events_in_window_at(&self, actor: &str, window_secs: u64, now: u128) -> (events: Vec<Event>)
        ensures
            events_view(events@) == window_events(
                lookup(self.history(), actor@),
                now,
                (window_secs * NANOS_PER_SEC) as nat,
            ),
            forall|i: int| 0 <= i < events.len() ==> #[trigger] events@[i].actor@ == actor@,
    {
        proof {
            use_type_invariant(self);
            self.lemma_history_keys();
            lemma_key_index(self.raw_logs(), actor@);
            lemma_lookup_is_own(self.history(), actor@, now, (window_secs * NANOS_PER_SEC) as nat);
        }
        let key = actor.to_owned();
        let window: u128 = window_secs as u128 * NANOS_PER_SEC;
        let events = match &self.store {
            Store::Unbounded(logs) => match find_key(logs, &key) {
                Some(i) => {
                    assert(lookup(self.history(), actor@) == entries_view(logs@[i as int].1@));
                    collect_window(&logs[i].1, now, window)
                },
                None => {
                    assert(window_events(Seq::empty(), now, window as nat) =~= Seq::empty());
                    Vec::new()
                },
            },
            Store::Bounded(cache) => match lru_peek(cache, &key) {
                Some(entries) => {
                    assert(lookup(self.history(), actor@) == entries_view(entries@));
                    collect_window(entries, now, window)
                },
                None => {
                    assert(window_events(Seq::empty(), now, window as nat) =~= Seq::empty());
                    Vec::new()
                },
            },
        };
        proof {
            assert forall|i: int| 0 <= i < events.len() implies #[trigger] events@[i].actor@ == events_view(
                events@,
            )[i].actor by {}
        }
        events
    }

    /// The tracker's clock now: nanoseconds since the tracker was made, never
    /// less than the latest reading taken.
    fn current_reading(&self) -> (now: u128)
        ensures
            now >= self.latest_reading(),
    {
        let raw = nanos_since(&self.clock);
        if raw < self.latest {
            self.latest
        } else {
            raw
        }
    }

    /// Takes a reading of the tracker's clock: it is no earlier than any
    /// reading taken before, and becomes the latest one.
    pub fn take_reading(&mut self) -> (now: u128)
        ensures
            now >= old(self).latest_reading(),
            final(self).latest_reading() == now,
            final(self).history() == old(self).history(),
            final(self).capacity() == old(self).capacity(),
            final(self).max_window() == old(self).max_window(),
            final(self).wf(),
    {
        proof {
            use_type_invariant(&*self);
        }
        let now = self.current_reading();
        self.latest = now;
        now
    }

    /// Records `event` at a fresh reading of the tracker's clock, which
    /// becomes the latest reading.
    pub fn record(&mut self, event: &Event)
        ensures
            final(self).wf(),
            final(self).capacity() == old(self).capacity(),
            final(self).max_window() == old(self).max_window(),
            final(self).latest_reading() >= old(self).latest_reading(),
            final(self).history() == record_history(
                old(self).history(),
                old(self).capacity(),
                event.actor,
                EntryView { event: event@, recorded_at: final(self).latest_reading() },
                old(self).max_window(),
            ),
            exists|now: u128|
                final(self).history() == #[trigger] record_history(
                    old(self).history(),
                    old(self).capacity(),
                    event.actor,
                    EntryView { event: event@, recorded_at: now },
                    old(self).max_window(),
                ),
    {
        let now = self.take_reading();
        self.record_at(event, now);
    }

    /// The events recorded for `actor` that are at most `window_secs` old at
    /// the current reading of the tracker's clock (no earlier than its latest
    /// reading), oldest first.
    pub fn events_in_window(&self, actor: &str, window_secs: u64) -> (events: Vec<Event>)
        ensures
            exists|now: u128|
                now >= self.latest_reading() && events_view(events@) == #[trigger] window_events(
                    lookup(self.history(), actor@),
                    now,
                    (window_secs * NANOS_PER_SEC) as nat,
                ),
            forall|i: int| 0 <= i < events.len() ==> #[trigger] events@[i].actor@ == actor@,
    {
        let now = self.current_reading();
        self.events_in_window_at(actor, window_secs, now)
    }
}

} // verus!
