//! Risk from patterns: how far an actor's window departs from its limits.
//!
//! The overuse risks are exact fractions in [0, 1]; the floating-point risks
//! (weighted overuse, interval regularity) and their combination are computed
//! by the caller from what this module measures.

use vstd::prelude::*;

use crate::event::{events_view, Event, EventView};

verus! {

/// A risk in [0, 1], held exactly as `numerator / denominator`.
#[derive(Debug, Clone, Copy, PartialEq, Eq, Structural)]
pub struct Ratio {
    pub numerator: u64,
    pub denominator: u64,
}

/// How far `observed` exceeds `limit`, relative to `limit` and capped at one,
/// as (numerator, denominator): zero up to the limit, one from twice the limit
/// on (and as soon as anything is observed over a limit of zero).
pub open spec fn overuse(observed: nat, limit: nat) -> (nat, nat) {
    if observed <= limit {
        (0, 1)
    } else if limit == 0 || observed - limit >= limit {
        (1, 1)
    } else {
        ((observed - limit) as nat, limit)
    }
}

/// Every overuse risk is a fraction in [0, 1]: its denominator is positive
/// and its numerator no larger.
pub proof fn lemma_overuse_in_unit_range(observed: nat, limit: nat)
    ensures
        overuse(observed, limit).1 > 0,
        overuse(observed, limit).0 <= overuse(observed, limit).1,
{
}

/// The overuse risk in full: zero up to the limit; above a positive limit,
/// exactly the excess over the limit as a share of the limit, as long as that
/// share is below one; one from twice the limit on, and for anything observed
/// over a zero limit.
pub proof fn lemma_overuse_is_excess_share(observed: nat, limit: nat)
    ensures
        observed <= limit ==> overuse(observed, limit).0 == 0,
        0 < limit < observed < 2 * limit ==> {
            &&& overuse(observed, limit).0 * limit == (observed - limit) * overuse(observed, limit).1
            &&& overuse(observed, limit).0 < overuse(observed, limit).1
        },
        (limit == 0 && observed > 0) || (limit > 0 && observed >= 2 * limit) ==> overuse(
            observed,
            limit,
        ).0 == overuse(observed, limit).1,
{
    if 0 < limit < observed < 2 * limit {
        let n = (observed - limit) as nat;
        assert(overuse(observed, limit) == (n, limit));
        assert(n * limit == (observed - limit) * limit);
    }
}

/// Overuse risk never falls as more is observed against the same limit
/// (fractions compared by cross-multiplication).
pub proof fn lemma_overuse_monotone(fewer: nat, more: nat, limit: nat)
    requires
        fewer <= more,
    ensures
        overuse(fewer, limit).0 * overuse(more, limit).1 <= overuse(more, limit).0 * overuse(
            fewer,
            limit,
        ).1,
{
    let (a, b) = overuse(fewer, limit);
    let (c, d) = overuse(more, limit);
    if fewer <= limit {
        assert(a == 0);
        assert(a * d == 0);
        assert(c * b >= 0);
    } else if limit == 0 || more - limit >= limit {
        assert(c == 1 && d == 1);
        assert(a <= b);
        assert(a * d <= c * b) by (nonlinear_arith)
            requires
                c == 1,
                d == 1,
                a <= b,
        ;
    } else {
        assert(b == limit && d == limit);
        assert(a <= c);
        assert(a * d <= c * b) by (nonlinear_arith)
            requires
                a <= c,
                b == d,
        ;
    }
}

/// The fraction of a ratio, as (numerator, denominator).
pub open spec fn fraction(r: Ratio) -> (nat, nat) {
    (r.numerator as nat, r.denominator as nat)
}

/// `observed` against `limit`, as an overuse risk.
fn overuse_ratio(observed: u64, limit: u32) -> (r: Ratio)
    ensures
        fraction(r) == overuse(observed as nat, limit as nat),
{
    let n = limit as u64;
    if observed <= n {
        Ratio { numerator: 0, denominator: 1 }
    } else if n == 0 || observed - n >= n {
        Ratio { numerator: 1, denominator: 1 }
    } else {
        Ratio { numerator: observed - n, denominator: n }
    }
}

/// Burst: how far the number of events in the window exceeds `max_events`.
pub fn burst_risk(count: usize, max_events: u32) -> (r: Ratio)
    ensures
        fraction(r) == overuse(count as nat, max_events as nat),
{
    overuse_ratio(count as u64, max_events)
}

/// How many events of `s` have action `action` and target `target`.
pub open spec fn pair_count(s: Seq<EventView>, action: Seq<char>, target: Seq<char>) -> nat
    decreases s.len(),
{
    if s.len() == 0 {
        0
    } else {
        pair_count(s.drop_last(), action, target) + if s.last().action == action
            && s.last().target == target {
            1nat
        } else {
            0nat
        }
    }
}

/// The largest `pair_count` of the (action, target) pairs of the first `k`
/// events of `s`, counted over all of `s`.
pub open spec fn most_repeated_upto(s: Seq<EventView>, k: int) -> nat
    decreases k,
{
    if k <= 0 {
        0
    } else {
        let best = most_repeated_upto(s, k - 1);
        let here = pair_count(s, s[k - 1].action, s[k - 1].target);
        if here > best {
            here
        } else {
            best
        }
    }
}

/// How often the most frequent (action, target) pair of `s` occurs.
pub open spec fn most_repeated(s: Seq<EventView>) -> nat {
    most_repeated_upto(s, s.len() as int)
}

/// The repetition count is the count of the most frequent pair: no
/// (action, target) pair of the window occurs more often, some pair of a
/// non-empty window occurs exactly that often, and an empty window counts zero.
pub proof fn lemma_most_repeated_is_maximum(s: Seq<EventView>)
    ensures
        forall|i: int|
            0 <= i < s.len() ==> pair_count(s, s[i].action, s[i].target) <= most_repeated(s),
        s.len() > 0 ==> exists|i: int|
            0 <= i < s.len() && pair_count(s, s[i].action, s[i].target) == most_repeated(s),
        s.len() == 0 ==> most_repeated(s) == 0,
{
    lemma_most_repeated_upto(s, s.len() as int);
}

proof fn lemma_most_repeated_upto(s: Seq<EventView>, k: int)
    requires
        0 <= k <= s.len(),
    ensures
        forall|i: int|
            0 <= i < k ==> pair_count(s, s[i].action, s[i].target) <= most_repeated_upto(s, k),
        k > 0 ==> exists|i: int|
            0 <= i < k && pair_count(s, s[i].action, s[i].target) == most_repeated_upto(s, k),
        k == 0 ==> most_repeated_upto(s, k) == 0,
    decreases k,
{
    if k > 0 {
        lemma_most_repeated_upto(s, k - 1);
        let here = pair_count(s, s[k - 1].action, s[k - 1].target);
        if k - 1 > 0 && here <= most_repeated_upto(s, k - 1) {
            let w = choose|i: int|
                0 <= i < k - 1 && pair_count(s, s[i].action, s[i].target) == most_repeated_upto(
                    s,
                    k - 1,
                );
            assert(0 <= w < k && pair_count(s, s[w].action, s[w].target) == most_repeated_upto(s, k));
        } else {
            assert(pair_count(s, s[k - 1].action, s[k - 1].target) == most_repeated_upto(s, k));
        }
    }
}

/// The distinct targets of `s`.
pub open spec fn targets(s: Seq<EventView>) -> Set<Seq<char>> {
    s.map_values(|e: EventView| e.target).to_set()
}

/// How many events of `events` share the action and target of `events[i]`.
fn count_pair(events: &[Event], i: usize) -> (n: usize)
    requires
        i < events.len(),
    ensures
        n == pair_count(events_view(events@), events@[i as int].action@, events@[i as int].target@),
{
    let ghost s = events_view(events@);
    let ghost a = events@[i as int].action@;
    let ghost t = events@[i as int].target@;
    let mut n: usize = 0;
    let mut j: usize = 0;
    while j < events.len()
        invariant
            j <= events.len(),
            i < events.len(),
            s == events_view(events@),
            a == events@[i as int].action@,
            t == events@[i as int].target@,
            n == pair_count(s.take(j as int), a, t),
            n <= j,
        decreases events.len() - j,
    {
        assert(s.take(j + 1).drop_last() =~= s.take(j as int));
        if events[j].action == events[i].action && events[j].target == events[i].target {
            n = n + 1;
        }
        j = j + 1;
    }
    assert(s.take(events.len() as int) =~= s);
    n
}

/// How often the most frequent (action, target) pair of `events` occurs.
pub fn max_repetition(events: &[Event]) -> (m: usize)
    ensures
        m == most_repeated(events_view(events@)),
{
    let ghost s = events_view(events@);
    let mut best: usize = 0;
    let mut i: usize = 0;
    while i < events.len()
        invariant
            i <= events.len(),
            s == events_view(events@),
            best == most_repeated_upto(s, i as int),
        decreases events.len() - i,
    {
        let here = count_pair(events, i);
        if here > best {
            best = here;
        }
        i = i + 1;
    }
    best
}

/// Repetition: how far the count of the most frequent (action, target) pair
/// in the window exceeds `max_count`.
pub fn repetition_risk(events: &[Event], max_count: u32) -> (r: Ratio)
    ensures
        fraction(r) == overuse(most_repeated(events_view(events@)), max_count as nat),
{
    let m = max_repetition(events);
    overuse_ratio(m as u64, max_count)
}

/// Whether some string of `seen` reads as `s` does.
fn contains_text(seen: &Vec<String>, s: &String) -> (r: bool)
    ensures
        r == seen@.map_values(|x: String| x@).contains(s@),
{
    let ghost views = seen@.map_values(|x: String| x@);
    let mut i: usize = 0;
    while i < seen.len()
        invariant
            i <= seen.len(),
            views == seen@.map_values(|x: String| x@),
            forall|j: int| 0 <= j < i ==> views[j] != s@,
        decreases seen.len() - i,
    {
        if seen[i] == *s {
            assert(views[i as int] == s@);
            return true;
        }
        i = i + 1;
    }
    false
}

/// How many distinct targets `events` hit.
pub fn distinct_target_count(events: &[Event]) -> (n: usize)
    ensures
        n == targets(events_view(events@)).len(),
{
    let ghost s = events_view(events@);
    let ghost tgt = |e: EventView| e.target;
    let mut seen: Vec<String> = Vec::new();
    let mut i: usize = 0;
    while i < events.len()
        invariant
            i <= events.len(),
            s == events_view(events@),
            tgt == (|e: EventView| e.target),
            seen@.map_values(|x: String| x@).no_duplicates(),
            seen@.map_values(|x: String| x@).to_set() == s.take(i as int).map_values(tgt).to_set(),
            seen.len() <= i,
        decreases events.len() - i,
    {
        let ghost before = seen@.map_values(|x: String| x@);
        let target = &events[i].target;
        assert(s.take(i + 1).map_values(tgt) =~= s.take(i as int).map_values(tgt).push(target@));
        proof {
            s.take(i as int).map_values(tgt).lemma_push_to_set_commute(target@);
        }
        if !contains_text(&seen, target) {
            seen.push(target.clone());
            assert(seen@.map_values(|x: String| x@) =~= before.push(target@));
            proof {
                before.lemma_push_to_set_commute(target@);
                let after = seen@.map_values(|x: String| x@);
                assert forall|a: int, b: int| 0 <= a < b < after.len() implies #[trigger] after[a]
                    != #[trigger] after[b] by {
                    if b == after.len() - 1 {
                        assert(before[a] == after[a]);
                        assert(before.contains(after[a]));
                    }
                }
            }
        } else {
            assert(before.to_set().contains(target@));
            assert(before.to_set().insert(target@) =~= before.to_set());
        }
        i = i + 1;
    }
    assert(s.take(events.len() as int) =~= s);
    proof {
        seen@.map_values(|x: String| x@).unique_seq_to_set();
    }
    seen.len()
}

/// Target hopping: how far the number of distinct targets in the window
/// exceeds `max_targets`.
pub fn hopping_risk(events: &[Event], max_targets: u32) -> (r: Ratio)
    ensures
        fraction(r) == overuse(targets(events_view(events@)).len(), max_targets as nat),
{
    let n = distinct_target_count(events);
    overuse_ratio(n as u64, max_targets)
}

/// Where an event's timestamp lies after the Unix epoch, in nanoseconds
/// (zero for timestamps at or before it).
pub open spec fn epoch_offset(e: EventView) -> u128 {
    if e.timestamp > 0 {
        e.timestamp as u128
    } else {
        0
    }
}

/// The epoch offsets of the events of `s`, in order.
pub open spec fn epoch_offsets(s: Seq<EventView>) -> Seq<u128> {
    s.map_values(|e: EventView| epoch_offset(e))
}

/// Offsets are exact: an event after the epoch is at its own timestamp, in
/// nanoseconds, and one at or before the epoch is at zero.
pub proof fn lemma_epoch_offsets_are_exact(s: Seq<EventView>)
    ensures
        epoch_offsets(s).len() == s.len(),
        forall|i: int|
            0 <= i < s.len() ==> (s[i].timestamp > 0 ==> #[trigger] epoch_offsets(s)[i]
                == s[i].timestamp) && (s[i].timestamp <= 0 ==> epoch_offsets(s)[i] == 0),
{
}

/// Ascending order.
pub open spec fn ascending(s: Seq<u128>) -> bool {
    forall|i: int, j: int| 0 <= i <= j < s.len() ==> s[i] <= s[j]
}

/// The epoch offsets of `events`, in ascending order: the timestamps from
/// which the gaps of the interval pattern are taken.
pub fn sorted_epoch_offsets(events: &[Event]) -> (sorted: Vec<u128>)
    ensures
        ascending(sorted@),
        sorted@.to_multiset() == epoch_offsets(events_view(events@)).to_multiset(),
{
    let ghost all = epoch_offsets(events_view(events@));
    let mut sorted: Vec<u128> = Vec::new();
    let mut i: usize = 0;
    assert(all.take(0) =~= Seq::<u128>::empty());
    while i < events.len()
        invariant
            i <= events.len(),
            all == epoch_offsets(events_view(events@)),
            ascending(sorted@),
            sorted@.to_multiset() == all.take(i as int).to_multiset(),
        decreases events.len() - i,
    {
        let ts = events[i].timestamp;
        let x: u128 = if ts > 0 {
            ts as u128
        } else {
            0
        };
        assert(all[i as int] == x);
        assert(all.take(i + 1) =~= all.take(i as int).push(x));
        let mut pos: usize = 0;
        while pos < sorted.len() && sorted[pos] <= x
            invariant
                pos <= sorted.len(),
                forall|j: int| 0 <= j < pos ==> sorted@[j] <= x,
            decreases sorted.len() - pos,
        {
            pos = pos + 1;
        }
        let ghost before = sorted@;
        sorted.insert(pos, x);
        assert(sorted@ == before.insert(pos as int, x));
        proof {
            vstd::seq_lib::to_multiset_insert(before, pos as int, x);
            vstd::seq_lib::to_multiset_build(all.take(i as int), x);
        }
        assert(forall|j: int| pos <= j < before.len() ==> before[j] > x);
        assert(ascending(sorted@)) by {
            assert forall|a: int, b: int| 0 <= a <= b < sorted@.len() implies sorted@[a]
                <= sorted@[b] by {
                if b < pos {
                } else if a > pos {
                    assert(sorted@[a] == before[a - 1] && sorted@[b] == before[b - 1]);
                } else if a == pos {
                    if b > pos {
                        assert(sorted@[b] == before[b - 1]);
                    }
                } else {
                    if b > pos {
                        assert(sorted@[b] == before[b - 1]);
                    }
                }
            }
        }
        i = i + 1;
    }
    assert(all.take(events.len() as int) =~= all);
    sorted
}

} // verus!
