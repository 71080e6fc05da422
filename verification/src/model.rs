//! The mathematical model of the activity pool and of its transitions.
//!
//! A pool is a sequence of tracked entries in the order in which they were
//! added. Every transition of the engine is a function from a pool and an
//! input to the next pool and to the notifications that the transition owes.

use crate::timer::TimerState;
use vstd::prelude::*;

verus! {

/// Milliseconds a program stays tracked after its last sign of focus.
pub const GRACE_PERIOD_MS: u64 = 60000;

/// A tracked program as the contracts see it.
pub struct EntryView {
    pub path: Seq<char>,
    /// Whether audio, rather than focus, keeps the entry alive.
    pub is_audio: bool,
    pub timer: TimerState,
}

/// An activity event as the contracts see it.
pub struct EventView {
    pub path: Seq<char>,
    /// Whether the audio probe sent it.
    pub is_audio: bool,
    /// Whether the program became active (or, if not, inactive).
    pub active: bool,
}

/// A status-change notification as the contracts see it.
pub struct StatusView {
    pub path: Seq<char>,
    pub active: bool,
    pub time: int,
}

/// The engine as the contracts see it.
pub struct WatcherView {
    pub pool: Seq<EntryView>,
    pub running: bool,
}

/// No two entries of the pool have the same path.
pub open spec fn distinct(pool: Seq<EntryView>) -> bool {
    forall|i: int, j: int|
        0 <= i < j < pool.len() ==> (#[trigger] pool[i]).path != (#[trigger] pool[j]).path
}

/// Whether the pool holds an entry for `path`.
pub open spec fn tracks(pool: Seq<EntryView>, path: Seq<char>) -> bool {
    exists|i: int| 0 <= i < pool.len() && (#[trigger] pool[i]).path == path
}

/// The index of the entry for `path`, if the pool holds one.
pub open spec fn position(pool: Seq<EntryView>, path: Seq<char>) -> Option<int> {
    if tracks(pool, path) {
        Some(choose|i: int| 0 <= i < pool.len() && (#[trigger] pool[i]).path == path)
    } else {
        None
    }
}

/// The entries that audio keeps alive, in pool order.
pub open spec fn audio_backed(pool: Seq<EntryView>) -> Seq<EntryView> {
    pool.filter(|e: EntryView| e.is_audio)
}

/// The entries that only focus keeps alive, in pool order.
pub open spec fn focus_only(pool: Seq<EntryView>) -> Seq<EntryView> {
    pool.filter(|e: EntryView| !e.is_audio)
}

/// The notification that `path` entered the pool.
pub open spec fn added(path: Seq<char>, time: int) -> StatusView {
    StatusView { path, active: true, time }
}

/// The notification that `path` left the pool.
pub open spec fn removed(path: Seq<char>, time: int) -> StatusView {
    StatusView { path, active: false, time }
}

/// One removal for each of `entries`, in their order.
pub open spec fn removals(entries: Seq<EntryView>, time: int) -> Seq<StatusView> {
    entries.map_values(|e: EntryView| removed(e.path, time))
}

/// The entry a first activation creates: its one-shot grace countdown
/// starts at `now`.
pub open spec fn fresh(path: Seq<char>, is_audio: bool, now: nat) -> EntryView {
    EntryView { path, is_audio, timer: TimerState::one_shot(GRACE_PERIOD_MS as nat, now) }
}

/// An entry after a sign of life at `now`: the flag is replaced and the
/// grace countdown starts over.
pub open spec fn refreshed(entry: EntryView, is_audio: bool, now: nat) -> EntryView {
    EntryView { path: entry.path, is_audio, timer: entry.timer.reset(now) }
}

/// Whether `event` evicts the entry `entry` that it names: only the loss of
/// focus of an entry that audio does not keep alive does.
pub open spec fn evicts(entry: EntryView, event: EventView) -> bool {
    !event.active && !event.is_audio && !entry.is_audio
}

/// The audio flag of a tracked entry after `event` names it. An audio
/// activation sets it, an audio deactivation clears it, a focus event
/// leaves it as it is.
pub open spec fn flag_after(entry: EntryView, event: EventView) -> bool {
    if event.is_audio {
        event.active
    } else {
        entry.is_audio
    }
}

/// The pool after `event` has been reconciled into it at the instant `now`.
///
/// A new focus takes the place of every entry that only focus kept alive;
/// a deactivation that arrives for an entry already evicted that way finds
/// nothing and changes nothing.
pub open spec fn reconcile_pool(pool: Seq<EntryView>, event: EventView, now: nat) -> Seq<
    EntryView,
> {
    match position(pool, event.path) {
        Some(i) => {
            if evicts(pool[i], event) {
                pool.remove(i)
            } else {
                pool.update(i, refreshed(pool[i], flag_after(pool[i], event), now))
            }
        },
        None => {
            if event.active {
                audio_backed(pool).push(fresh(event.path, event.is_audio, now))
            } else {
                pool
            }
        },
    }
}

/// The notifications that reconciling `event` owes, in the order in which
/// they are emitted: entries evicted by a new focus leave last-added first,
/// and all of them leave before the newcomer is announced.
pub open spec fn reconcile_notes(pool: Seq<EntryView>, event: EventView, time: int) -> Seq<
    StatusView,
> {
    match position(pool, event.path) {
        Some(i) => {
            if evicts(pool[i], event) {
                seq![removed(event.path, time)]
            } else {
                Seq::empty()
            }
        },
        None => {
            if event.active {
                removals(focus_only(pool).reverse(), time).push(added(event.path, time))
            } else {
                Seq::empty()
            }
        },
    }
}

/// Whether the grace countdown of `entry` evicts it at `now`: it fires, and
/// audio does not keep the entry alive.
pub open spec fn lapses(entry: EntryView, now: nat) -> bool {
    entry.timer.due(now) && !entry.is_audio
}

/// An entry after its timer has seen the instant `now`.
pub open spec fn aged(entry: EntryView, now: nat) -> EntryView {
    EntryView { path: entry.path, is_audio: entry.is_audio, timer: entry.timer.polled(now) }
}

/// The pool after every timer has seen the instant `now`: the entries whose
/// countdown lapses are gone, the others stay in order.
pub open spec fn tick_pool(pool: Seq<EntryView>, now: nat) -> Seq<EntryView> {
    pool.filter(|e: EntryView| !lapses(e, now)).map_values(|e: EntryView| aged(e, now))
}

/// The notifications a tick owes: one removal per lapsed entry, in pool order.
pub open spec fn tick_notes(pool: Seq<EntryView>, now: nat, time: int) -> Seq<StatusView> {
    removals(pool.filter(|e: EntryView| lapses(e, now)), time)
}

impl WatcherView {
    /// The engine before anything has happened: suspended, tracking nothing.
    pub open spec fn initial() -> WatcherView {
        WatcherView { pool: Seq::empty(), running: false }
    }

    /// The engine after a suspension: stopped, with the pool drained.
    pub open spec fn suspended(self) -> WatcherView {
        WatcherView { pool: Seq::empty(), running: false }
    }

    /// The engine after a resumption.
    pub open spec fn resumed(self) -> WatcherView {
        WatcherView { pool: self.pool, running: true }
    }

    /// The engine after `event` has been reconciled into the pool at `now`.
    pub open spec fn handled(self, event: EventView, now: nat) -> WatcherView {
        WatcherView { pool: reconcile_pool(self.pool, event, now), running: self.running }
    }

    /// The engine after one turn of its main loop has taken `received` from
    /// the event channel: a running engine reconciles the event, a suspended
    /// one discards it.
    pub open spec fn turned(self, received: Option<EventView>, now: nat) -> WatcherView {
        match received {
            Some(event) => if self.running {
                self.handled(event, now)
            } else {
                self
            },
            None => self,
        }
    }

    /// The notifications that turn owes.
    pub open spec fn turn_notes(self, received: Option<EventView>, time: int) -> Seq<StatusView> {
        match received {
            Some(event) => if self.running {
                reconcile_notes(self.pool, event, time)
            } else {
                Seq::empty()
            },
            None => Seq::empty(),
        }
    }

    /// The engine after every timer has seen the instant `now`.
    pub open spec fn ticked(self, now: nat) -> WatcherView {
        WatcherView { pool: tick_pool(self.pool, now), running: self.running }
    }
}

/// What a tick does to a pool that has grown by one entry.
pub proof fn lemma_tick_push(pool: Seq<EntryView>, entry: EntryView, now: nat, time: int)
    ensures
        tick_pool(pool.push(entry), now) == if lapses(entry, now) {
            tick_pool(pool, now)
        } else {
            tick_pool(pool, now).push(aged(entry, now))
        },
        tick_notes(pool.push(entry), now, time) == if lapses(entry, now) {
            tick_notes(pool, now, time).push(removed(entry.path, time))
        } else {
            tick_notes(pool, now, time)
        },
{
    pool.lemma_filter_push(entry, |e: EntryView| !lapses(e, now));
    pool.lemma_filter_push(entry, |e: EntryView| lapses(e, now));
    if lapses(entry, now) {
        assert(tick_notes(pool.push(entry), now, time) =~= tick_notes(pool, now, time).push(
            removed(entry.path, time),
        ));
    } else {
        assert(tick_pool(pool.push(entry), now) =~= tick_pool(pool, now).push(aged(entry, now)));
    }
}

/// Filtering a pool by the audio flag keeps no path that the pool did not hold.
pub proof fn lemma_audio_backed_tracks(pool: Seq<EntryView>, path: Seq<char>)
    requires
        tracks(audio_backed(pool), path),
    ensures
        tracks(pool, path),
{
    let kept = audio_backed(pool);
    let i = choose|i: int| 0 <= i < kept.len() && (#[trigger] kept[i]).path == path;
    assert(kept.contains(kept[i]));
    pool.lemma_filter_contains_rev(|e: EntryView| e.is_audio, kept[i]);
    let j = choose|j: int| 0 <= j < pool.len() && pool[j] == kept[i];
    assert(pool[j].path == path);
}

/// Where the first entry of a pool goes when the pool is split by the audio flag.
pub proof fn lemma_split_first(first: EntryView, rest: Seq<EntryView>)
    ensures
        audio_backed(seq![first] + rest) == if first.is_audio {
            seq![first] + audio_backed(rest)
        } else {
            audio_backed(rest)
        },
        focus_only(seq![first] + rest) == if first.is_audio {
            focus_only(rest)
        } else {
            seq![first] + focus_only(rest)
        },
{
    rest.lemma_filter_prepend(first, |e: EntryView| e.is_audio);
    rest.lemma_filter_prepend(first, |e: EntryView| !e.is_audio);
    assert(Seq::<EntryView>::empty() + audio_backed(rest) =~= audio_backed(rest));
    assert(Seq::<EntryView>::empty() + focus_only(rest) =~= focus_only(rest));
}

} // verus!
