//! What holds of the engine whatever it is fed.
//!
//! Each law is stated over the model of the pool and proved from the
//! definitions of the transitions, so it holds of every run of the engine
//! whose methods are specified by those transitions.

use crate::model::{
    added, audio_backed, distinct, evicts, focus_only, fresh, lemma_audio_backed_tracks,
    lemma_tick_push, position, reconcile_notes, reconcile_pool, refreshed, removals, removed,
    tick_pool, tracks, EntryView, EventView, WatcherView,
};
use vstd::prelude::*;

verus! {

/// An event together with the monotonic instant at which it is reconciled.
pub struct Arrival {
    pub event: EventView,
    pub now: nat,
}

/// The pool after `arrivals` have been reconciled into `pool`, first to last.
pub open spec fn replay(pool: Seq<EntryView>, arrivals: Seq<Arrival>) -> Seq<EntryView>
    decreases arrivals.len(),
{
    if arrivals.len() == 0 {
        pool
    } else {
        reconcile_pool(
            replay(pool, arrivals.drop_last()),
            arrivals.last().event,
            arrivals.last().now,
        )
    }
}

/// In a pool without duplicates the entry for a path is where it is found.
pub proof fn lemma_position_unique(pool: Seq<EntryView>, i: int)
    requires
        distinct(pool),
        0 <= i < pool.len(),
    ensures
        position(pool, pool[i].path) == Some(i),
{
    assert(tracks(pool, pool[i].path));
}

/// Splitting a pool without duplicates by the audio flag leaves no duplicates.
pub proof fn lemma_audio_backed_distinct(pool: Seq<EntryView>)
    requires
        distinct(pool),
    ensures
        distinct(audio_backed(pool)),
    decreases pool.len(),
{
    reveal(Seq::filter);
    if pool.len() > 0 {
        let init = pool.drop_last();
        let last = pool.last();
        assert(pool =~= init.push(last));
        assert(distinct(init)) by {
            assert forall|i: int, j: int| 0 <= i < j < init.len() implies (#[trigger] init[i]).path
                != (#[trigger] init[j]).path by {
                assert(init[i] == pool[i] && init[j] == pool[j]);
            }
        }
        lemma_audio_backed_distinct(init);
        init.lemma_filter_push(last, |e: EntryView| e.is_audio);
        if last.is_audio {
            let kept = audio_backed(init);
            assert forall|i: int, j: int| 0 <= i < j < kept.push(last).len() implies (
            #[trigger] kept.push(last)[i]).path != (#[trigger] kept.push(last)[j]).path by {
                if j == kept.len() {
                    if kept[i].path == last.path {
                        assert(tracks(kept, last.path));
                        lemma_audio_backed_tracks(init, last.path);
                        let k = choose|k: int|
                            0 <= k < init.len() && (#[trigger] init[k]).path == last.path;
                        assert(pool[k].path == pool[pool.len() - 1].path);
                    }
                } else {
                    assert(kept.push(last)[i] == kept[i] && kept.push(last)[j] == kept[j]);
                }
            }
        }
    }
}

/// Reconciling an event into a pool without duplicates leaves no duplicates.
pub proof fn lemma_reconcile_distinct(pool: Seq<EntryView>, event: EventView, now: nat)
    requires
        distinct(pool),
    ensures
        distinct(reconcile_pool(pool, event, now)),
{
    let next = reconcile_pool(pool, event, now);
    match position(pool, event.path) {
        Some(i) => {
            if evicts(pool[i], event) {
                assert forall|a: int, b: int| 0 <= a < b < next.len() implies (#[trigger] next[a]).path
                    != (#[trigger] next[b]).path by {
                    let a0 = if a < i { a } else { a + 1 };
                    let b0 = if b < i { b } else { b + 1 };
                    assert(next[a] == pool[a0] && next[b] == pool[b0]);
                }
            } else {
                assert forall|a: int, b: int| 0 <= a < b < next.len() implies (#[trigger] next[a]).path
                    != (#[trigger] next[b]).path by {
                    assert(next[a].path == pool[a].path && next[b].path == pool[b].path);
                }
            }
        },
        None => {
            if event.active {
                lemma_audio_backed_distinct(pool);
                let kept = audio_backed(pool);
                let newcomer = fresh(event.path, event.is_audio, now);
                assert forall|a: int, b: int| 0 <= a < b < next.len() implies (#[trigger] next[a]).path
                    != (#[trigger] next[b]).path by {
                    if b == kept.len() {
                        if kept[a].path == event.path {
                            assert(tracks(kept, event.path));
                            lemma_audio_backed_tracks(pool, event.path);
                        }
                    } else {
                        assert(next[a] == kept[a] && next[b] == kept[b]);
                    }
                }
            }
        },
    }
}

/// Whatever sequence of events is reconciled into a pool without
/// duplicates, at whatever instants, the pool never holds two entries with
/// the same path. The empty pool is such a pool.
pub proof fn lemma_replay_distinct(pool: Seq<EntryView>, arrivals: Seq<Arrival>)
    requires
        distinct(pool),
    ensures
        distinct(replay(pool, arrivals)),
        distinct(replay(Seq::empty(), arrivals)),
    decreases arrivals.len(),
{
    if arrivals.len() > 0 {
        lemma_replay_distinct(pool, arrivals.drop_last());
        lemma_reconcile_distinct(
            replay(pool, arrivals.drop_last()),
            arrivals.last().event,
            arrivals.last().now,
        );
        lemma_reconcile_distinct(
            replay(Seq::empty(), arrivals.drop_last()),
            arrivals.last().event,
            arrivals.last().now,
        );
    }
}

/// Every path a tick leaves in the pool was in the pool before.
pub proof fn lemma_tick_tracks(pool: Seq<EntryView>, now: nat, path: Seq<char>)
    requires
        tracks(tick_pool(pool, now), path),
    ensures
        tracks(pool, path),
    decreases pool.len(),
{
    reveal(Seq::filter);
    if pool.len() == 0 {
        assert(tick_pool(pool, now) =~= Seq::empty());
    } else {
        let init = pool.drop_last();
        let last = pool.last();
        assert(pool =~= init.push(last));
        lemma_tick_push(init, last, now, 0);
        let next = tick_pool(pool, now);
        let i = choose|i: int| 0 <= i < next.len() && (#[trigger] next[i]).path == path;
        if i < tick_pool(init, now).len() {
            assert(tick_pool(init, now)[i].path == path);
            lemma_tick_tracks(init, now, path);
            let k = choose|k: int| 0 <= k < init.len() && (#[trigger] init[k]).path == path;
            assert(pool[k].path == path);
        } else {
            assert(pool[pool.len() - 1].path == path);
        }
    }
}

/// A tick on a pool without duplicates leaves no duplicates.
pub proof fn lemma_tick_distinct(pool: Seq<EntryView>, now: nat)
    requires
        distinct(pool),
    ensures
        distinct(tick_pool(pool, now)),
    decreases pool.len(),
{
    reveal(Seq::filter);
    if pool.len() == 0 {
        assert(tick_pool(pool, now) =~= Seq::empty());
    } else {
        let init = pool.drop_last();
        let last = pool.last();
        assert(pool =~= init.push(last));
        assert(distinct(init)) by {
            assert forall|i: int, j: int| 0 <= i < j < init.len() implies (#[trigger] init[i]).path
                != (#[trigger] init[j]).path by {
                assert(init[i] == pool[i] && init[j] == pool[j]);
            }
        }
        lemma_tick_distinct(init, now);
        lemma_tick_push(init, last, now, 0);
        let kept = tick_pool(init, now);
        let next = tick_pool(pool, now);
        assert forall|a: int, b: int| 0 <= a < b < next.len() implies (#[trigger] next[a]).path != (
        #[trigger] next[b]).path by {
            if b == kept.len() {
                if kept[a].path == last.path {
                    assert(tracks(kept, last.path));
                    lemma_tick_tracks(init, now, last.path);
                    let k = choose|k: int|
                        0 <= k < init.len() && (#[trigger] init[k]).path == last.path;
                    assert(pool[k].path == pool[pool.len() - 1].path);
                }
            } else {
                assert(next[a] == kept[a] && next[b] == kept[b]);
            }
        }
    }
}

/// A first activation of a program takes the focus over. Every entry that
/// only focus kept alive is gone from the pool, and its removal is notified
/// before the newcomer is announced; every entry that audio keeps alive
/// stays; the newcomer is tracked and its announcement comes last.
pub proof fn lemma_new_focus_takes_over(
    pool: Seq<EntryView>,
    event: EventView,
    now: nat,
    time: int,
)
    requires
        distinct(pool),
        event.active,
        !tracks(pool, event.path),
    ensures
        ({
            let next = reconcile_pool(pool, event, now);
            let notes = reconcile_notes(pool, event, time);
            &&& next == audio_backed(pool).push(fresh(event.path, event.is_audio, now))
            &&& tracks(next, event.path)
            &&& notes.len() == focus_only(pool).len() + 1
            &&& notes.last() == added(event.path, time)
            &&& forall|i: int|
                0 <= i < pool.len() && (#[trigger] pool[i]).is_audio ==> tracks(next, pool[i].path)
            &&& forall|i: int|
                0 <= i < pool.len() && !(#[trigger] pool[i]).is_audio ==> !tracks(
                    next,
                    pool[i].path,
                ) && exists|k: int|
                    0 <= k < notes.len() - 1 && #[trigger] notes[k] == removed(pool[i].path, time)
        }),
{
    let kept = audio_backed(pool);
    let gone = focus_only(pool);
    let next = reconcile_pool(pool, event, now);
    let notes = reconcile_notes(pool, event, time);
    let newcomer = fresh(event.path, event.is_audio, now);
    assert(next[kept.len() as int].path == event.path);
    assert forall|i: int| 0 <= i < pool.len() && (#[trigger] pool[i]).is_audio implies tracks(
        next,
        pool[i].path,
    ) by {
        pool.lemma_filter_contains(|e: EntryView| e.is_audio, i);
        let k = choose|k: int| 0 <= k < kept.len() && kept[k] == pool[i];
        assert(next[k].path == pool[i].path);
    }
    assert forall|i: int| 0 <= i < pool.len() && !(#[trigger] pool[i]).is_audio implies !tracks(
        next,
        pool[i].path,
    ) && exists|k: int|
        0 <= k < notes.len() - 1 && #[trigger] notes[k] == removed(pool[i].path, time) by {
        if tracks(next, pool[i].path) {
            let a = choose|a: int| 0 <= a < next.len() && (#[trigger] next[a]).path == pool[i].path;
            if a == kept.len() {
                assert(tracks(pool, event.path));
            } else {
                assert(next[a] == kept[a]);
                pool.lemma_filter_pred(|e: EntryView| e.is_audio, a);
                assert(kept.contains(kept[a]));
                pool.lemma_filter_contains_rev(|e: EntryView| e.is_audio, kept[a]);
                let j = choose|j: int| 0 <= j < pool.len() && pool[j] == kept[a];
                assert(pool[j].path == pool[i].path);
            }
        }
        pool.lemma_filter_contains(|e: EntryView| !e.is_audio, i);
        let g = choose|g: int| 0 <= g < gone.len() && gone[g] == pool[i];
        let k = gone.len() - 1 - g;
        assert(gone.reverse()[k] == gone[g]);
        assert(removals(gone.reverse(), time)[k] == removed(pool[i].path, time));
        assert(notes[k] == removed(pool[i].path, time));
    }
}

/// The loss of focus never evicts an entry that audio keeps alive: the
/// entry stays where it is, still kept alive by audio, with its grace
/// countdown started over, and nothing is notified.
pub proof fn lemma_audio_survives_focus_loss(
    pool: Seq<EntryView>,
    i: int,
    event: EventView,
    now: nat,
    time: int,
)
    requires
        distinct(pool),
        0 <= i < pool.len(),
        pool[i].is_audio,
        event.path == pool[i].path,
        !event.active,
        !event.is_audio,
    ensures
        reconcile_pool(pool, event, now) == pool.update(i, refreshed(pool[i], true, now)),
        tracks(reconcile_pool(pool, event, now), event.path),
        reconcile_pool(pool, event, now)[i].is_audio,
        reconcile_notes(pool, event, time) == Seq::<crate::model::StatusView>::empty(),
{
    lemma_position_unique(pool, i);
    let next = reconcile_pool(pool, event, now);
    assert(next[i].path == event.path);
}

/// An audio deactivation clears the flag of the entry it names and starts
/// its grace countdown over, without evicting it.
pub proof fn lemma_audio_stop_falls_back_to_focus(
    pool: Seq<EntryView>,
    i: int,
    event: EventView,
    now: nat,
    time: int,
)
    requires
        distinct(pool),
        0 <= i < pool.len(),
        event.path == pool[i].path,
        !event.active,
        event.is_audio,
    ensures
        reconcile_pool(pool, event, now) == pool.update(i, refreshed(pool[i], false, now)),
        reconcile_notes(pool, event, time) == Seq::<crate::model::StatusView>::empty(),
{
    lemma_position_unique(pool, i);
}

/// A suspended engine tracks nothing, and the event that follows the
/// suspension is discarded: the pool stays empty, no path is tracked and
/// nothing is notified.
pub proof fn lemma_suspend_discards(
    state: WatcherView,
    received: Option<EventView>,
    now: nat,
    time: int,
    path: Seq<char>,
)
    ensures
        state.suspended().turned(received, now) == state.suspended(),
        state.suspended().turned(received, now).pool.len() == 0,
        !tracks(state.suspended().turned(received, now).pool, path),
        state.suspended().turn_notes(received, time) == Seq::<crate::model::StatusView>::empty(),
{
}

/// A resumed engine reconciles the next event as a running engine does.
/// Right after a suspension it does so into the empty pool.
pub proof fn lemma_resume_restores(state: WatcherView, event: EventView, now: nat, time: int)
    ensures
        state.resumed().turned(Some(event), now) == state.resumed().handled(event, now),
        state.resumed().turned(Some(event), now).pool == reconcile_pool(state.pool, event, now),
        state.resumed().turn_notes(Some(event), time) == reconcile_notes(state.pool, event, time),
        state.suspended().resumed().turned(Some(event), now).pool == reconcile_pool(
            Seq::empty(),
            event,
            now,
        ),
{
}

/// Adding a program to the empty pool and removing it at once gives
/// exactly two notifications, the activation and then the deactivation, and
/// leaves the pool empty, so that no path is tracked afterwards.
pub proof fn lemma_add_then_remove(
    path: Seq<char>,
    added_at: nat,
    removed_at: nat,
    time_added: int,
    time_removed: int,
    other: Seq<char>,
)
    ensures
        ({
            let arrive = EventView { path, is_audio: false, active: true };
            let leave = EventView { path, is_audio: false, active: false };
            let empty = Seq::<EntryView>::empty();
            let held = reconcile_pool(empty, arrive, added_at);
            &&& held == seq![fresh(path, false, added_at)]
            &&& reconcile_notes(empty, arrive, time_added) == seq![added(path, time_added)]
            &&& reconcile_pool(held, leave, removed_at) == empty
            &&& reconcile_notes(held, leave, time_removed) == seq![removed(path, time_removed)]
            &&& !tracks(reconcile_pool(held, leave, removed_at), other)
        }),
{
    reveal(Seq::filter);
    let arrive = EventView { path, is_audio: false, active: true };
    let leave = EventView { path, is_audio: false, active: false };
    let empty = Seq::<EntryView>::empty();
    let held = reconcile_pool(empty, arrive, added_at);
    assert(!tracks(empty, path));
    assert(audio_backed(empty) =~= empty);
    assert(focus_only(empty) =~= empty);
    assert(held =~= seq![fresh(path, false, added_at)]);
    assert(reconcile_notes(empty, arrive, time_added) =~= seq![added(path, time_added)]);
    assert(held[0].path == path);
    assert(distinct(held));
    lemma_position_unique(held, 0);
    assert(reconcile_pool(held, leave, removed_at) =~= empty);
}

} // verus!
