//! The watcher engine: the pool of active programs and its reconciliation.

use crate::model::{
    added, aged, audio_backed, distinct, focus_only, lapses, lemma_audio_backed_tracks,
    lemma_split_first, lemma_tick_push, position, reconcile_notes, reconcile_pool, refreshed,
    removals, removed, tick_notes, tick_pool, tracks, EntryView, EventView, StatusView,
    WatcherView, GRACE_PERIOD_MS,
};
use crate::channel::{try_recv, try_send};
use crate::clock::{wall_millis, Clock};
use crate::timer::Timer;
use crossbeam_channel::{Receiver, Sender};
use vstd::prelude::*;

verus! {

/// A report from a probe that a program became active or inactive.
#[derive(Debug)]
pub struct WatcherEvent {
    pub path: String,
    pub is_audio: bool,
    pub active: bool,
}

impl View for WatcherEvent {
    type V = EventView;

    open spec fn view(&self) -> EventView {
        EventView { path: self.path@, is_audio: self.is_audio, active: self.active }
    }
}

/// A change of the engine's running flag, broadcast to the audio probe.
pub struct WatcherStatus {
    pub running: bool,
}

/// The notification that a program entered or left the pool.
#[derive(Clone, Debug)]
pub struct WindowStatus {
    pub path: String,
    pub active: bool,
    /// Milliseconds since the Unix epoch.
    pub time: i64,
}

impl View for WindowStatus {
    type V = StatusView;

    open spec fn view(&self) -> StatusView {
        StatusView { path: self.path@, active: self.active, time: self.time as int }
    }
}

/// The notifications of `list` as the contracts see them.
pub open spec fn views(list: Seq<WindowStatus>) -> Seq<StatusView> {
    list.map_values(|n: WindowStatus| n@)
}

/// A program in the pool, with the timer that evicts it.
pub struct TrackedEntry {
    path: String,
    is_audio: bool,
    timer: Timer,
}

impl View for TrackedEntry {
    type V = EntryView;

    closed spec fn view(&self) -> EntryView {
        EntryView { path: self.path@, is_audio: self.is_audio, timer: self.timer@ }
    }
}

/// The entries of `pool` as the contracts see them.
pub closed spec fn entries(pool: Seq<TrackedEntry>) -> Seq<EntryView> {
    pool.map_values(|e: TrackedEntry| e@)
}

/// The index of the entry for `path`.
fn find(pool: &Vec<TrackedEntry>, path: &String) -> (found: Option<usize>)
    requires
        distinct(entries(pool@)),
    ensures
        match found {
            Some(i) => i < pool.len() && position(entries(pool@), path@) == Some(i as int),
            None => position(entries(pool@), path@).is_none(),
        },
{
    let mut i: usize = 0;
    while i < pool.len()
        invariant
            i <= pool.len(),
            distinct(entries(pool@)),
            forall|j: int| 0 <= j < i ==> (#[trigger] entries(pool@)[j]).path != path@,
        decreases pool.len() - i,
    {
        if pool[i].path == *path {
            assert(entries(pool@)[i as int].path == path@);
            return Some(i);
        }
        i += 1;
    }
    None
}

/// Evicts the entry at `index`.
fn remove(pool: &mut Vec<TrackedEntry>, index: usize, time: i64) -> (note: WindowStatus)
    requires
        index < old(pool).len(),
        distinct(entries(old(pool)@)),
    ensures
        distinct(entries(final(pool)@)),
        entries(final(pool)@) == entries(old(pool)@).remove(index as int),
        note@ == removed(entries(old(pool)@)[index as int].path, time as int),
{
    let entry = pool.remove(index);
    assert(entries(pool@) =~= entries(old(pool)@).remove(index as int));
    WindowStatus { path: entry.path, active: false, time }
}

/// Takes `entry` into the pool.
fn add(pool: &mut Vec<TrackedEntry>, entry: TrackedEntry, time: i64) -> (note: WindowStatus)
    requires
        distinct(entries(old(pool)@)),
        !tracks(entries(old(pool)@), entry@.path),
    ensures
        distinct(entries(final(pool)@)),
        entries(final(pool)@) == entries(old(pool)@).push(entry@),
        note@ == added(entry@.path, time as int),
{
    let path = entry.path.clone();
    pool.push(entry);
    assert(entries(pool@) =~= entries(old(pool)@).push(entry@));
    WindowStatus { path, active: true, time }
}

/// Refreshes the entry at `index`: sets its flag and restarts its countdown.
fn reset_timer(pool: &mut Vec<TrackedEntry>, index: usize, is_audio: bool, now: u64)
    requires
        index < old(pool).len(),
        distinct(entries(old(pool)@)),
    ensures
        distinct(entries(final(pool)@)),
        entries(final(pool)@) == entries(old(pool)@).update(
            index as int,
            refreshed(entries(old(pool)@)[index as int], is_audio, now as nat),
        ),
{
    let entry = &pool[index];
    let mut timer = entry.timer;
    timer.reset(now);
    let updated = TrackedEntry { path: entry.path.clone(), is_audio, timer };
    pool.set(index, updated);
    assert(entries(pool@) =~= entries(old(pool)@).update(
        index as int,
        refreshed(entries(old(pool)@)[index as int], is_audio, now as nat),
    ));
}

/// Evicts every entry that only focus keeps alive, last-added first.
fn evict_focus_only(pool: &mut Vec<TrackedEntry>, time: i64) -> (notes: Vec<WindowStatus>)
    requires
        distinct(entries(old(pool)@)),
    ensures
        distinct(entries(final(pool)@)),
        entries(final(pool)@) == audio_backed(entries(old(pool)@)),
        views(notes@) == removals(focus_only(entries(old(pool)@)).reverse(), time as int),
{
    let ghost before = entries(pool@);
    let mut notes: Vec<WindowStatus> = Vec::new();
    let mut i: usize = pool.len();
    proof {
        reveal(Seq::filter);
        assert(before.skip(i as int) =~= Seq::empty());
        assert(audio_backed(Seq::<EntryView>::empty()) =~= Seq::empty());
        assert(focus_only(Seq::<EntryView>::empty()) =~= Seq::empty());
        assert(entries(pool@) =~= before.take(i as int) + audio_backed(before.skip(i as int)));
        assert(views(notes@) =~= removals(
            focus_only(before.skip(i as int)).reverse(),
            time as int,
        ));
    }
    while i > 0
        invariant
            i <= before.len(),
            distinct(entries(pool@)),
            entries(pool@) == before.take(i as int) + audio_backed(before.skip(i as int)),
            views(notes@) == removals(focus_only(before.skip(i as int)).reverse(), time as int),
        decreases i,
    {
        i -= 1;
        let ghost entry = before[i as int];
        let ghost rest = before.skip(i + 1);
        proof {
            assert(entries(pool@).len() == pool.len());
            assert(before.take(i + 1).len() == i + 1);
            assert(before.skip(i as int) =~= seq![entry] + rest);
            lemma_split_first(entry, rest);
            assert(entries(pool@)[i as int] == entry);
        }
        if !pool[i].is_audio {
            let ghost earlier = views(notes@);
            let note = remove(pool, i, time);
            notes.push(note);
            proof {
                assert(entries(pool@) =~= before.take(i as int) + audio_backed(
                    before.skip(i as int),
                ));
                assert(views(notes@) =~= earlier.push(removed(entry.path, time as int)));
                assert(focus_only(before.skip(i as int)).reverse() =~= focus_only(
                    rest,
                ).reverse().push(entry));
                assert(views(notes@) =~= removals(
                    focus_only(before.skip(i as int)).reverse(),
                    time as int,
                ));
            }
        } else {
            assert(entries(pool@) =~= before.take(i as int) + audio_backed(before.skip(i as int)));
        }
    }
    proof {
        assert(before.take(0) =~= Seq::empty());
        assert(before.skip(0) =~= before);
        assert(entries(pool@) =~= audio_backed(before));
    }
    notes
}

/// Lets every timer of `pool` see the instant `now` and evicts the entries
/// whose countdown lapses.
fn expire(pool: &mut Vec<TrackedEntry>, now: u64, time: i64) -> (notes: Vec<WindowStatus>)
    requires
        distinct(entries(old(pool)@)),
    ensures
        distinct(entries(final(pool)@)),
        entries(final(pool)@) == tick_pool(entries(old(pool)@), now as nat),
        views(notes@) == tick_notes(entries(old(pool)@), now as nat, time as int),
{
    let ghost before = entries(pool@);
    let ghost mut seen: int = 0;
    let mut notes: Vec<WindowStatus> = Vec::new();
    let mut i: usize = 0;
    proof {
        reveal(Seq::filter);
        assert(before.take(0) =~= Seq::empty());
        assert(before.skip(0) =~= before);
        assert(tick_pool(Seq::<EntryView>::empty(), now as nat) =~= Seq::empty());
        assert(entries(pool@) =~= tick_pool(before.take(0), now as nat) + before.skip(0));
        assert(views(notes@) =~= tick_notes(before.take(0), now as nat, time as int));
    }
    while i < pool.len()
        invariant
            0 <= seen <= before.len(),
            i <= pool.len(),
            pool.len() - i == before.len() - seen,
            distinct(entries(pool@)),
            i == tick_pool(before.take(seen), now as nat).len(),
            entries(pool@) == tick_pool(before.take(seen), now as nat) + before.skip(seen),
            views(notes@) == tick_notes(before.take(seen), now as nat, time as int),
        decreases pool.len() - i,
    {
        let ghost entry = before[seen];
        let ghost kept = tick_pool(before.take(seen), now as nat);
        proof {
            assert(entries(pool@).len() == pool.len());
            assert(entries(pool@)[i as int] == entry);
            assert(before.take(seen + 1) =~= before.take(seen).push(entry));
            lemma_tick_push(before.take(seen), entry, now as nat, time as int);
        }
        let mut timer = pool[i].timer;
        let is_audio = pool[i].is_audio;
        let fired = timer.poll(now);
        if fired && !is_audio {
            let ghost earlier = views(notes@);
            let note = remove(pool, i, time);
            notes.push(note);
            proof {
                assert(views(notes@) =~= earlier.push(removed(entry.path, time as int)));
                assert(entries(pool@) =~= kept + before.skip(seen + 1));
            }
        } else {
            let ghost prior = entries(pool@);
            if fired {
                let updated = TrackedEntry { path: pool[i].path.clone(), is_audio, timer };
                assert(updated@ == aged(entry, now as nat));
                pool.set(i, updated);
                assert(entries(pool@) =~= prior.update(i as int, aged(entry, now as nat)));
            } else {
                assert(aged(entry, now as nat) == entry);
                assert(entries(pool@) =~= prior.update(i as int, aged(entry, now as nat)));
            }
            proof {
                assert(entries(pool@) =~= kept.push(aged(entry, now as nat)) + before.skip(
                    seen + 1,
                ));
            }
            i += 1;
        }
        proof {
            seen = seen + 1;
        }
    }
    proof {
        assert(before.take(seen) =~= before);
        assert(entries(pool@) =~= tick_pool(before, now as nat));
    }
    notes
}

/// Reconciles `event` into `pool`.
fn reconcile(pool: &mut Vec<TrackedEntry>, event: WatcherEvent, now: u64, time: i64) -> (notes:
    Vec<WindowStatus>)
    requires
        distinct(entries(old(pool)@)),
    ensures
        distinct(entries(final(pool)@)),
        entries(final(pool)@) == reconcile_pool(entries(old(pool)@), event@, now as nat),
        views(notes@) == reconcile_notes(entries(old(pool)@), event@, time as int),
{
    let mut notes: Vec<WindowStatus> = Vec::new();
    match find(pool, &event.path) {
        Some(index) => {
            let is_audio = pool[index].is_audio;
            if !event.active && !event.is_audio && !is_audio {
                let note = remove(pool, index, time);
                notes.push(note);
            } else {
                let flag = if event.is_audio {
                    event.active
                } else {
                    is_audio
                };
                reset_timer(pool, index, flag, now);
            }
        },
        None => {
            if event.active {
                notes = evict_focus_only(pool, time);
                proof {
                    if tracks(entries(pool@), event.path@) {
                        lemma_audio_backed_tracks(entries(old(pool)@), event.path@);
                    }
                }
                let mut timer = Timer::new(GRACE_PERIOD_MS, now);
                timer.timeout();
                let entry = TrackedEntry { path: event.path, is_audio: event.is_audio, timer };
                let note = self::add(pool, entry, time);
                notes.push(note);
            }
        },
    }
    assert(views(notes@) =~= reconcile_notes(entries(old(pool)@), event@, time as int));
    notes
}

/// What `received` holds, as the contracts see it.
pub open spec fn event_view(received: Option<WatcherEvent>) -> Option<EventView> {
    match received {
        Some(event) => Some(event@),
        None => None,
    }
}

/// The engine: the pool, the running flag, the channel the probes report on
/// and the channel on which the engine announces its running flag.
pub struct Watcher {
    pool: Vec<TrackedEntry>,
    running: bool,
    events: Receiver<WatcherEvent>,
    control: Sender<WatcherStatus>,
    clock: Clock,
}

impl View for Watcher {
    type V = WatcherView;

    closed spec fn view(&self) -> WatcherView {
        WatcherView { pool: entries(self.pool@), running: self.running }
    }
}

impl Watcher {
    #[verifier::type_invariant]
    spec fn unique_paths(self) -> bool {
        distinct(entries(self.pool@))
    }

    /// A suspended engine that tracks nothing. It reads the probes' reports
    /// from `events` and announces its running flag on `control`.
    pub fn new(events: Receiver<WatcherEvent>, control: Sender<WatcherStatus>) -> (watcher:
        Watcher)
        ensures
            watcher@ == WatcherView::initial(),
    {
        let watcher = Watcher {
            pool: Vec::new(),
            running: false,
            events,
            control,
            clock: Clock::new(),
        };
        assert(watcher@.pool =~= Seq::empty());
        watcher
    }

    /// Whether the pool holds `path`.
    pub fn is_active(&self, path: String) -> (active: bool)
        ensures
            active == tracks(self@.pool, path@),
    {
        proof {
            use_type_invariant(self);
        }
        find(&self.pool, &path).is_some()
    }

    /// Whether audio keeps `path` alive; `None` if the pool does not hold it.
    pub fn is_audio(&self, path: String) -> (flag: Option<bool>)
        ensures
            distinct(self@.pool),
            match position(self@.pool, path@) {
                Some(i) => flag == Some(self@.pool[i].is_audio),
                None => flag.is_none(),
            },
    {
        proof {
            use_type_invariant(self);
        }
        match find(&self.pool, &path) {
            Some(index) => {
                assert(entries(self.pool@)[index as int].is_audio == self.pool[index as int].is_audio);
                Some(self.pool[index].is_audio)
            },
            None => None,
        }
    }

    /// Whether the engine applies the events it receives.
    pub fn is_running(&self) -> (running: bool)
        ensures
            running == self@.running,
    {
        self.running
    }

    /// The number of tracked programs.
    pub fn len(&self) -> (len: usize)
        ensures
            len == self@.pool.len(),
    {
        self.pool.len()
    }

    /// The paths in the pool with their audio flags, in pool order.
    pub fn programs(&self) -> (list: Vec<(String, bool)>)
        ensures
            list@.len() == self@.pool.len(),
            forall|i: int|
                0 <= i < list@.len() ==> (#[trigger] list@[i]).0@ == self@.pool[i].path
                    && list@[i].1 == self@.pool[i].is_audio,
    {
        let mut list: Vec<(String, bool)> = Vec::new();
        let mut i: usize = 0;
        while i < self.pool.len()
            invariant
                i <= self.pool.len(),
                list@.len() == i,
                forall|k: int|
                    0 <= k < i ==> (#[trigger] list@[k]).0@ == self@.pool[k].path && list@[k].1
                        == self@.pool[k].is_audio,
            decreases self.pool.len() - i,
        {
            let entry = &self.pool[i];
            assert(entries(self.pool@)[i as int] == entry@);
            list.push((entry.path.clone(), entry.is_audio));
            i += 1;
        }
        list
    }

    /// Stops the engine and drains the pool without a notification for any
    /// drained entry. Returns the announcement that the control channel is
    /// owed: the engine does not run.
    pub fn suspended(&mut self) -> (announcement: WatcherStatus)
        ensures
            final(self)@ == old(self)@.suspended(),
            !announcement.running,
    {
        proof {
            use_type_invariant(&*self);
        }
        self.running = false;
        let drained: Vec<TrackedEntry> = Vec::new();
        assert(entries(drained@) =~= Seq::empty());
        self.pool = drained;
        WatcherStatus { running: false }
    }

    /// Starts the engine. Returns the announcement that the control channel
    /// is owed: the engine runs.
    pub fn resumed(&mut self) -> (announcement: WatcherStatus)
        ensures
            final(self)@ == old(self)@.resumed(),
            announcement.running,
    {
        proof {
            use_type_invariant(&*self);
        }
        self.running = true;
        WatcherStatus { running: true }
    }

    /// Stops the engine and drains the pool as [`Watcher::suspended`] does,
    /// then hands its announcement to the control channel. Whether the
    /// channel takes it changes nothing.
    pub fn suspend(&mut self)
        ensures
            final(self)@ == old(self)@.suspended(),
    {
        let announcement = self.suspended();
        let _ = try_send(&self.control, announcement);
    }

    /// Starts the engine as [`Watcher::resumed`] does, then hands its
    /// announcement to the control channel. Whether the channel takes it
    /// changes nothing.
    pub fn resume(&mut self)
        ensures
            final(self)@ == old(self)@.resumed(),
    {
        let announcement = self.resumed();
        let _ = try_send(&self.control, announcement);
    }

    /// Reconciles `event` into the pool at the monotonic instant `now`, and
    /// returns the notifications that this owes, each stamped with `time`.
    pub fn handle_at(&mut self, event: WatcherEvent, now: u64, time: i64) -> (notes: Vec<
        WindowStatus,
    >)
        ensures
            distinct(final(self)@.pool),
            final(self)@ == old(self)@.handled(event@, now as nat),
            views(notes@) == reconcile_notes(old(self)@.pool, event@, time as int),
    {
        proof {
            use_type_invariant(&*self);
        }
        let mut pool: Vec<TrackedEntry> = Vec::new();
        core::mem::swap(&mut self.pool, &mut pool);
        let notes = reconcile(&mut pool, event, now, time);
        self.pool = pool;
        notes
    }

    /// Reconciles `event` into the pool at the instant the engine's clock
    /// shows, and stamps the notifications with the wall clock.
    pub fn handle(&mut self, event: WatcherEvent) -> (notes: Vec<WindowStatus>)
        ensures
            distinct(final(self)@.pool),
            exists|now: nat, time: int|
                #![trigger old(self)@.handled(event@, now), reconcile_notes(old(self)@.pool, event@, time)]
                final(self)@ == old(self)@.handled(event@, now) && views(notes@)
                    == reconcile_notes(old(self)@.pool, event@, time),
    {
        let now = self.clock.millis();
        let time = wall_millis();
        self.handle_at(event, now, time)
    }

    /// One turn of the main loop on what the event channel gave: a running
    /// engine reconciles the event at `now`, a suspended one discards it.
    pub fn turn_at(&mut self, received: Option<WatcherEvent>, now: u64, time: i64) -> (notes:
        Vec<WindowStatus>)
        ensures
            distinct(final(self)@.pool),
            final(self)@ == old(self)@.turned(event_view(received), now as nat),
            views(notes@) == old(self)@.turn_notes(event_view(received), time as int),
    {
        proof {
            use_type_invariant(&*self);
        }
        match received {
            Some(event) => {
                if self.running {
                    self.handle_at(event, now, time)
                } else {
                    let notes: Vec<WindowStatus> = Vec::new();
                    assert(views(notes@) =~= Seq::empty());
                    notes
                }
            },
            None => {
                let notes: Vec<WindowStatus> = Vec::new();
                assert(views(notes@) =~= Seq::empty());
                notes
            },
        }
    }

    /// One turn of the main loop: takes at most one event from the event
    /// channel and lets [`Watcher::turn_at`] decide on it.
    pub fn run(&mut self) -> (notes: Vec<WindowStatus>)
        ensures
            distinct(final(self)@.pool),
            exists|received: Option<EventView>, now: nat, time: int|
                #![trigger old(self)@.turned(received, now), old(self)@.turn_notes(received, time)]
                final(self)@ == old(self)@.turned(received, now) && views(notes@) == old(
                    self,
                )@.turn_notes(received, time),
    {
        let received = try_recv(&self.events);
        let now = self.clock.millis();
        let time = wall_millis();
        let ghost seen = event_view(received);
        let notes = self.turn_at(received, now, time);
        assert(self@ == old(self)@.turned(seen, now as nat));
        assert(views(notes@) == old(self)@.turn_notes(seen, time as int));
        notes
    }

    /// Lets every timer see the monotonic instant `now`, evicts the entries
    /// whose grace countdown lapses, and returns one removal for each,
    /// stamped with `time`.
    pub fn tick_at(&mut self, now: u64, time: i64) -> (notes: Vec<WindowStatus>)
        ensures
            distinct(final(self)@.pool),
            final(self)@ == old(self)@.ticked(now as nat),
            views(notes@) == tick_notes(old(self)@.pool, now as nat, time as int),
    {
        proof {
            use_type_invariant(&*self);
        }
        let mut pool: Vec<TrackedEntry> = Vec::new();
        core::mem::swap(&mut self.pool, &mut pool);
        let notes = expire(&mut pool, now, time);
        self.pool = pool;
        notes
    }

    /// Lets every timer see the instant the engine's clock shows, and stamps
    /// the removals with the wall clock.
    pub fn tick(&mut self) -> (notes: Vec<WindowStatus>)
        ensures
            distinct(final(self)@.pool),
            exists|now: nat, time: int|
                #![trigger old(self)@.ticked(now), tick_notes(old(self)@.pool, now, time)]
                final(self)@ == old(self)@.ticked(now) && views(notes@) == tick_notes(
                    old(self)@.pool,
                    now,
                    time,
                ),
    {
        let now = self.clock.millis();
        let time = wall_millis();
        self.tick_at(now, time)
    }
}

} // verus!
