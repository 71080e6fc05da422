use crossbeam_channel::{unbounded, Receiver, Sender};
use shion_watcher::clock::{clamp_millis, epoch_millis, epoch_offset, stamp, Clock};
use shion_watcher::model::GRACE_PERIOD_MS;
use shion_watcher::watcher::{Watcher, WatcherEvent, WatcherStatus, WindowStatus};

fn engine() -> (Watcher, Sender<WatcherEvent>, Receiver<WatcherStatus>) {
    let (event_tx, event_rx) = unbounded();
    let (status_tx, status_rx) = unbounded();
    (Watcher::new(event_rx, status_tx), event_tx, status_rx)
}

fn event(path: &str, is_audio: bool, active: bool) -> WatcherEvent {
    WatcherEvent { path: path.to_string(), is_audio, active }
}

fn told(notes: &[WindowStatus]) -> Vec<(String, bool, i64)> {
    notes.iter().map(|n| (n.path.clone(), n.active, n.time)).collect()
}

fn note(path: &str, active: bool, time: i64) -> (String, bool, i64) {
    (path.to_string(), active, time)
}

#[test]
fn new_engine_is_suspended_and_tracks_nothing() {
    let (watcher, _events, _status) = engine();
    assert!(!watcher.is_running());
    assert_eq!(watcher.len(), 0);
    assert!(!watcher.is_active("A".to_string()));
    assert_eq!(watcher.is_audio("A".to_string()), None);
}

#[test]
fn grace_period_is_sixty_seconds() {
    assert_eq!(GRACE_PERIOD_MS, 60_000);
}

#[test]
fn first_activation_adds_the_program_and_notifies() {
    let (mut watcher, _events, _status) = engine();
    let notes = watcher.handle_at(event("A", false, true), 0, 1000);
    assert_eq!(told(&notes), vec![note("A", true, 1000)]);
    assert!(watcher.is_active("A".to_string()));
    assert_eq!(watcher.is_audio("A".to_string()), Some(false));
    assert_eq!(watcher.len(), 1);
}

#[test]
fn new_focus_evicts_the_focus_only_entry_before_adding() {
    let (mut watcher, _events, _status) = engine();
    watcher.handle_at(event("B", false, true), 0, 10);
    let notes = watcher.handle_at(event("A", false, true), 5, 20);
    assert_eq!(told(&notes), vec![note("B", false, 20), note("A", true, 20)]);
    assert!(!watcher.is_active("B".to_string()));
    assert!(watcher.is_active("A".to_string()));
    assert_eq!(watcher.len(), 1);
}

#[test]
fn new_focus_evicts_focus_only_entries_last_added_first_and_spares_audio() {
    let (mut watcher, _events, _status) = engine();
    watcher.handle_at(event("music", true, true), 0, 1);
    watcher.handle_at(event("radio", true, true), 0, 2);
    watcher.handle_at(event("editor", false, true), 0, 3);
    // The audio of "music" stops: two entries are now kept by focus alone.
    watcher.handle_at(event("music", true, false), 0, 4);
    assert_eq!(watcher.is_audio("music".to_string()), Some(false));
    let notes = watcher.handle_at(event("browser", false, true), 0, 5);
    assert_eq!(
        told(&notes),
        vec![note("editor", false, 5), note("music", false, 5), note("browser", true, 5)]
    );
    assert!(watcher.is_active("radio".to_string()));
    assert!(watcher.is_active("browser".to_string()));
    assert_eq!(watcher.len(), 2);
}

#[test]
fn focus_loss_does_not_evict_an_audio_backed_entry() {
    let (mut watcher, _events, _status) = engine();
    watcher.handle_at(event("A", true, true), 0, 1);
    let notes = watcher.handle_at(event("A", false, false), 10, 2);
    assert!(notes.is_empty());
    assert!(watcher.is_active("A".to_string()));
    // Audio still plays: the entry stays audio-backed.
    assert_eq!(watcher.is_audio("A".to_string()), Some(true));
}

#[test]
fn audio_stop_clears_the_flag_without_evicting() {
    let (mut watcher, _events, _status) = engine();
    watcher.handle_at(event("A", true, true), 0, 1);
    let notes = watcher.handle_at(event("A", true, false), 10, 2);
    assert!(notes.is_empty());
    assert!(watcher.is_active("A".to_string()));
    assert_eq!(watcher.is_audio("A".to_string()), Some(false));
    // Now a loss of focus evicts it.
    let notes = watcher.handle_at(event("A", false, false), 20, 3);
    assert_eq!(told(&notes), vec![note("A", false, 3)]);
    assert_eq!(watcher.len(), 0);
}

#[test]
fn audio_flag_is_not_cleared_by_a_focus_activation() {
    let (mut watcher, _events, _status) = engine();
    watcher.handle_at(event("A", false, true), 0, 1);
    let notes = watcher.handle_at(event("A", true, true), 1, 2);
    assert!(notes.is_empty());
    assert_eq!(watcher.is_audio("A".to_string()), Some(true));
    let notes = watcher.handle_at(event("A", false, true), 2, 3);
    assert!(notes.is_empty());
    assert_eq!(watcher.is_audio("A".to_string()), Some(true));
    assert_eq!(watcher.len(), 1);
}

#[test]
fn deactivation_of_an_untracked_program_changes_nothing() {
    let (mut watcher, _events, _status) = engine();
    watcher.handle_at(event("A", false, true), 0, 1);
    assert!(watcher.handle_at(event("B", false, false), 1, 2).is_empty());
    assert!(watcher.handle_at(event("B", true, false), 1, 2).is_empty());
    assert!(watcher.is_active("A".to_string()));
    assert_eq!(watcher.len(), 1);
}

#[test]
fn add_then_remove_gives_two_notifications_and_an_empty_pool() {
    let (mut watcher, _events, _status) = engine();
    let mut notes = watcher.handle_at(event("A", false, true), 0, 7);
    notes.extend(watcher.handle_at(event("A", false, false), 0, 8));
    assert_eq!(told(&notes), vec![note("A", true, 7), note("A", false, 8)]);
    assert_eq!(watcher.len(), 0);
    assert!(!watcher.is_active("A".to_string()));
    assert!(!watcher.is_active("A".to_string()));
}

#[test]
fn new_focus_arrives_before_the_old_focus_is_deactivated() {
    // The newcomer evicts the old focus at once; the deactivation that
    // arrives later for the old focus finds nothing left to do.
    let (mut watcher, _events, _status) = engine();
    let mut notes = Vec::new();
    notes.extend(watcher.handle_at(event("A", false, true), 0, 1));
    notes.extend(watcher.handle_at(event("B", false, true), 1, 2));
    notes.extend(watcher.handle_at(event("A", false, false), 2, 3));
    assert_eq!(told(&notes), vec![note("A", true, 1), note("A", false, 2), note("B", true, 2)]);
    assert!(watcher.is_active("B".to_string()));
    assert!(!watcher.is_active("A".to_string()));
    assert_eq!(watcher.len(), 1);
}

#[test]
fn pool_never_holds_a_path_twice() {
    let (mut watcher, _events, _status) = engine();
    let paths = ["A", "B", "A", "C", "A", "B"];
    for (i, path) in paths.iter().enumerate() {
        watcher.handle_at(event(path, i % 2 == 0, true), i as u64, i as i64);
        watcher.handle_at(event(path, false, true), i as u64, i as i64);
        let held = ["A", "B", "C"].iter().filter(|p| watcher.is_active(p.to_string())).count();
        assert_eq!(watcher.len(), held);
    }
    assert_eq!(watcher.len(), 2);
}

#[test]
fn grace_countdown_evicts_a_focus_only_entry_after_sixty_seconds() {
    let (mut watcher, _events, _status) = engine();
    watcher.handle_at(event("A", false, true), 1000, 1);
    assert!(watcher.tick_at(60_999, 2).is_empty());
    assert!(watcher.is_active("A".to_string()));
    let notes = watcher.tick_at(61_000, 3);
    assert_eq!(told(&notes), vec![note("A", false, 3)]);
    assert!(!watcher.is_active("A".to_string()));
    assert!(watcher.tick_at(200_000, 4).is_empty());
}

#[test]
fn refresh_restarts_the_grace_countdown() {
    let (mut watcher, _events, _status) = engine();
    watcher.handle_at(event("A", false, true), 0, 1);
    watcher.handle_at(event("A", false, true), 30_000, 2);
    assert!(watcher.tick_at(60_000, 3).is_empty());
    assert!(watcher.tick_at(89_999, 4).is_empty());
    assert_eq!(told(&watcher.tick_at(90_000, 5)), vec![note("A", false, 5)]);
}

#[test]
fn audio_backed_entry_outlives_its_countdown_until_audio_stops() {
    let (mut watcher, _events, _status) = engine();
    watcher.handle_at(event("A", true, true), 0, 1);
    assert!(watcher.tick_at(60_000, 2).is_empty());
    assert!(watcher.tick_at(600_000, 3).is_empty());
    assert!(watcher.is_active("A".to_string()));
    // Audio stops: the countdown starts over from now.
    watcher.handle_at(event("A", true, false), 700_000, 4);
    assert!(watcher.tick_at(759_999, 5).is_empty());
    assert_eq!(told(&watcher.tick_at(760_000, 6)), vec![note("A", false, 6)]);
}

#[test]
fn tick_evicts_lapsed_entries_in_pool_order() {
    let (mut watcher, _events, _status) = engine();
    watcher.handle_at(event("A", true, true), 0, 1);
    watcher.handle_at(event("B", true, true), 10, 1);
    watcher.handle_at(event("C", true, true), 20, 1);
    watcher.handle_at(event("A", true, false), 100, 1);
    watcher.handle_at(event("C", true, false), 100, 1);
    let notes = watcher.tick_at(60_100, 9);
    assert_eq!(told(&notes), vec![note("A", false, 9), note("C", false, 9)]);
    assert!(watcher.is_active("B".to_string()));
    assert_eq!(watcher.len(), 1);
}

#[test]
fn suspend_drains_the_pool_silently_and_announces_the_stop() {
    let (mut watcher, _events, status) = engine();
    watcher.resume();
    assert!(status.try_recv().unwrap().running);
    watcher.handle_at(event("A", false, true), 0, 1);
    watcher.handle_at(event("B", true, true), 0, 1);
    watcher.suspend();
    assert!(!watcher.is_running());
    assert_eq!(watcher.len(), 0);
    assert!(!status.try_recv().unwrap().running);
    assert!(status.try_recv().is_err());
}

#[test]
fn suspended_engine_discards_the_events_it_receives() {
    let (mut watcher, events, _status) = engine();
    watcher.resume();
    watcher.suspend();
    events.send(event("A", false, true)).unwrap();
    let notes = watcher.run();
    assert!(notes.is_empty());
    assert_eq!(watcher.len(), 0);
    assert!(!watcher.is_active("A".to_string()));
    // The event was taken from the channel, not left to pile up.
    assert!(watcher.run().is_empty());
    assert!(watcher.turn_at(Some(event("B", true, true)), 0, 0).is_empty());
    assert!(!watcher.is_active("B".to_string()));
}

#[test]
fn resumed_engine_reconciles_the_next_event() {
    let (mut watcher, events, _status) = engine();
    watcher.suspend();
    watcher.resume();
    assert!(watcher.is_running());
    events.send(event("A", false, true)).unwrap();
    let notes = watcher.run();
    assert_eq!(notes.len(), 1);
    assert_eq!(notes[0].path, "A");
    assert!(notes[0].active);
    assert!(watcher.is_active("A".to_string()));
}

#[test]
fn run_takes_one_event_per_turn_in_arrival_order() {
    let (mut watcher, events, _status) = engine();
    watcher.resume();
    events.send(event("A", false, true)).unwrap();
    events.send(event("B", false, true)).unwrap();
    let first = watcher.run();
    assert_eq!(first.len(), 1);
    assert_eq!(first[0].path, "A");
    assert!(watcher.is_active("A".to_string()));
    assert!(!watcher.is_active("B".to_string()));
    let second = watcher.run();
    assert_eq!(second.len(), 2);
    assert_eq!((second[0].path.as_str(), second[0].active), ("A", false));
    assert_eq!((second[1].path.as_str(), second[1].active), ("B", true));
    assert!(watcher.run().is_empty());
}

#[test]
fn run_on_a_disconnected_channel_finds_no_event() {
    let (mut watcher, events, status) = engine();
    watcher.resume();
    drop(events);
    drop(status);
    assert!(watcher.run().is_empty());
    watcher.suspend();
    watcher.resume();
    assert!(watcher.is_running());
}

#[test]
fn handle_stamps_notifications_with_the_wall_clock() {
    let (mut watcher, _events, _status) = engine();
    let notes = watcher.handle(event("A", false, true));
    assert_eq!(notes.len(), 1);
    // Later than the first of January 2020.
    assert!(notes[0].time > 1_577_836_800_000);
    assert!(watcher.tick().is_empty());
    assert!(watcher.is_active("A".to_string()));
}

#[test]
fn clock_does_not_run_backwards() {
    let clock = Clock::new();
    let first = clock.millis();
    let second = clock.millis();
    assert!(first <= second);
    assert!(second < 60_000);
}

#[test]
fn clamp_holds_a_count_that_does_not_fit() {
    assert_eq!(clamp_millis(0), 0);
    assert_eq!(clamp_millis(1234), 1234);
    assert_eq!(clamp_millis(u64::MAX as u128), u64::MAX);
    assert_eq!(clamp_millis(u64::MAX as u128 + 1), u64::MAX);
    assert_eq!(clamp_millis(u128::MAX), u64::MAX);
}

#[test]
fn programs_lists_paths_and_flags_in_pool_order() {
    let (mut watcher, _events, _status) = engine();
    assert!(watcher.programs().is_empty());
    watcher.handle_at(event("music", true, true), 0, 1);
    watcher.handle_at(event("editor", false, true), 0, 2);
    assert_eq!(
        watcher.programs(),
        vec![("music".to_string(), true), ("editor".to_string(), false)]
    );
    watcher.handle_at(event("music", true, false), 0, 3);
    assert_eq!(
        watcher.programs(),
        vec![("music".to_string(), false), ("editor".to_string(), false)]
    );
}

#[test]
fn epoch_millis_counts_from_the_epoch_in_both_directions() {
    assert_eq!(epoch_millis(true, 0, 0), 0);
    assert_eq!(epoch_millis(true, 1, 444_000_000), 1_444);
    assert_eq!(epoch_millis(true, 1_000_000_000, 555_000_000), 1_000_000_000_555);
    assert_eq!(epoch_millis(true, 1, 999_999), 1_000);
    assert_eq!(epoch_millis(false, 0, 0), 0);
    assert_eq!(epoch_millis(false, 1, 0), -1_000);
    assert_eq!(epoch_millis(false, 0, 1_000_000), -1);
    assert_eq!(epoch_millis(false, 0, 1), -1);
    assert_eq!(epoch_millis(false, 2, 500_000_000), -2_500);
}

#[test]
fn epoch_millis_holds_at_the_end_of_the_range() {
    assert_eq!(epoch_millis(true, u64::MAX, 0), i64::MAX);
    assert_eq!(epoch_millis(false, u64::MAX, 0), i64::MIN);
    assert_eq!(epoch_millis(true, i64::MAX as u64, 0), i64::MAX);
    assert_eq!(epoch_millis(false, i64::MAX as u64 + 1, 0), i64::MIN);
    assert_eq!(epoch_millis(true, 5, 1_000_000_000), i64::MAX);
    assert_eq!(epoch_millis(false, 5, u32::MAX), i64::MIN);
}

#[test]
fn epoch_offset_counts_seconds_downwards_before_the_epoch() {
    assert_eq!(epoch_offset(true, 7, 5), Some((7, 5)));
    assert_eq!(epoch_offset(false, 7, 0), Some((-7, 0)));
    assert_eq!(epoch_offset(false, 7, 5), Some((-8, 999_999_995)));
    assert_eq!(epoch_offset(false, 0, 1), Some((-1, 999_999_999)));
    assert_eq!(epoch_offset(false, i64::MAX as u64 + 1, 0), Some((i64::MIN, 0)));
    assert_eq!(epoch_offset(false, i64::MAX as u64, 1), Some((i64::MIN, 999_999_999)));
    assert_eq!(epoch_offset(false, i64::MAX as u64 + 1, 1), None);
    assert_eq!(epoch_offset(true, i64::MAX as u64 + 1, 0), None);
    assert_eq!(epoch_offset(true, 0, 1_000_000_000), None);
}

#[test]
fn stamp_is_the_count_or_the_end_of_the_range() {
    assert_eq!(stamp(true, Some(12)), 12);
    assert_eq!(stamp(false, Some(-12)), -12);
    assert_eq!(stamp(true, None), i64::MAX);
    assert_eq!(stamp(false, None), i64::MIN);
}

#[test]
fn epoch_millis_is_the_count_up_to_the_representable_span() {
    assert_eq!(epoch_millis(true, 8_000_000_000_000, 999_999_999), 8_000_000_000_000_999);
    assert_eq!(epoch_millis(false, 8_000_000_000_000, 0), -8_000_000_000_000_000);
    assert_eq!(epoch_millis(false, 7_999_999_999_999, 1), -7_999_999_999_999_001);
    assert_eq!(epoch_millis(true, 1_700_000_000, 123_456_789), 1_700_000_000_123);
}

#[test]
fn suspended_drains_the_pool_and_returns_the_stop_announcement() {
    let (mut watcher, _events, status) = engine();
    watcher.resume();
    assert!(status.try_recv().unwrap().running);
    watcher.handle_at(event("A", false, true), 0, 1);
    let announcement = watcher.suspended();
    assert!(!announcement.running);
    assert!(!watcher.is_running());
    assert_eq!(watcher.len(), 0);
    // Nothing was sent: the announcement is the caller's to deliver.
    assert!(status.try_recv().is_err());
}

#[test]
fn resumed_starts_the_engine_and_returns_the_start_announcement() {
    let (mut watcher, _events, status) = engine();
    watcher.handle_at(event("A", false, true), 0, 1);
    let announcement = watcher.resumed();
    assert!(announcement.running);
    assert!(watcher.is_running());
    assert!(watcher.is_active("A".to_string()));
    assert!(status.try_recv().is_err());
}

#[test]
fn suspend_and_resume_announce_exactly_one_message_each() {
    let (mut watcher, events, status) = engine();
    events.send(event("A", false, true)).unwrap();
    watcher.suspend();
    assert!(!status.try_recv().unwrap().running);
    assert!(status.try_recv().is_err());
    watcher.resume();
    assert!(status.try_recv().unwrap().running);
    assert!(status.try_recv().is_err());
    // The event channel was not touched by either.
    assert_eq!(watcher.run().len(), 1);
}
