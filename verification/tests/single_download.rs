use download_tracker::{Notification, SingleDownloadTracker, Unit, DEBOUNCE_SECS};
use std::time::Duration;

fn record(tracker: &SingleDownloadTracker) -> (bool, Option<u64>, u64) {
    (tracker.is_visible(), tracker.total(), tracker.received())
}

#[test]
fn new_single_tracker_is_hidden_and_empty() {
    let tracker = SingleDownloadTracker::new_with_display_progress(true, true);
    assert_eq!(record(&tracker), (false, None, 0));
    assert_eq!(tracker.progress_bar().position(), 0);
    assert_eq!(tracker.progress_bar().length(), None);
    assert!(tracker.progress_bar().is_hidden());
}

#[test]
fn debounce_is_one_second() {
    assert_eq!(DEBOUNCE_SECS, 1);
    let tracker = SingleDownloadTracker::new_with_display_progress(true, true);
    assert!(!tracker.should_reveal(0));
    assert!(tracker.should_reveal(1));
    assert!(tracker.should_reveal(u64::MAX));
}

#[test]
fn reveal_needs_display_and_terminal() {
    assert!(!SingleDownloadTracker::new_with_display_progress(false, true).should_reveal(5));
    assert!(!SingleDownloadTracker::new_with_display_progress(true, false).should_reveal(5));
    assert!(!SingleDownloadTracker::new_with_display_progress(false, false).should_reveal(5));
    assert!(SingleDownloadTracker::new_with_display_progress(true, true).should_reveal(5));
}

#[test]
fn fast_download_stays_hidden() {
    let mut tracker = SingleDownloadTracker::new_with_display_progress(true, true);
    tracker.content_length_received(3000);
    for _ in 0..3 {
        tracker.data_received_after(1000, 0);
        assert!(!tracker.is_visible());
    }
    assert_eq!(record(&tracker), (false, Some(3000), 3000));
}

#[test]
fn slow_download_is_shown() {
    let mut tracker = SingleDownloadTracker::new_with_display_progress(true, true);
    tracker.content_length_received(3000);
    tracker.data_received_after(1000, 0);
    assert!(!tracker.is_visible());
    tracker.data_received_after(1000, 1);
    assert!(tracker.is_visible());
    assert!(!tracker.should_reveal(2));
    tracker.data_received_after(1000, 2);
    assert_eq!(record(&tracker), (true, Some(3000), 3000));
}

#[test]
fn fresh_line_reads_its_own_clock_as_young() {
    let mut tracker = SingleDownloadTracker::new_with_display_progress(true, true);
    let chunk = [0u8; 16];
    assert!(tracker.handle_notification(&Notification::DownloadDataReceived(&chunk, "")));
    assert_eq!(record(&tracker), (false, None, 16));
    assert_eq!(tracker.progress_bar().position(), 16);
}

#[test]
fn old_line_reads_its_own_clock_as_old() {
    let mut tracker = SingleDownloadTracker::new_with_display_progress(true, true);
    tracker.progress_bar().set_elapsed(Duration::from_secs(2));
    let chunk = [0u8; 16];
    assert!(tracker.handle_notification(&Notification::DownloadDataReceived(&chunk, "")));
    assert_eq!(record(&tracker), (true, None, 16));
}

#[test]
fn no_terminal_never_shows() {
    let mut tracker = SingleDownloadTracker::new_with_display_progress(true, false);
    tracker.progress_bar().set_elapsed(Duration::from_secs(2));
    let big = vec![0u8; 4096];
    let small = [0u8; 1];
    for _ in 0..5 {
        assert!(tracker.handle_notification(&Notification::DownloadDataReceived(&big, "a")));
        assert!(tracker.handle_notification(&Notification::DownloadDataReceived(&small, "a")));
        assert!(!tracker.is_visible());
    }
    // Without a terminal the data never reaches the line.
    assert_eq!(record(&tracker), (false, None, 0));
    assert_eq!(tracker.progress_bar().position(), 0);
}

#[test]
fn no_terminal_counts_direct_calls_but_stays_hidden() {
    let mut tracker = SingleDownloadTracker::new_with_display_progress(true, false);
    tracker.data_received_after(10, 5);
    tracker.data_received_after(usize::MAX, u64::MAX);
    assert!(!tracker.is_visible());
    assert_eq!(tracker.total(), None);
    assert!(tracker.received() >= 10);
}

#[test]
fn display_disabled_never_shows() {
    let mut tracker = SingleDownloadTracker::new_with_display_progress(false, true);
    tracker.data_received_after(10, 5);
    tracker.data_received_after(10, 50);
    assert_eq!(record(&tracker), (false, None, 20));
}

#[test]
fn total_can_be_set_hidden_or_shown() {
    let mut tracker = SingleDownloadTracker::new_with_display_progress(true, true);
    tracker.content_length_received(10);
    assert_eq!(record(&tracker), (false, Some(10), 0));
    assert_eq!(tracker.progress_bar().length(), Some(10));
    tracker.data_received_after(1, 1);
    tracker.content_length_received(20);
    assert_eq!(record(&tracker), (true, Some(20), 1));
    assert_eq!(tracker.progress_bar().length(), Some(20));
}

#[test]
fn finish_starts_over() {
    let mut tracker = SingleDownloadTracker::new_with_display_progress(true, true);
    tracker.content_length_received(10);
    tracker.data_received_after(10, 3);
    assert_eq!(record(&tracker), (true, Some(10), 10));
    tracker.download_finished();
    assert_eq!(record(&tracker), (false, None, 0));
    assert_eq!(tracker.progress_bar().position(), 0);
    assert_eq!(tracker.progress_bar().length(), None);
    assert!(!tracker.progress_bar().is_finished());
    assert!(tracker.progress_bar().elapsed() < Duration::from_secs(1));
    // The next download runs as on a new tracker.
    tracker.content_length_received(7);
    tracker.data_received_after(3, 0);
    assert_eq!(record(&tracker), (false, Some(7), 3));
    tracker.data_received_after(4, 1);
    assert_eq!(record(&tracker), (true, Some(7), 7));
    tracker.download_finished();
    assert_eq!(record(&tracker), (false, None, 0));
}

#[test]
fn finish_without_a_download_is_harmless() {
    let mut tracker = SingleDownloadTracker::new_with_display_progress(false, false);
    tracker.download_finished();
    tracker.download_finished();
    assert_eq!(record(&tracker), (false, None, 0));
}

#[test]
fn single_chunks_add_up() {
    let mut tracker = SingleDownloadTracker::new_with_display_progress(true, true);
    let chunks = [5usize, 0, 11, 100];
    let clocks = [0u64, 0, 1, 7];
    let mut sum = 0u64;
    for (len, clock) in chunks.iter().zip(clocks.iter()) {
        tracker.data_received_after(*len, *clock);
        sum += *len as u64;
        assert_eq!(tracker.received(), sum);
    }
    assert_eq!(tracker.received(), 116);
    assert_eq!(tracker.progress_bar().position(), 116);
}

#[test]
fn single_received_stops_at_the_largest_number() {
    let mut tracker = SingleDownloadTracker::new_with_display_progress(false, false);
    let mut rest = u64::MAX;
    while rest > 0 {
        let step = if rest > usize::MAX as u64 { usize::MAX } else { rest as usize };
        tracker.data_received_after(step, 0);
        rest -= step as u64;
    }
    assert_eq!(tracker.received(), u64::MAX);
    tracker.data_received_after(9, 0);
    assert_eq!(tracker.received(), u64::MAX);
}

#[test]
fn single_dispatch_tells_its_own_from_the_rest() {
    let mut tracker = SingleDownloadTracker::new_with_display_progress(true, true);
    let chunk = [0u8; 4];
    assert!(tracker.handle_notification(&Notification::DownloadContentLengthReceived(8, "f")));
    assert!(tracker.handle_notification(&Notification::DownloadDataReceived(&chunk, "f")));
    assert!(tracker.handle_notification(&Notification::DownloadPushUnit(Unit::Bytes)));
    assert!(tracker.handle_notification(&Notification::DownloadPopUnit));
    assert_eq!(record(&tracker), (false, Some(8), 4));
    assert!(!tracker.handle_notification(&Notification::DownloadingComponent("rustc")));
    assert!(!tracker.handle_notification(&Notification::Unrelated));
    assert_eq!(record(&tracker), (false, Some(8), 4));
    assert!(tracker.handle_notification(&Notification::DownloadFinished("f")));
    assert_eq!(record(&tracker), (false, None, 0));
}

#[test]
fn single_stream_gives_back_what_is_not_its_own() {
    let mut tracker = SingleDownloadTracker::new_with_display_progress(true, true);
    let chunk = [0u8; 4];
    let left = tracker.handle_all(&[
        Notification::DownloadingComponent("rustc"),
        Notification::DownloadContentLengthReceived(8, "f"),
        Notification::DownloadDataReceived(&chunk, "f"),
        Notification::Unrelated,
        Notification::DownloadDataReceived(&chunk, "f"),
        Notification::DownloadPushUnit(Unit::Items),
    ]);
    assert_eq!(left.len(), 2);
    assert!(matches!(left[0], Notification::DownloadingComponent("rustc")));
    assert!(matches!(left[1], Notification::Unrelated));
    assert_eq!(record(&tracker), (false, Some(8), 8));
    let left = tracker.handle_all(&[Notification::DownloadFinished("f")]);
    assert!(left.is_empty());
    assert_eq!(record(&tracker), (false, None, 0));
}

#[test]
fn single_stream_without_terminal_drops_data() {
    let mut tracker = SingleDownloadTracker::new_with_display_progress(true, false);
    tracker.progress_bar().set_elapsed(Duration::from_secs(3));
    let chunk = [0u8; 4];
    let left = tracker.handle_all(&[
        Notification::DownloadContentLengthReceived(8, "f"),
        Notification::DownloadDataReceived(&chunk, "f"),
        Notification::DownloadDataReceived(&chunk, "f"),
    ]);
    assert!(left.is_empty());
    assert_eq!(record(&tracker), (false, Some(8), 0));
}

#[test]
fn single_stream_shows_an_old_line() {
    let mut tracker = SingleDownloadTracker::new_with_display_progress(true, true);
    tracker.progress_bar().set_elapsed(Duration::from_secs(3));
    let chunk = [0u8; 4];
    let left = tracker.handle_all(&[
        Notification::DownloadContentLengthReceived(8, "f"),
        Notification::DownloadDataReceived(&chunk, "f"),
    ]);
    assert!(left.is_empty());
    assert_eq!(record(&tracker), (true, Some(8), 4));
}
