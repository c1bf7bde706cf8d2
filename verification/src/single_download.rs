//! Tracking one download at a time on a single, short-lived status line.
//!
//! The line stays hidden until the download has run for a while, so that a
//! fast or cached transfer never flickers on the terminal. When the download
//! finishes the line is wiped and the tracker starts over, ready for the
//! next download.

use vstd::prelude::*;
use indicatif::{ProgressBar, ProgressDrawTarget, ProgressStyle};
use crate::notification::{signals_of, Notification, Signal};
use crate::counter::{add_bytes, count_chunk};

verus! {

/// The seconds a download must have run before its line is shown.
pub const DEBOUNCE_SECS: u64 = 1;

/// What a tracker of one download has recorded.
pub struct SingleRecord {
    /// Whether progress is to be displayed at all.
    pub display_enabled: bool,
    /// Whether standard output is a terminal.
    pub is_tty: bool,
    /// Whether the line is shown.
    pub visible: bool,
    /// The total size, once a content length has arrived.
    pub total: Option<u64>,
    /// The bytes received so far.
    pub received: u64,
}

/// The record of a tracker that has not seen a notification yet.
pub open spec fn initial(display_enabled: bool, is_tty: bool) -> SingleRecord {
    SingleRecord { display_enabled, is_tty, visible: false, total: None, received: 0 }
}

/// Whether data arriving `elapsed_secs` seconds after the line was made
/// brings the line up: it is hidden, display is enabled, standard output is
/// a terminal, and the debounce time has passed.
pub open spec fn reveals(s: SingleRecord, elapsed_secs: u64) -> bool {
    !s.visible && s.display_enabled && s.is_tty && elapsed_secs >= DEBOUNCE_SECS
}

/// The record after the total size became known.
pub open spec fn single_with_total(s: SingleRecord, size: u64) -> SingleRecord {
    SingleRecord { total: Some(size), ..s }
}

/// The record after `len` bytes arrived `elapsed_secs` seconds after the
/// line was made.
pub open spec fn single_advanced(s: SingleRecord, len: nat, elapsed_secs: u64) -> SingleRecord {
    SingleRecord {
        visible: s.visible || reveals(s, elapsed_secs),
        received: add_bytes(s.received, len),
        ..s
    }
}

/// The record after the download finished: that of a new tracker with the
/// same configuration.
pub open spec fn single_finished(s: SingleRecord) -> SingleRecord {
    initial(s.display_enabled, s.is_tty)
}

/// Whether a tracker of one download takes `signal` for its own.
pub open spec fn single_consumes(signal: Signal) -> bool {
    signal is ContentLength || signal is Data || signal is Finished || signal is PushUnit
        || signal is PopUnit
}

/// The record after one notification that arrived `elapsed_secs` seconds
/// after the line was made. Data is dropped unless standard output is a
/// terminal.
pub open spec fn single_step(s: SingleRecord, signal: Signal, elapsed_secs: u64) -> SingleRecord {
    match signal {
        Signal::ContentLength { size, file } => single_with_total(s, size),
        Signal::Data { len, file } => if s.is_tty {
            single_advanced(s, len, elapsed_secs)
        } else {
            s
        },
        Signal::Finished { file } => single_finished(s),
        Signal::ComponentStarted { name } => s,
        Signal::PushUnit => s,
        Signal::PopUnit => s,
        Signal::Unrelated => s,
    }
}

/// The record after a sequence of notifications, first to last, each with
/// the seconds that its line had been up for when it arrived.
pub open spec fn single_run(s: SingleRecord, timed: Seq<(Signal, u64)>) -> SingleRecord
    decreases timed.len(),
{
    if timed.len() == 0 {
        s
    } else {
        single_step(single_run(s, timed.drop_last()), timed.last().0, timed.last().1)
    }
}

/// Each signal with the seconds that the line had been up for when it
/// arrived.
pub open spec fn timed(signals: Seq<Signal>, clocks: Seq<u64>) -> Seq<(Signal, u64)> {
    Seq::new(signals.len(), |i: int| (signals[i], clocks[i]))
}

/// The notifications that a tracker of one download leaves for other
/// handlers, in order.
pub open spec fn single_passed_on<'a>(notifications: Seq<Notification<'a>>) -> Seq<
    Notification<'a>,
> {
    notifications.filter(|n: Notification<'a>| !single_consumes(n@))
}

/// Tracks the progress of one download at a time and displays information
/// about it to a terminal.
pub struct SingleDownloadTracker {
    /// Whether we display progress or not.
    display_progress: bool,
    /// Whether standard output is a terminal.
    stdout_is_a_tty: bool,
    /// Whether the line is shown.
    visible: bool,
    /// The total size of the current download, once it is known.
    total: Option<u64>,
    /// The bytes of the current download received so far.
    received: u64,
    /// The line of the current download.
    progress_bar: ProgressBar,
}

impl View for SingleDownloadTracker {
    type V = SingleRecord;

    closed spec fn view(&self) -> SingleRecord {
        SingleRecord {
            display_enabled: self.display_progress,
            is_tty: self.stdout_is_a_tty,
            visible: self.visible,
            total: self.total,
            received: self.received,
        }
    }
}

impl SingleDownloadTracker {
    /// Creates a tracker with a hidden line. The caller says whether
    /// progress is to be displayed and whether standard output is a
    /// terminal; the tracker takes both as given and decides by them alone.
    pub fn new_with_display_progress(display_progress: bool, stdout_is_a_tty: bool) -> (tracker:
        Self)
        ensures
            tracker@ == initial(display_progress, stdout_is_a_tty),
    {
        Self {
            display_progress,
            stdout_is_a_tty,
            visible: false,
            total: None,
            received: 0,
            progress_bar: ProgressBar::hidden(),
        }
    }

    /// Routes one notification to the operation it stands for and tells
    /// whether it was one of the tracker's own. Data is dropped unless
    /// standard output is a terminal. Unit changes are taken and ignored;
    /// anything else is left for other handlers.
    ///
    /// Data on a terminal makes the tracker read the line's clock, so the
    /// new record is then the step for some reading of it. In every other
    /// case the clock plays no part.
    pub fn handle_notification(&mut self, n: &Notification<'_>) -> (consumed: bool)
        ensures
            consumed == single_consumes(n@),
            exists|elapsed_secs: u64| final(self)@ == single_step(old(self)@, n@, elapsed_secs),
            !(n@ is Data && old(self)@.is_tty) ==> forall|elapsed_secs: u64|
                final(self)@ == #[trigger] single_step(old(self)@, n@, elapsed_secs),
    {
        let consumed = match *n {
            Notification::DownloadContentLengthReceived(content_len, _) => {
                self.content_length_received(content_len);
                true
            },
            Notification::DownloadDataReceived(data, _) => {
                if self.stdout_is_a_tty {
                    self.data_received(data.len());
                }
                true
            },
            Notification::DownloadFinished(_) => {
                self.download_finished();
                true
            },
            Notification::DownloadPushUnit(_) => true,
            Notification::DownloadPopUnit => true,
            _ => false,
        };
        proof {
            let elapsed_secs: u64 = if n@ is Data && old(self)@.is_tty {
                choose|elapsed_secs: u64|
                    self@ == single_advanced(old(self)@, n@->Data_len, elapsed_secs)
            } else {
                0
            };
            assert(self@ == single_step(old(self)@, n@, elapsed_secs));
        }
        consumed
    }

    /// Routes a stream of notifications, first to last, and gives back
    /// those that were not the tracker's own. The new record is that of the
    /// run for some readings of the line's clock, one for each notification.
    pub fn handle_all<'a>(&mut self, notifications: &[Notification<'a>]) -> (left: Vec<
        Notification<'a>,
    >)
        ensures
            exists|clocks: Seq<u64>|
                clocks.len() == notifications@.len() && final(self)@ == single_run(
                    old(self)@,
                    #[trigger] timed(signals_of(notifications@), clocks),
                ),
            left@ == single_passed_on(notifications@),
    {
        let ghost start = self@;
        let ghost mut clocks: Seq<u64> = Seq::empty();
        let mut left: Vec<Notification<'a>> = Vec::new();
        let mut i: usize = 0;
        proof {
            reveal(Seq::filter);
            assert(notifications@.take(0) =~= Seq::<Notification<'a>>::empty());
            assert(timed(signals_of(notifications@.take(0)), clocks) =~= Seq::<
                (Signal, u64),
            >::empty());
        }
        while i < notifications.len()
            invariant
                i <= notifications@.len(),
                clocks.len() == i,
                self@ == single_run(
                    start,
                    timed(signals_of(notifications@.take(i as int)), clocks),
                ),
                left@ == single_passed_on(notifications@.take(i as int)),
            decreases notifications@.len() - i,
        {
            let n = notifications[i];
            let ghost before = self@;
            let consumed = self.handle_notification(&n);
            if !consumed {
                left.push(n);
            }
            proof {
                let elapsed_secs = choose|elapsed_secs: u64|
                    self@ == single_step(before, n@, elapsed_secs);
                let seen = notifications@.take(i as int);
                let next = notifications@.take(i + 1);
                let earlier = timed(signals_of(seen), clocks);
                clocks = clocks.push(elapsed_secs);
                let later = timed(signals_of(next), clocks);
                assert(next.drop_last() =~= seen);
                assert(next.last() == n);
                assert(later.drop_last() =~= earlier);
                assert(later.last() == (n@, elapsed_secs));
                reveal(Seq::filter);
            }
            i += 1;
        }
        proof {
            assert(notifications@.take(i as int) =~= notifications@);
        }
        left
    }

    /// Whether data arriving `elapsed_secs` seconds after the line was made
    /// brings the line up.
    pub fn should_reveal(&self, elapsed_secs: u64) -> (reveal: bool)
        ensures
            reveal == reveals(self@, elapsed_secs),
    {
        !self.visible && self.display_progress && self.stdout_is_a_tty && elapsed_secs
            >= DEBOUNCE_SECS
    }

    /// Records the total size of the download, sets the length of its line
    /// and gives the line its in-progress style.
    pub fn content_length_received(&mut self, content_len: u64)
        ensures
            final(self)@ == single_with_total(old(self)@, content_len),
    {
        self.progress_bar.set_length(content_len);
        proof {
            reveal_strlit("[{elapsed_precise}] [{bar:40.blue}] {bytes}/{total_bytes} (ETA: {eta})");
            reveal_strlit("## ");
        }
        // A template that the display rejects leaves the line in its default style.
        match ProgressStyle::with_template(
            "[{elapsed_precise}] [{bar:40.blue}] {bytes}/{total_bytes} (ETA: {eta})",
        ) {
            Ok(style) => self.progress_bar.set_style(style.progress_chars("## ")),
            Err(_) => {},
        }
        self.total = Some(content_len);
    }

    /// Notifies the tracker that `len` bytes have been received. The line
    /// comes up if its own clock says that the debounce time has passed.
    pub fn data_received(&mut self, len: usize)
        ensures
            exists|elapsed_secs: u64|
                final(self)@ == single_advanced(old(self)@, len as nat, elapsed_secs),
    {
        let elapsed = self.progress_bar.elapsed();
        self.data_received_after(len, elapsed.as_secs());
    }

    /// Notifies the tracker that `len` bytes have been received, taking the
    /// line to have been up for `elapsed_secs` seconds. Where that brings
    /// the line up, the display is asked to paint it to standard error.
    pub fn data_received_after(&mut self, len: usize, elapsed_secs: u64)
        ensures
            final(self)@ == single_advanced(old(self)@, len as nat, elapsed_secs),
    {
        if self.should_reveal(elapsed_secs) {
            self.progress_bar.set_draw_target(ProgressDrawTarget::stderr());
            self.visible = true;
        }
        self.progress_bar.inc(len as u64);
        self.received = count_chunk(self.received, len);
    }

    /// Notifies the tracker that the download has finished: the line is
    /// wiped and replaced by a new hidden one, and the counters start over.
    pub fn download_finished(&mut self)
        ensures
            final(self)@ == single_finished(old(self)@),
    {
        self.progress_bar.finish_and_clear();
        self.progress_bar = ProgressBar::hidden();
        self.visible = false;
        self.total = None;
        self.received = 0;
    }

    /// Whether the line is shown.
    pub fn is_visible(&self) -> (visible: bool)
        ensures
            visible == self@.visible,
    {
        self.visible
    }

    /// The total size of the current download, once it is known.
    pub fn total(&self) -> (total: Option<u64>)
        ensures
            total == self@.total,
    {
        self.total
    }

    /// The bytes of the current download received so far.
    pub fn received(&self) -> (received: u64)
        ensures
            received == self@.received,
    {
        self.received
    }

    /// The handle to the line of the current download.
    pub closed spec fn line(&self) -> ProgressBar {
        self.progress_bar
    }

    /// The line of the current download.
    pub fn progress_bar(&self) -> (bar: &ProgressBar)
        ensures
            *bar == self.line(),
    {
        &self.progress_bar
    }
}

} // verus!
