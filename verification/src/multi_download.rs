//! Tracking several named downloads, each on a progress row of its own.
//!
//! Not fit for downloads that run at the same time: a notification is tied
//! to a download by looking for a registered component name inside its file
//! identifier, and nothing tells two downloads apart whose identifiers both
//! contain the same name.

use vstd::prelude::*;
use indicatif::{MultiProgress, ProgressBar, ProgressDrawTarget, ProgressStyle};
use crate::counter::{add_bytes, count_chunk};
use crate::matching::{file_names_component, names_component};
use crate::notification::{signals_of, Notification};
use crate::registry::{
    advanced, as_position, consumes, created, distinct_names, finished, first_match, fresh,
    holds_name, lemma_position_holds_name, lemma_resolve_first_match, lemma_resolve_none,
    position, resolve, run, step, with_total, Record,
};
use crate::sink::{bar_finish_with_message, bar_set_message};

verus! {

/// One download that the tracker follows, with the row that shows it.
pub struct TrackedDownload {
    name: String,
    total: Option<u64>,
    received: u64,
    finished: bool,
    bar: ProgressBar,
}

impl View for TrackedDownload {
    type V = Record;

    closed spec fn view(&self) -> Record {
        Record {
            name: self.name@,
            total: self.total,
            received: self.received,
            finished: self.finished,
        }
    }
}

impl TrackedDownload {
    /// The component's name.
    pub fn name(&self) -> (name: &str)
        ensures
            name@ == self@.name,
    {
        self.name.as_str()
    }

    /// The total size, once it is known.
    pub fn total(&self) -> (total: Option<u64>)
        ensures
            total == self@.total,
    {
        self.total
    }

    /// The bytes received so far.
    pub fn received(&self) -> (received: u64)
        ensures
            received == self@.received,
    {
        self.received
    }

    /// Whether the download has finished.
    pub fn is_finished(&self) -> (finished: bool)
        ensures
            finished == self@.finished,
    {
        self.finished
    }

    /// The handle to the row that shows this download.
    pub closed spec fn row(&self) -> ProgressBar {
        self.bar
    }

    /// The row that shows this download.
    pub fn progress_bar(&self) -> (bar: &ProgressBar)
        ensures
            *bar == self.row(),
    {
        &self.bar
    }
}

/// The notifications that a tracker of several downloads leaves for other
/// handlers, in order.
pub open spec fn passed_on<'a>(notifications: Seq<Notification<'a>>) -> Seq<Notification<'a>> {
    notifications.filter(|n: Notification<'a>| !consumes(n@))
}

/// Tracks download progress and displays information about it to a terminal.
pub struct DownloadTracker {
    /// Whether the rows are shown at all.
    display_progress: bool,
    /// The group that lays out the rows.
    multi_progress_bars: MultiProgress,
    /// The downloads, in the order in which their names were registered.
    file_progress_bars: Vec<TrackedDownload>,
}

impl View for DownloadTracker {
    type V = Seq<Record>;

    closed spec fn view(&self) -> Seq<Record> {
        Seq::new(self.file_progress_bars@.len(), |i: int| self.file_progress_bars@[i]@)
    }
}

impl DownloadTracker {
    /// The tracker is well formed: no two of its downloads share a name.
    /// Every tracker that this module hands out is, and every method keeps
    /// it so.
    pub open spec fn wf(&self) -> bool {
        distinct_names(self@)
    }

    /// Whether the tracker was made to show its rows.
    pub closed spec fn display_enabled(&self) -> bool {
        self.display_progress
    }

    /// Creates a tracker that follows no download yet. Its rows are painted
    /// to `draw_target` where `display_progress` is set, and nowhere
    /// otherwise. The caller makes the target; the tracker never looks at
    /// the process's surroundings itself.
    pub fn new_with_display_progress(
        display_progress: bool,
        draw_target: ProgressDrawTarget,
    ) -> (tracker: Self)
        ensures
            tracker.wf(),
            tracker@ == Seq::<Record>::empty(),
            tracker.display_enabled() == display_progress,
    {
        let multi_progress_bars = MultiProgress::with_draw_target(
            if display_progress {
                draw_target
            } else {
                ProgressDrawTarget::hidden()
            },
        );
        let tracker = Self {
            display_progress,
            multi_progress_bars,
            file_progress_bars: Vec::new(),
        };
        assert(tracker@ =~= Seq::<Record>::empty());
        tracker
    }

    /// Routes one notification to the operation it stands for and tells
    /// whether it was one of the tracker's own. Unit changes are taken and
    /// ignored; anything unrelated is left for other handlers.
    pub fn handle_notification(&mut self, n: &Notification<'_>) -> (consumed: bool)
        requires
            old(self).wf(),
        ensures
            consumed == consumes(n@),
            final(self)@ == step(old(self)@, n@),
            final(self).display_enabled() == old(self).display_enabled(),
            final(self).wf(),
    {
        match *n {
            Notification::DownloadContentLengthReceived(content_len, file) => {
                self.content_length_received(content_len, file);
                true
            },
            Notification::DownloadDataReceived(data, file) => {
                self.data_received(data.len(), file);
                true
            },
            Notification::DownloadFinished(file) => {
                self.download_finished(file);
                true
            },
            Notification::DownloadingComponent(component) => {
                self.create_progress_bar(component);
                true
            },
            Notification::DownloadPushUnit(_) => true,
            Notification::DownloadPopUnit => true,
            Notification::Unrelated => false,
        }
    }

    /// Routes a stream of notifications, first to last, and gives back
    /// those that were not the tracker's own.
    pub fn handle_all<'a>(&mut self, notifications: &[Notification<'a>]) -> (left: Vec<
        Notification<'a>,
    >)
        requires
            old(self).wf(),
        ensures
            final(self)@ == run(old(self)@, signals_of(notifications@)),
            left@ == passed_on(notifications@),
            final(self).display_enabled() == old(self).display_enabled(),
            final(self).wf(),
    {
        let ghost start = self@;
        let ghost shown = self.display_enabled();
        let mut left: Vec<Notification<'a>> = Vec::new();
        let mut i: usize = 0;
        proof {
            reveal(Seq::filter);
            assert(notifications@.take(0) =~= Seq::<Notification<'a>>::empty());
        }
        while i < notifications.len()
            invariant
                i <= notifications@.len(),
                self.wf(),
                self.display_enabled() == shown,
                self@ == run(start, signals_of(notifications@.take(i as int))),
                left@ == passed_on(notifications@.take(i as int)),
            decreases notifications@.len() - i,
        {
            let n = notifications[i];
            let consumed = self.handle_notification(&n);
            if !consumed {
                left.push(n);
            }
            proof {
                let seen = notifications@.take(i as int);
                let next = notifications@.take(i + 1);
                assert(next.drop_last() =~= seen);
                assert(next.last() == n);
                assert(signals_of(next).drop_last() =~= signals_of(seen));
                assert(signals_of(next).last() == n@);
                reveal(Seq::filter);
            }
            i += 1;
        }
        proof {
            assert(notifications@.take(i as int) =~= notifications@);
        }
        left
    }

    /// Finds the download that `file` belongs to: the first registered one
    /// whose name `file` contains. An empty `file` belongs to none.
    pub fn find_progress_bar(&self, file: &str) -> (found: Option<usize>)
        ensures
            as_position(found) == resolve(self@, file@),
            found matches Some(i) ==> i < self@.len(),
    {
        // During an installation this can be called with an empty file or URL.
        if file.is_empty() {
            proof {
                lemma_resolve_none(self@, file@);
            }
            return None;
        }
        let mut i: usize = 0;
        while i < self.file_progress_bars.len()
            invariant
                i <= self.file_progress_bars@.len(),
                forall|j: int| 0 <= j < i ==> !names_component(file@, (#[trigger] self@[j]).name),
            decreases self.file_progress_bars@.len() - i,
        {
            if file_names_component(file, self.file_progress_bars[i].name.as_str()) {
                proof {
                    assert(first_match(self@, file@, i as int));
                    lemma_resolve_first_match(self@, file@, i as int);
                }
                return Some(i);
            }
            i += 1;
        }
        proof {
            lemma_resolve_none(self@, file@);
        }
        None
    }

    /// Finds the download registered under exactly the name `component`.
    pub fn position(&self, component: &str) -> (found: Option<usize>)
        requires
            self.wf(),
        ensures
            as_position(found) == position(self@, component@),
            found matches Some(i) ==> i < self@.len(),
    {
        let wanted = component.to_owned();
        let mut i: usize = 0;
        while i < self.file_progress_bars.len()
            invariant
                i <= self.file_progress_bars@.len(),
                self.wf(),
                wanted@ == component@,
                forall|j: int| 0 <= j < i ==> !holds_name(self@, component@, j),
            decreases self.file_progress_bars@.len() - i,
        {
            if self.file_progress_bars[i].name == wanted {
                proof {
                    assert(holds_name(self@, component@, i as int));
                    lemma_position_holds_name(self@, component@, i as int);
                }
                return Some(i);
            }
            i += 1;
        }
        None
    }

    /// The number of downloads registered so far.
    pub fn len(&self) -> (len: usize)
        ensures
            len == self@.len(),
    {
        self.file_progress_bars.len()
    }

    /// The download at `index` in the order of registration.
    pub fn download(&self, index: usize) -> (download: Option<&TrackedDownload>)
        ensures
            match download {
                Some(d) => index < self@.len() && d@ == self@[index as int],
                None => index >= self@.len(),
            },
    {
        if index < self.file_progress_bars.len() {
            Some(&self.file_progress_bars[index])
        } else {
            None
        }
    }

    /// Creates a new row for the given component and registers a fresh
    /// download under its name. A download already registered under that
    /// name is replaced where it stands.
    pub fn create_progress_bar(&mut self, component: &str)
        requires
            old(self).wf(),
        ensures
            final(self)@ == created(old(self)@, component@),
            final(self).display_enabled() == old(self).display_enabled(),
            final(self).wf(),
    {
        let pb = ProgressBar::hidden();
        proof {
            reveal_strlit(
                "{msg:>12.bold}  [{bar:40}] {bytes}/{total_bytes} ({bytes_per_sec}, ETA: {eta})",
            );
            reveal_strlit("## ");
        }
        // A template that the display rejects leaves the row in its default style.
        match ProgressStyle::with_template(
            "{msg:>12.bold}  [{bar:40}] {bytes}/{total_bytes} ({bytes_per_sec}, ETA: {eta})",
        ) {
            Ok(style) => pb.set_style(style.progress_chars("## ")),
            Err(_) => {},
        }
        bar_set_message(&pb, component.to_owned());
        let pb = self.multi_progress_bars.add(pb);
        let download = TrackedDownload {
            name: component.to_owned(),
            total: None,
            received: 0,
            finished: false,
            bar: pb,
        };
        assert(download@ == fresh(component@));
        let ghost before = self@;
        match self.position(component) {
            Some(i) => {
                proof {
                    lemma_position_holds_name(before, component@, i as int);
                }
                self.file_progress_bars[i] = download;
                assert(self@ =~= before.update(i as int, fresh(component@)));
            },
            None => {
                assert forall|j: int| 0 <= j < before.len() implies (#[trigger] before[j]).name
                    != component@ by {
                    assert(!holds_name(before, component@, j));
                }
                self.file_progress_bars.push(download);
                assert(self@ =~= before.push(fresh(component@)));
            },
        }
    }

    /// Records the total size of the download that `file` belongs to, and
    /// sets the length of its row.
    pub fn content_length_received(&mut self, content_len: u64, file: &str)
        requires
            old(self).wf(),
        ensures
            final(self)@ == with_total(old(self)@, file@, content_len),
            final(self).display_enabled() == old(self).display_enabled(),
            final(self).wf(),
    {
        let ghost before = self@;
        if let Some(i) = self.find_progress_bar(file) {
            if !self.file_progress_bars[i].finished {
                self.file_progress_bars[i].bar.set_length(content_len);
                self.file_progress_bars[i].total = Some(content_len);
                assert(self@ =~= before.update(
                    i as int,
                    Record { total: Some(content_len), ..before[i as int] },
                ));
            }
        }
    }

    /// Notifies the tracker that `len` bytes of `file` have been received.
    pub fn data_received(&mut self, len: usize, file: &str)
        requires
            old(self).wf(),
        ensures
            final(self)@ == advanced(old(self)@, file@, len as nat),
            final(self).display_enabled() == old(self).display_enabled(),
            final(self).wf(),
    {
        let ghost before = self@;
        if let Some(i) = self.find_progress_bar(file) {
            if !self.file_progress_bars[i].finished {
                self.file_progress_bars[i].bar.inc(len as u64);
                let received = count_chunk(self.file_progress_bars[i].received, len);
                self.file_progress_bars[i].received = received;
                assert(self@ =~= before.update(
                    i as int,
                    Record {
                        received: add_bytes(before[i as int].received, len as nat),
                        ..before[i as int]
                    },
                ));
            }
        }
    }

    /// Notifies the tracker that the download of `file` has finished: its
    /// row turns into a summary line and the download is frozen.
    pub fn download_finished(&mut self, file: &str)
        requires
            old(self).wf(),
        ensures
            final(self)@ == finished(old(self)@, file@),
            final(self).display_enabled() == old(self).display_enabled(),
            final(self).wf(),
    {
        let ghost before = self@;
        if let Some(i) = self.find_progress_bar(file) {
            if !self.file_progress_bars[i].finished {
                proof {
                    reveal_strlit("{msg:>12.bold}  downloaded {total_bytes} in {elapsed}.");
                }
                match ProgressStyle::with_template(
                    "{msg:>12.bold}  downloaded {total_bytes} in {elapsed}.",
                ) {
                    Ok(style) => self.file_progress_bars[i].bar.set_style(style),
                    Err(_) => {},
                }
                let msg = self.file_progress_bars[i].bar.message();
                bar_finish_with_message(&self.file_progress_bars[i].bar, msg);
                self.file_progress_bars[i].finished = true;
                assert(self@ =~= before.update(
                    i as int,
                    Record { finished: true, ..before[i as int] },
                ));
            }
        }
    }
}

} // verus!
