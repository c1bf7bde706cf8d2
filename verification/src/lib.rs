//! Progress tracking for file downloads, driven by lifecycle notifications.
//!
//! A transfer engine reports what happens to a download as a stream of
//! notifications: its length became known, a chunk arrived, it finished.
//! The trackers in this crate turn that stream into terminal progress
//! indicators. Each tracker keeps the counters itself and uses the display
//! only as a sink, so what a tracker has recorded is stated and proved here,
//! independently of what the terminal shows.
//!
//! [`DownloadTracker`] follows several named downloads, each on a row of
//! its own that stays on screen as a summary once the download is done.
//! [`SingleDownloadTracker`] follows one download at a time on a line that
//! only comes up for downloads that take a while and vanishes at the end.

pub mod counter;
pub mod matching;
pub mod multi_download;
pub mod notification;
pub mod registry;
pub mod registry_proofs;
pub mod single_download;
pub mod single_proofs;
pub mod sink;

pub use crate::multi_download::{DownloadTracker, TrackedDownload};
pub use crate::notification::{Notification, Unit};
pub use crate::single_download::{SingleDownloadTracker, DEBOUNCE_SECS};
