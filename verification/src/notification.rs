//! The notifications a transfer engine sends, and what each one means.

use vstd::prelude::*;

verus! {

/// The unit in which progress is counted while it is pushed.
#[derive(Clone, Copy, Debug, PartialEq, Eq)]
pub enum Unit {
    /// Bytes transferred.
    Bytes,
    /// Items completed.
    Items,
}

/// One step in the life of a download, as the transfer engine reports it.
///
/// The file identifier is a path or a URL; it may be empty.
#[derive(Clone, Copy, Debug)]
pub enum Notification<'a> {
    /// The total size of `file` became known.
    DownloadContentLengthReceived(u64, &'a str),
    /// A chunk of `file` arrived.
    DownloadDataReceived(&'a [u8], &'a str),
    /// `file` is complete.
    DownloadFinished(&'a str),
    /// The download of the named component is about to start.
    DownloadingComponent(&'a str),
    /// Progress is counted in the given unit from now on.
    DownloadPushUnit(Unit),
    /// Progress is counted in the previous unit again.
    DownloadPopUnit,
    /// Anything that is not about the progress of a download.
    Unrelated,
}

/// What a notification says, with its texts as sequences and a data chunk
/// reduced to its length.
pub enum Signal {
    ContentLength { size: u64, file: Seq<char> },
    Data { len: nat, file: Seq<char> },
    Finished { file: Seq<char> },
    ComponentStarted { name: Seq<char> },
    PushUnit,
    PopUnit,
    Unrelated,
}

impl<'a> View for Notification<'a> {
    type V = Signal;

    open spec fn view(&self) -> Signal {
        match *self {
            Notification::DownloadContentLengthReceived(size, file) => Signal::ContentLength {
                size,
                file: file@,
            },
            Notification::DownloadDataReceived(data, file) => Signal::Data {
                len: data@.len(),
                file: file@,
            },
            Notification::DownloadFinished(file) => Signal::Finished { file: file@ },
            Notification::DownloadingComponent(name) => Signal::ComponentStarted { name: name@ },
            Notification::DownloadPushUnit(_) => Signal::PushUnit,
            Notification::DownloadPopUnit => Signal::PopUnit,
            Notification::Unrelated => Signal::Unrelated,
        }
    }
}

/// What a sequence of notifications says, in order.
pub open spec fn signals_of<'a>(notifications: Seq<Notification<'a>>) -> Seq<Signal> {
    Seq::new(notifications.len(), |i: int| notifications[i]@)
}

} // verus!
