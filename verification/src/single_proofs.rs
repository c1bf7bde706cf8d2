//! What holds of a tracker of one download under any stream of
//! notifications and any readings of the clock.

use vstd::prelude::*;
use crate::counter::add_bytes;
use crate::notification::Signal;
use crate::single_download::{
    initial, reveals, single_advanced, single_finished, single_run, single_step,
    single_with_total, SingleRecord, DEBOUNCE_SECS,
};

verus! {

/// The bytes that a notification carries: the length of a data chunk, and
/// nothing otherwise.
pub open spec fn bytes_of(signal: Signal) -> nat {
    match signal {
        Signal::Data { len, file } => len,
        _ => 0,
    }
}

/// The bytes that a stream of notifications carries.
pub open spec fn bytes_in(timed: Seq<(Signal, u64)>) -> nat
    decreases timed.len(),
{
    if timed.len() == 0 {
        0
    } else {
        bytes_in(timed.drop_last()) + bytes_of(timed.last().0)
    }
}

/// No notification changes how a tracker was configured.
pub proof fn lemma_configuration_is_kept(s: SingleRecord, signal: Signal, elapsed_secs: u64)
    ensures
        single_step(s, signal, elapsed_secs).display_enabled == s.display_enabled,
        single_step(s, signal, elapsed_secs).is_tty == s.is_tty,
{
}

/// No stream of notifications changes how a tracker was configured.
pub proof fn lemma_run_keeps_configuration(s: SingleRecord, timed: Seq<(Signal, u64)>)
    ensures
        single_run(s, timed).display_enabled == s.display_enabled,
        single_run(s, timed).is_tty == s.is_tty,
    decreases timed.len(),
{
    if timed.len() > 0 {
        lemma_run_keeps_configuration(s, timed.drop_last());
    }
}

/// A hidden line stays hidden for as long as every notification arrives
/// before the debounce time has passed on the line's clock, whatever the
/// notifications carry and however the tracker is configured.
pub proof fn lemma_fast_download_stays_hidden(s: SingleRecord, timed: Seq<(Signal, u64)>)
    requires
        !s.visible,
        forall|k: int| 0 <= k < timed.len() ==> (#[trigger] timed[k]).1 < DEBOUNCE_SECS,
    ensures
        !single_run(s, timed).visible,
    decreases timed.len(),
{
    if timed.len() > 0 {
        lemma_fast_download_stays_hidden(s, timed.drop_last());
        assert(timed.last() == timed[timed.len() - 1]);
    }
}

/// Where display is enabled and standard output is a terminal, data that
/// arrives once the debounce time has passed brings the line up, and the
/// line stays up until the download finishes.
pub proof fn lemma_slow_download_is_shown(s: SingleRecord, timed: Seq<(Signal, u64)>, k: int)
    requires
        s.display_enabled,
        s.is_tty,
        0 <= k < timed.len(),
        timed[k].0 is Data,
        timed[k].1 >= DEBOUNCE_SECS,
        forall|j: int| k < j < timed.len() ==> !((#[trigger] timed[j]).0 is Finished),
    ensures
        single_run(s, timed).visible,
    decreases timed.len(),
{
    let earlier = timed.drop_last();
    lemma_run_keeps_configuration(s, earlier);
    if k == timed.len() - 1 {
        assert(timed.last() == timed[k]);
    } else {
        assert(earlier[k] == timed[k]);
        assert forall|j: int| k < j < earlier.len() implies !((#[trigger] earlier[j]).0
            is Finished) by {
            assert(earlier[j] == timed[j]);
        }
        lemma_slow_download_is_shown(s, earlier, k);
        assert(timed.last() == timed[timed.len() - 1]);
    }
}

/// Where standard output is not a terminal, or display is disabled, a
/// hidden line never comes up, whatever arrives and whenever.
pub proof fn lemma_never_shown_without_terminal(s: SingleRecord, timed: Seq<(Signal, u64)>)
    requires
        !s.visible,
        !s.is_tty || !s.display_enabled,
    ensures
        !single_run(s, timed).visible,
    decreases timed.len(),
{
    if timed.len() > 0 {
        lemma_never_shown_without_terminal(s, timed.drop_last());
        lemma_run_keeps_configuration(s, timed.drop_last());
    }
}

/// Where standard output is not a terminal, data changes nothing at all.
pub proof fn lemma_data_dropped_without_terminal(
    s: SingleRecord,
    len: nat,
    file: Seq<char>,
    elapsed_secs: u64,
)
    requires
        !s.is_tty,
    ensures
        single_step(s, Signal::Data { len, file }, elapsed_secs) == s,
{
}

/// Finishing always leaves the record of a new tracker: hidden, without a
/// total, with nothing received. What follows is therefore what would
/// follow on a tracker that was just made.
pub proof fn lemma_finish_starts_over(s: SingleRecord, timed: Seq<(Signal, u64)>)
    ensures
        !single_finished(s).visible,
        single_finished(s).received == 0,
        single_finished(s).total is None,
        single_finished(s) == initial(s.display_enabled, s.is_tty),
        single_run(single_finished(s), timed) == single_run(
            initial(s.display_enabled, s.is_tty),
            timed,
        ),
{
}

/// The chunks add up: while a download runs, that is over any stream
/// without an end of download in it, a tracker on a terminal has received
/// the bytes that the stream carried on top of what it had, up to the
/// largest 64-bit number, whenever they arrived. A tracker that is not on a
/// terminal has received nothing more.
pub proof fn lemma_single_chunks_add_up(s: SingleRecord, timed: Seq<(Signal, u64)>)
    requires
        forall|k: int| 0 <= k < timed.len() ==> !((#[trigger] timed[k]).0 is Finished),
    ensures
        s.is_tty ==> single_run(s, timed).received == add_bytes(s.received, bytes_in(timed)),
        s.is_tty && s.received + bytes_in(timed) <= u64::MAX ==> single_run(s, timed).received
            == s.received + bytes_in(timed),
        !s.is_tty ==> single_run(s, timed).received == s.received,
    decreases timed.len(),
{
    if timed.len() > 0 {
        let earlier = timed.drop_last();
        assert forall|k: int| 0 <= k < earlier.len() implies !((#[trigger] earlier[k]).0
            is Finished) by {
            assert(earlier[k] == timed[k]);
        }
        lemma_single_chunks_add_up(s, earlier);
        lemma_run_keeps_configuration(s, earlier);
        assert(timed.last() == timed[timed.len() - 1]);
    }
}

/// Bytes received never go down while a download runs: no notification
/// but the end of the download lowers them.
pub proof fn lemma_single_received_never_decreases(
    s: SingleRecord,
    signal: Signal,
    elapsed_secs: u64,
)
    requires
        !(signal is Finished),
    ensures
        single_step(s, signal, elapsed_secs).received >= s.received,
{
}

/// A total may be set whether the line is shown or not, and setting it
/// touches nothing else.
pub proof fn lemma_total_leaves_the_rest(s: SingleRecord, size: u64)
    ensures
        single_with_total(s, size).total == Some(size),
        single_with_total(s, size).visible == s.visible,
        single_with_total(s, size).received == s.received,
{
}

/// The line comes up on data exactly when it is hidden, display is
/// enabled, standard output is a terminal and the debounce time has passed;
/// once up, data leaves it up.
pub proof fn lemma_line_comes_up_exactly_when(s: SingleRecord, len: nat, elapsed_secs: u64)
    ensures
        single_advanced(s, len, elapsed_secs).visible <==> s.visible || (s.display_enabled
            && s.is_tty && elapsed_secs >= DEBOUNCE_SECS),
        reveals(s, elapsed_secs) ==> !s.visible && single_advanced(s, len, elapsed_secs).visible,
{
}

/// Data that arrives before the debounce time has passed leaves a hidden
/// line hidden, however the tracker is configured, and adds its length to
/// the bytes received. Nothing else changes.
pub proof fn lemma_early_data_leaves_hidden(s: SingleRecord, len: nat, elapsed_secs: u64)
    requires
        !s.visible,
        elapsed_secs < DEBOUNCE_SECS,
    ensures
        single_advanced(s, len, elapsed_secs) == (SingleRecord {
            received: add_bytes(s.received, len),
            ..s
        }),
        !single_advanced(s, len, elapsed_secs).visible,
        s.received + len <= u64::MAX ==> single_advanced(s, len, elapsed_secs).received
            == s.received + len,
{
}

/// Data that arrives once the debounce time has passed, with display
/// enabled and standard output a terminal, brings a hidden line up and adds
/// its length to the bytes received. Nothing else changes.
pub proof fn lemma_late_data_brings_up(s: SingleRecord, len: nat, elapsed_secs: u64)
    requires
        !s.visible,
        s.display_enabled,
        s.is_tty,
        elapsed_secs >= DEBOUNCE_SECS,
    ensures
        single_advanced(s, len, elapsed_secs) == (SingleRecord {
            visible: true,
            received: add_bytes(s.received, len),
            ..s
        }),
        s.received + len <= u64::MAX ==> single_advanced(s, len, elapsed_secs).received
            == s.received + len,
{
}

} // verus!
