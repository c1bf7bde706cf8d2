//! The terminal display that the trackers drive.
//!
//! Everything in this module is trusted rather than proved: it declares the
//! `indicatif` types that the trackers hold and says, for each outside
//! function they call, which arguments the call may be given. A progress
//! bar is shared, interior-mutable state that redraws by the clock, so
//! nothing is claimed about what a bar holds or shows after a call; the
//! trackers keep their own counters and treat the bars as handles to write
//! to.

use vstd::prelude::*;
use indicatif::{MultiProgress, ProgressBar, ProgressDrawTarget, ProgressStyle};
use indicatif::style::TemplateError;
use std::time::Duration;

verus! {

/// `indicatif::ProgressBar`, a handle to one row of terminal output.
#[verifier::external_type_specification]
#[verifier::external_body]
pub struct ExProgressBar(ProgressBar);

/// `indicatif::MultiProgress`, the group that lays out several rows.
#[verifier::external_type_specification]
#[verifier::external_body]
pub struct ExMultiProgress(MultiProgress);

/// `indicatif::ProgressDrawTarget`, the place a bar or a group paints to.
#[verifier::external_type_specification]
#[verifier::external_body]
pub struct ExProgressDrawTarget(ProgressDrawTarget);

/// `indicatif::ProgressStyle`, a parsed rendering template.
#[verifier::external_type_specification]
#[verifier::external_body]
pub struct ExProgressStyle(ProgressStyle);

/// `indicatif::style::TemplateError`, the reason a template was rejected.
#[verifier::external_type_specification]
#[verifier::external_body]
pub struct ExTemplateError(TemplateError);

/// An ASCII decimal digit.
pub open spec fn is_ascii_digit(c: char) -> bool {
    '0' <= c && c <= '9'
}

/// Every field width written in `template` is below 65536: the template
/// holds no `!`, and no five ASCII digits stand in a row in it.
///
/// A width is read from the digits that follow a field's `:`. Only `!` may
/// stand between two of them without ending the number, so without `!` the
/// digits of one width stand in a row, and four digits at most always fit.
pub open spec fn widths_fit(template: Seq<char>) -> bool {
    &&& forall|i: int| 0 <= i < template.len() ==> #[trigger] template[i] != '!'
    &&& forall|at: int|
        0 <= at && at + 5 <= template.len() ==> !(is_ascii_digit(#[trigger] template[at])
            && is_ascii_digit(template[at + 1]) && is_ascii_digit(template[at + 2])
            && is_ascii_digit(template[at + 3]) && is_ascii_digit(template[at + 4]))
}

/// Every character of `text` is printable ASCII, space to tilde.
pub open spec fn printable_ascii(text: Seq<char>) -> bool {
    forall|i: int| 0 <= i < text.len() ==> ' ' <= #[trigger] text[i] && text[i] <= '~'
}

/// `ProgressDrawTarget::stderr`: a target that paints to standard error, or
/// a hidden one where standard error is not an attended terminal. Which of
/// the two comes back depends on the process's surroundings, so nothing is
/// stated about it.
pub assume_specification[ ProgressDrawTarget::stderr ]() -> (target: ProgressDrawTarget)
;

/// `ProgressDrawTarget::hidden`: a target that never paints. The value is
/// opaque here, so nothing is stated about it.
pub assume_specification[ ProgressDrawTarget::hidden ]() -> (target: ProgressDrawTarget)
;

/// `MultiProgress::with_draw_target`: an empty group that paints to
/// `draw_target`. Any target may be given; the group is opaque here.
pub assume_specification[ MultiProgress::with_draw_target ](
    draw_target: ProgressDrawTarget,
) -> (group: MultiProgress)
;

/// `MultiProgress::add`: puts `pb` below the group's other rows, points its
/// draw target at the group, and hands the same bar back. Any bar may be
/// given; the bar is opaque here.
pub assume_specification[ MultiProgress::add ](group: &MultiProgress, pb: ProgressBar) -> (added:
    ProgressBar)
;

/// `ProgressBar::hidden`: a new bar at position zero, without a length, that
/// does not paint. Its state is behind the handle, so nothing is stated.
pub assume_specification[ ProgressBar::hidden ]() -> (bar: ProgressBar)
;

/// `ProgressBar::set_style`: replaces the bar's stored style. Any style may
/// be given.
pub assume_specification[ ProgressBar::set_style ](bar: &ProgressBar, style: ProgressStyle)
;

/// `ProgressBar::set_length`: records `len` as the bar's total. Any length
/// may be given.
pub assume_specification[ ProgressBar::set_length ](bar: &ProgressBar, len: u64)
;

/// `ProgressBar::inc`: adds `delta` to the bar's position, wrapping round
/// past the largest 64-bit number. Any `delta` may be given.
pub assume_specification[ ProgressBar::inc ](bar: &ProgressBar, delta: u64)
;

/// `ProgressBar::message`: the bar's current message with tabs expanded. It
/// reads state that other handles to the bar may change, so nothing is
/// stated about the text.
pub assume_specification[ ProgressBar::message ](bar: &ProgressBar) -> (text: String)
;

/// `ProgressBar::finish_and_clear`: marks the bar as done and wipes its row.
/// It may be called in any state of the bar.
pub assume_specification[ ProgressBar::finish_and_clear ](bar: &ProgressBar)
;

/// `ProgressBar::set_draw_target`: detaches the bar from where it painted
/// and attaches it to `target`. Any target may be given.
pub assume_specification[ ProgressBar::set_draw_target ](
    bar: &ProgressBar,
    target: ProgressDrawTarget,
)
;

/// `ProgressBar::elapsed`: the time since the bar was made or its clock was
/// last reset. It is a reading of the clock, so nothing is stated about it.
pub assume_specification[ ProgressBar::elapsed ](bar: &ProgressBar) -> (elapsed: Duration)
;

/// `Duration::as_secs`: the whole seconds of a duration. A duration is
/// opaque here, so nothing is stated about the number.
pub assume_specification[ Duration::as_secs ](duration: &Duration) -> (secs: u64)
;

/// `ProgressStyle::with_template`: parses `template`. The parser gathers
/// the digits of a field width, carrying them over any `!` in between,
/// reads them as a 16-bit number and stops the program where that does not
/// fit. So templates with a `!` or with five digits in a row are left out.
/// Whether a template that is let in parses is not stated: the caller
/// handles both outcomes.
pub assume_specification[ ProgressStyle::with_template ](template: &str) -> (parsed: Result<
    ProgressStyle,
    TemplateError,
>)
    requires
        widths_fit(template@),
;

/// `ProgressStyle::progress_chars`: sets the characters a bar is filled
/// with. It stops the program on fewer than two characters and on
/// characters of unequal display width, so only texts of two or more
/// printable ASCII characters, which all have width one, are let in.
pub assume_specification[ ProgressStyle::progress_chars ](style: ProgressStyle, s: &str) -> (styled:
    ProgressStyle)
    requires
        s@.len() >= 2,
        printable_ascii(s@),
;

/// Calls `ProgressBar::set_message` with an owned string, which records it
/// as the bar's message. Any string may be given.
#[verifier::external_body]
pub(crate) fn bar_set_message(bar: &ProgressBar, message: String) {
    bar.set_message(message)
}

/// Calls `ProgressBar::finish_with_message` with an owned string, which
/// marks the bar as done, moves its position to its length where it has
/// one, and records the message. Any string may be given.
#[verifier::external_body]
pub(crate) fn bar_finish_with_message(bar: &ProgressBar, message: String) {
    bar.finish_with_message(message)
}

} // verus!
