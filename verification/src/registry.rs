//! The record a tracker keeps of several named downloads, as mathematics.
//!
//! A registry is a sequence of records in the order in which their names
//! were first registered. No name occurs twice. A file identifier is tied to
//! the first record whose name it contains; which record that is when
//! several names fit is therefore fixed by the order of registration.

use vstd::prelude::*;
use crate::counter::add_bytes;
use crate::matching::names_component;
use crate::notification::Signal;

verus! {

/// What is known of one tracked download.
pub struct Record {
    /// The component's name, which is also the indicator's label.
    pub name: Seq<char>,
    /// The total size, once a content length has arrived.
    pub total: Option<u64>,
    /// The bytes received so far.
    pub received: u64,
    /// Whether the download has finished; a finished record is frozen.
    pub finished: bool,
}

/// The record of a download that has just been registered.
pub open spec fn fresh(name: Seq<char>) -> Record {
    Record { name, total: None, received: 0, finished: false }
}

/// No two records carry the same name.
pub open spec fn distinct_names(reg: Seq<Record>) -> bool {
    forall|i: int, j: int|
        0 <= i < j < reg.len() ==> (#[trigger] reg[i]).name != (#[trigger] reg[j]).name
}

/// Record `i` is the first whose name `file` contains.
pub open spec fn first_match(reg: Seq<Record>, file: Seq<char>, i: int) -> bool {
    &&& 0 <= i < reg.len()
    &&& names_component(file, reg[i].name)
    &&& forall|j: int| 0 <= j < i ==> !names_component(file, (#[trigger] reg[j]).name)
}

/// The record that `file` is tied to, if any.
pub open spec fn resolve(reg: Seq<Record>, file: Seq<char>) -> Option<int> {
    if exists|i: int| first_match(reg, file, i) {
        Some(choose|i: int| first_match(reg, file, i))
    } else {
        None
    }
}

/// Record `i` carries exactly the name `name`.
pub open spec fn holds_name(reg: Seq<Record>, name: Seq<char>, i: int) -> bool {
    0 <= i < reg.len() && reg[i].name == name
}

/// Where the record named `name` stands, if there is one.
pub open spec fn position(reg: Seq<Record>, name: Seq<char>) -> Option<int> {
    if exists|i: int| holds_name(reg, name, i) {
        Some(choose|i: int| holds_name(reg, name, i))
    } else {
        None
    }
}

/// An index found by executable code, as a mathematical integer.
pub open spec fn as_position(found: Option<usize>) -> Option<int> {
    match found {
        Some(i) => Some(i as int),
        None => None,
    }
}

/// The registry after a component was registered: a fresh record under its
/// name, in the place of an earlier record of that name or at the end.
pub open spec fn created(reg: Seq<Record>, name: Seq<char>) -> Seq<Record> {
    match position(reg, name) {
        Some(i) => reg.update(i, fresh(name)),
        None => reg.push(fresh(name)),
    }
}

/// The registry after replacing record `i` by `record`, unless record `i`
/// is finished.
pub open spec fn revised(reg: Seq<Record>, i: int, record: Record) -> Seq<Record> {
    if reg[i].finished {
        reg
    } else {
        reg.update(i, record)
    }
}

/// The registry after the total size of `file` became known.
pub open spec fn with_total(reg: Seq<Record>, file: Seq<char>, size: u64) -> Seq<Record> {
    match resolve(reg, file) {
        Some(i) => revised(reg, i, Record { total: Some(size), ..reg[i] }),
        None => reg,
    }
}

/// The registry after `len` bytes of `file` arrived.
pub open spec fn advanced(reg: Seq<Record>, file: Seq<char>, len: nat) -> Seq<Record> {
    match resolve(reg, file) {
        Some(i) => revised(reg, i, Record { received: add_bytes(reg[i].received, len), ..reg[i] }),
        None => reg,
    }
}

/// The registry after `file` finished.
pub open spec fn finished(reg: Seq<Record>, file: Seq<char>) -> Seq<Record> {
    match resolve(reg, file) {
        Some(i) => revised(reg, i, Record { finished: true, ..reg[i] }),
        None => reg,
    }
}

/// Whether a tracker of several downloads takes `signal` for its own.
pub open spec fn consumes(signal: Signal) -> bool {
    !(signal is Unrelated)
}

/// The registry after one notification.
pub open spec fn step(reg: Seq<Record>, signal: Signal) -> Seq<Record> {
    match signal {
        Signal::ContentLength { size, file } => with_total(reg, file, size),
        Signal::Data { len, file } => advanced(reg, file, len),
        Signal::Finished { file } => finished(reg, file),
        Signal::ComponentStarted { name } => created(reg, name),
        Signal::PushUnit => reg,
        Signal::PopUnit => reg,
        Signal::Unrelated => reg,
    }
}

/// The registry after a sequence of notifications, first to last.
pub open spec fn run(reg: Seq<Record>, signals: Seq<Signal>) -> Seq<Record>
    decreases signals.len(),
{
    if signals.len() == 0 {
        reg
    } else {
        step(run(reg, signals.drop_last()), signals.last())
    }
}

/// At most one record is the first match of a file.
pub proof fn lemma_first_match_unique(reg: Seq<Record>, file: Seq<char>, i: int, j: int)
    requires
        first_match(reg, file, i),
        first_match(reg, file, j),
    ensures
        i == j,
{
    if i < j {
        assert(!names_component(file, reg[i].name));
    } else if j < i {
        assert(!names_component(file, reg[j].name));
    }
}

/// A file is tied to record `i` exactly when `i` is its first match.
pub proof fn lemma_resolve_first_match(reg: Seq<Record>, file: Seq<char>, i: int)
    ensures
        resolve(reg, file) == Some(i) <==> first_match(reg, file, i),
{
    if first_match(reg, file, i) {
        let k = choose|k: int| first_match(reg, file, k);
        lemma_first_match_unique(reg, file, i, k);
    }
}

/// A file is tied to no record exactly when it names none of them.
pub proof fn lemma_resolve_none(reg: Seq<Record>, file: Seq<char>)
    ensures
        resolve(reg, file) is None <==> forall|j: int|
            0 <= j < reg.len() ==> !names_component(file, (#[trigger] reg[j]).name),
{
    if exists|j: int| 0 <= j < reg.len() && names_component(file, (#[trigger] reg[j]).name) {
        let j = choose|j: int|
            0 <= j < reg.len() && names_component(file, (#[trigger] reg[j]).name);
        lemma_some_first_match(reg, file, j);
    }
}

/// Where some record at or before `upto` is named by a file, one of them is
/// its first match.
proof fn lemma_some_first_match(reg: Seq<Record>, file: Seq<char>, upto: int)
    requires
        0 <= upto < reg.len(),
        names_component(file, reg[upto].name),
    ensures
        exists|i: int| first_match(reg, file, i),
    decreases upto,
{
    if forall|j: int| 0 <= j < upto ==> !names_component(file, (#[trigger] reg[j]).name) {
        assert(first_match(reg, file, upto));
    } else {
        let j = choose|j: int| 0 <= j < upto && names_component(file, (#[trigger] reg[j]).name);
        lemma_some_first_match(reg, file, j);
    }
}

/// With distinct names, a name stands at `i` exactly when `position` says so.
pub proof fn lemma_position_holds_name(reg: Seq<Record>, name: Seq<char>, i: int)
    requires
        distinct_names(reg),
    ensures
        position(reg, name) == Some(i) <==> holds_name(reg, name, i),
{
    if holds_name(reg, name, i) {
        let k = choose|k: int| holds_name(reg, name, k);
        if k < i {
            assert(reg[k].name != reg[i].name);
        } else if i < k {
            assert(reg[i].name != reg[k].name);
        }
    }
}

} // verus!
