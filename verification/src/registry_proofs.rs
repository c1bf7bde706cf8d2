//! What holds of a registry of downloads under any stream of notifications.

use vstd::prelude::*;
use crate::counter::{add_bytes, lemma_add_bytes_twice};
use crate::matching::{contains_text, lemma_contains_itself, names_component};
use crate::notification::Signal;
use crate::registry::{
    created, distinct_names, first_match, fresh, holds_name, lemma_position_holds_name,
    lemma_resolve_first_match, lemma_resolve_none, position, resolve, run, step, Record,
};

verus! {

/// The sum of the lengths of a sequence of chunks.
pub open spec fn total_len(chunks: Seq<nat>) -> nat
    decreases chunks.len(),
{
    if chunks.len() == 0 {
        0
    } else {
        total_len(chunks.drop_last()) + chunks.last()
    }
}

/// One data notification for `file` per chunk, in order.
pub open spec fn data_signals(file: Seq<char>, chunks: Seq<nat>) -> Seq<Signal> {
    Seq::new(chunks.len(), |k: int| Signal::Data { len: chunks[k], file })
}

/// The notifications of one whole download of `file`: its length, its
/// chunks in order, and its end.
pub open spec fn lifecycle(file: Seq<char>, size: u64, chunks: Seq<nat>) -> Seq<Signal> {
    seq![Signal::ContentLength { size, file }] + data_signals(file, chunks)
        + seq![Signal::Finished { file }]
}

/// Two registries hold the same names in the same places.
pub open spec fn same_names(a: Seq<Record>, b: Seq<Record>) -> bool {
    &&& a.len() == b.len()
    &&& forall|i: int| 0 <= i < a.len() ==> (#[trigger] a[i]).name == b[i].name
}

/// `signal` is about the progress of a named file: its length, a chunk of
/// it, or its end.
pub open spec fn is_progress(signal: Signal) -> bool {
    signal is ContentLength || signal is Data || signal is Finished
}

/// The file that a progress signal is about.
pub open spec fn file_of(signal: Signal) -> Seq<char> {
    match signal {
        Signal::ContentLength { size, file } => file,
        Signal::Data { len, file } => file,
        Signal::Finished { file } => file,
        _ => Seq::empty(),
    }
}

/// Which record a file is tied to depends on the names alone.
pub proof fn lemma_resolve_by_names(a: Seq<Record>, b: Seq<Record>, file: Seq<char>)
    requires
        same_names(a, b),
    ensures
        resolve(a, file) == resolve(b, file),
{
    match resolve(a, file) {
        Some(i) => {
            lemma_resolve_first_match(a, file, i);
            assert(first_match(b, file, i)) by {
                assert(a[i].name == b[i].name);
                assert forall|j: int| 0 <= j < i implies !names_component(
                    file,
                    (#[trigger] b[j]).name,
                ) by {
                    assert(a[j].name == b[j].name);
                }
            }
            lemma_resolve_first_match(b, file, i);
        },
        None => {
            lemma_resolve_none(a, file);
            assert forall|j: int| 0 <= j < b.len() implies !names_component(
                file,
                (#[trigger] b[j]).name,
            ) by {
                assert(a[j].name == b[j].name);
            }
            lemma_resolve_none(b, file);
        },
    }
}

/// Where several registered names fit a file, the file is tied to the one
/// that was registered first: no record before the one it is tied to fits,
/// and every record that fits stands at or after it.
pub proof fn lemma_resolution_prefers_earlier(reg: Seq<Record>, file: Seq<char>, j: int)
    requires
        0 <= j < reg.len(),
        names_component(file, reg[j].name),
    ensures
        resolve(reg, file) matches Some(i) && 0 <= i <= j && names_component(file, reg[i].name),
{
    if resolve(reg, file) is None {
        lemma_resolve_none(reg, file);
    }
    let i = resolve(reg, file).unwrap();
    lemma_resolve_first_match(reg, file, i);
}

/// Running a stream and then another is running the two joined.
pub proof fn lemma_run_joined(reg: Seq<Record>, first: Seq<Signal>, second: Seq<Signal>)
    ensures
        run(reg, first + second) == run(run(reg, first), second),
    decreases second.len(),
{
    if second.len() == 0 {
        assert(first + second =~= first);
    } else {
        assert((first + second).drop_last() =~= first + second.drop_last());
        assert((first + second).last() == second.last());
        lemma_run_joined(reg, first, second.drop_last());
    }
}

/// Running a single notification is one step.
pub proof fn lemma_run_one(reg: Seq<Record>, signal: Signal)
    ensures
        run(reg, seq![signal]) == step(reg, signal),
{
    assert(seq![signal].drop_last() =~= Seq::<Signal>::empty());
    assert(run(reg, seq![signal].drop_last()) == reg);
}

/// No notification makes two records share a name.
pub proof fn lemma_step_keeps_names_distinct(reg: Seq<Record>, signal: Signal)
    requires
        distinct_names(reg),
    ensures
        distinct_names(step(reg, signal)),
{
    let after = step(reg, signal);
    match signal {
        Signal::ComponentStarted { name } => {
            match position(reg, name) {
                Some(i) => {
                    lemma_position_holds_name(reg, name, i);
                    assert(same_names(reg, after));
                    lemma_same_names_distinct(reg, after);
                },
                None => {
                    assert forall|i: int, j: int| 0 <= i < j < after.len() implies (
                    #[trigger] after[i]).name != (#[trigger] after[j]).name by {
                        if j == reg.len() {
                            assert(!holds_name(reg, name, i));
                        } else {
                            assert(reg[i].name != reg[j].name);
                        }
                    }
                },
            }
        },
        _ => {
            lemma_step_keeps_records(reg, signal);
            if is_progress(signal) {
                assert(same_names(reg, after));
                lemma_same_names_distinct(reg, after);
            }
        },
    }
}

/// Names that are distinct in one registry are distinct in another that
/// holds the same names.
proof fn lemma_same_names_distinct(a: Seq<Record>, b: Seq<Record>)
    requires
        same_names(a, b),
        distinct_names(a),
    ensures
        distinct_names(b),
{
    assert forall|i: int, j: int| 0 <= i < j < b.len() implies (#[trigger] b[i]).name != (
    #[trigger] b[j]).name by {
        assert(a[i].name == b[i].name);
        assert(a[j].name == b[j].name);
        assert(a[i].name != a[j].name);
    }
}

/// No stream of notifications makes two records share a name.
pub proof fn lemma_run_keeps_names_distinct(reg: Seq<Record>, signals: Seq<Signal>)
    requires
        distinct_names(reg),
    ensures
        distinct_names(run(reg, signals)),
    decreases signals.len(),
{
    if signals.len() > 0 {
        lemma_run_keeps_names_distinct(reg, signals.drop_last());
        lemma_step_keeps_names_distinct(run(reg, signals.drop_last()), signals.last());
    }
}

/// No notification removes a record or renames one: every record stays in
/// its place under its name. Only the start of a component adds a record,
/// and it adds at most one.
pub proof fn lemma_step_keeps_records(reg: Seq<Record>, signal: Signal)
    ensures
        reg.len() <= step(reg, signal).len() <= reg.len() + 1,
        !(signal is ComponentStarted) ==> step(reg, signal).len() == reg.len(),
        forall|i: int| 0 <= i < reg.len() ==> (#[trigger] step(reg, signal)[i]).name == reg[i].name,
{
    let after = step(reg, signal);
    match signal {
        Signal::ComponentStarted { name } => {
            match position(reg, name) {
                Some(i) => {
                    assert(holds_name(reg, name, i));
                },
                None => {},
            }
        },
        _ => {},
    }
}

/// A notification about a file that is empty, or that contains no
/// registered name, changes nothing.
pub proof fn lemma_unresolved_changes_nothing(reg: Seq<Record>, signal: Signal)
    requires
        is_progress(signal),
        file_of(signal).len() == 0 || forall|i: int|
            0 <= i < reg.len() ==> !contains_text(
                file_of(signal),
                (#[trigger] reg[i]).name,
            ),
    ensures
        resolve(reg, file_of(signal)) is None,
        step(reg, signal) == reg,
{
    lemma_resolve_none(reg, file_of(signal));
}

/// A notification that is not the start of a component never lowers the
/// bytes received of any record, and changes nothing in a finished one.
pub proof fn lemma_received_never_decreases(reg: Seq<Record>, signal: Signal, i: int)
    requires
        !(signal is ComponentStarted),
        0 <= i < reg.len(),
    ensures
        step(reg, signal)[i].received >= reg[i].received,
        reg[i].finished ==> step(reg, signal)[i] == reg[i],
{
}

/// A notification about a file changes at most the record that the file is
/// tied to.
pub proof fn lemma_step_touches_one_record(reg: Seq<Record>, signal: Signal, i: int)
    requires
        is_progress(signal),
        0 <= i < reg.len(),
        resolve(reg, file_of(signal)) != Some(i),
    ensures
        step(reg, signal)[i] == reg[i],
{
    match resolve(reg, file_of(signal)) {
        Some(k) => {
            lemma_resolve_first_match(reg, file_of(signal), k);
        },
        None => {},
    }
}

/// A file that names exactly one registered component is tied to it.
pub proof fn lemma_only_match_resolves(reg: Seq<Record>, file: Seq<char>, i: int)
    requires
        0 <= i < reg.len(),
        names_component(file, reg[i].name),
        forall|j: int|
            0 <= j < reg.len() && j != i ==> !names_component(file, (#[trigger] reg[j]).name),
    ensures
        resolve(reg, file) == Some(i),
{
    assert(first_match(reg, file, i));
    lemma_resolve_first_match(reg, file, i);
}

/// A notification about a file changes the record that the file is tied
/// to, if that record is not finished, in one field and leaves everything
/// else as it was: a length sets the total, replacing an earlier one; a
/// chunk adds its length to the bytes received; the end marks the record
/// finished. No record is added, removed, renamed or moved.
pub proof fn lemma_progress_goes_to_its_record(reg: Seq<Record>, signal: Signal, i: int)
    requires
        is_progress(signal),
        resolve(reg, file_of(signal)) == Some(i),
        !reg[i].finished,
    ensures
        0 <= i < reg.len(),
        step(reg, signal).len() == reg.len(),
        forall|j: int| 0 <= j < reg.len() && j != i ==> step(reg, signal)[j] == reg[j],
        step(reg, signal)[i].name == reg[i].name,
        match signal {
            Signal::ContentLength { size, file } => step(reg, signal)[i] == Record {
                total: Some(size),
                ..reg[i]
            },
            Signal::Data { len, file } => {
                &&& step(reg, signal)[i] == Record {
                    received: add_bytes(reg[i].received, len),
                    ..reg[i]
                }
                &&& reg[i].received + len <= u64::MAX ==> step(reg, signal)[i].received
                    == reg[i].received + len
            },
            Signal::Finished { file } => step(reg, signal)[i] == Record {
                finished: true,
                ..reg[i]
            },
            _ => true,
        },
{
    lemma_resolve_first_match(reg, file_of(signal), i);
}

/// A finished record is frozen: no notification about a file changes it.
/// Only registering its name again replaces it.
pub proof fn lemma_finished_is_frozen(reg: Seq<Record>, signal: Signal, i: int)
    requires
        0 <= i < reg.len(),
        reg[i].finished,
        !(signal is ComponentStarted),
    ensures
        step(reg, signal).len() == reg.len(),
        step(reg, signal)[i] == reg[i],
{
}

/// The chunks of one file add up: after data notifications for `file`, the
/// record that `file` is tied to has received the sum of the chunks on top
/// of what it had, up to the largest 64-bit number, and nothing else in the
/// registry has changed.
pub proof fn lemma_chunks_add_up(reg: Seq<Record>, file: Seq<char>, chunks: Seq<nat>, i: int)
    requires
        resolve(reg, file) == Some(i),
        !reg[i].finished,
    ensures
        run(reg, data_signals(file, chunks)) == reg.update(
            i,
            Record { received: add_bytes(reg[i].received, total_len(chunks)), ..reg[i] },
        ),
    decreases chunks.len(),
{
    lemma_resolve_first_match(reg, file, i);
    let signals = data_signals(file, chunks);
    if chunks.len() == 0 {
        assert(reg.update(i, reg[i]) =~= reg);
    } else {
        let earlier = chunks.drop_last();
        lemma_chunks_add_up(reg, file, earlier, i);
        assert(signals.drop_last() =~= data_signals(file, earlier));
        let middle = run(reg, data_signals(file, earlier));
        assert(same_names(reg, middle));
        lemma_resolve_by_names(reg, middle, file);
        lemma_add_bytes_twice(reg[i].received, total_len(earlier), chunks.last());
        assert(step(middle, signals.last()) =~= reg.update(
            i,
            Record { received: add_bytes(reg[i].received, total_len(chunks)), ..reg[i] },
        ));
    }
}

/// One whole download: after the length, the chunks and the end of `file`,
/// the record that `file` is tied to holds the announced total, the sum of
/// its chunks on top of what it had received (up to the largest 64-bit
/// number), and is finished. Nothing else in the registry has changed.
pub proof fn lemma_lifecycle_totals(
    reg: Seq<Record>,
    file: Seq<char>,
    size: u64,
    chunks: Seq<nat>,
    i: int,
)
    requires
        resolve(reg, file) == Some(i),
        !reg[i].finished,
    ensures
        run(reg, lifecycle(file, size, chunks)) == reg.update(
            i,
            Record {
                name: reg[i].name,
                total: Some(size),
                received: add_bytes(reg[i].received, total_len(chunks)),
                finished: true,
            },
        ),
        reg[i].received + total_len(chunks) <= u64::MAX ==> run(
            reg,
            lifecycle(file, size, chunks),
        )[i].received == reg[i].received + total_len(chunks),
{
    lemma_resolve_first_match(reg, file, i);
    let length = seq![Signal::ContentLength { size, file }];
    let data = data_signals(file, chunks);
    let end = seq![Signal::Finished { file }];
    let sized = step(reg, Signal::ContentLength { size, file });
    assert(sized =~= reg.update(i, Record { total: Some(size), ..reg[i] }));
    assert(same_names(reg, sized));
    lemma_resolve_by_names(reg, sized, file);
    lemma_run_one(reg, Signal::ContentLength { size, file });
    lemma_chunks_add_up(sized, file, chunks, i);
    let filled = run(sized, data);
    assert(same_names(reg, filled));
    lemma_resolve_by_names(reg, filled, file);
    lemma_run_one(filled, Signal::Finished { file });
    lemma_run_joined(reg, length, data);
    lemma_run_joined(reg, length + data, end);
    assert(run(reg, lifecycle(file, size, chunks)) =~= reg.update(
        i,
        Record {
            name: reg[i].name,
            total: Some(size),
            received: add_bytes(reg[i].received, total_len(chunks)),
            finished: true,
        },
    ));
}

/// Where the chunks before the last one stay within the announced total,
/// the download ends at most one chunk beyond it.
pub proof fn lemma_overshoot_within_last_chunk(
    reg: Seq<Record>,
    file: Seq<char>,
    size: u64,
    chunks: Seq<nat>,
    i: int,
)
    requires
        resolve(reg, file) == Some(i),
        !reg[i].finished,
        chunks.len() > 0,
        reg[i].received + total_len(chunks.drop_last()) <= size,
    ensures
        run(reg, lifecycle(file, size, chunks))[i].received <= size + chunks.last(),
{
    lemma_resolve_first_match(reg, file, i);
    lemma_lifecycle_totals(reg, file, size, chunks, i);
}

/// A component that was just registered has a fresh record under its name,
/// and its own name is tied to a record.
pub proof fn lemma_created_is_registered(reg: Seq<Record>, name: Seq<char>)
    requires
        distinct_names(reg),
    ensures
        position(created(reg, name), name) matches Some(i) && created(reg, name)[i] == fresh(name),
        name.len() > 0 ==> resolve(created(reg, name), name) is Some,
{
    let after = created(reg, name);
    let at = match position(reg, name) {
        Some(i) => i,
        None => reg.len() as int,
    };
    match position(reg, name) {
        Some(i) => {
            lemma_position_holds_name(reg, name, i);
        },
        None => {},
    }
    assert(holds_name(after, name, at));
    lemma_step_keeps_names_distinct(reg, Signal::ComponentStarted { name });
    lemma_position_holds_name(after, name, at);
    if name.len() > 0 {
        lemma_contains_itself(name);
        assert(names_component(name, after[at].name));
        if resolve(after, name) is None {
            lemma_resolve_none(after, name);
        }
    }
}

/// Registering a name twice in a row leaves what registering it once
/// leaves: the later registration wins, and it is a fresh record either way.
pub proof fn lemma_created_again_is_same(reg: Seq<Record>, name: Seq<char>)
    requires
        distinct_names(reg),
    ensures
        created(created(reg, name), name) == created(reg, name),
{
    let once = created(reg, name);
    lemma_created_is_registered(reg, name);
    let at = position(once, name).unwrap();
    assert(once.update(at, fresh(name)) =~= once);
}

/// Notifications about files tied to different records, or to none, can
/// change places: the outcome does not depend on their order.
pub proof fn lemma_distinct_downloads_commute(reg: Seq<Record>, first: Signal, second: Signal)
    requires
        is_progress(first),
        is_progress(second),
        resolve(reg, file_of(first)) != resolve(reg, file_of(second)) || resolve(
            reg,
            file_of(first),
        ) is None,
    ensures
        step(step(reg, first), second) == step(step(reg, second), first),
{
    let one = step(reg, first);
    let two = step(reg, second);
    lemma_step_keeps_records(reg, first);
    lemma_step_keeps_records(reg, second);
    assert(same_names(reg, one));
    assert(same_names(reg, two));
    lemma_resolve_by_names(reg, one, file_of(second));
    lemma_resolve_by_names(reg, two, file_of(first));
    match resolve(reg, file_of(first)) {
        Some(a) => {
            lemma_resolve_first_match(reg, file_of(first), a);
        },
        None => {},
    }
    match resolve(reg, file_of(second)) {
        Some(b) => {
            lemma_resolve_first_match(reg, file_of(second), b);
        },
        None => {},
    }
    assert(step(one, second) =~= step(two, first));
}

} // verus!
