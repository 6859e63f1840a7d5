//! What a whole scan finds and reports when it runs against a file system
//! that stays as it is.

use crate::audio_file::{prefix_of, AudioFileView, PREFIX_LIMIT};
use crate::entry::EntryView;
use crate::classify::is_audio_name;
use crate::model::{reported, scan_events, scan_reports, FileSystem};
use crate::progress::{complete_report, counting_report, reports_after, Phase, ProgressView};
use crate::scanner::{saturated, RequestView, ScanError, ScanState, Stage};
use crate::walker::{audio_entries, stacked, task_for, TaskView, WalkerView};
use vstd::prelude::*;

verus! {

/// Running `first + second` steps is running `first` steps and then `second`
/// more, and the events of the whole are those of the two parts in a row.
pub proof fn lemma_run_in_two_parts(fs: FileSystem, state: ScanState, first: nat, second: nat)
    ensures
        fs.run(state, first + second) == fs.run(fs.run(state, first), second),
        fs.reports(state, first + second) == fs.reports(state, first) + fs.reports(
            fs.run(state, first),
            second,
        ),
    decreases first,
{
    if first > 0 {
        lemma_run_in_two_parts(fs, fs.step(state), (first - 1) as nat, second);
    }
}

/// One step of a run.
proof fn lemma_one_step(fs: FileSystem, state: ScanState)
    ensures
        fs.run(state, 1) == fs.step(state),
        fs.reports(state, 1) == reported(state),
{
    assert(fs.run(fs.step(state), 0) == fs.step(state));
    assert(fs.reports(fs.step(state), 0) == Seq::<ProgressView>::empty());
}

/// Counting twice up to the machine's largest number is counting once.
proof fn lemma_saturated_sum(a: nat, b: nat, c: nat)
    ensures
        saturated(saturated(a + b) + c) == saturated(a + b + c),
{
}

/// What is kept of a file does not depend on whether the whole file or only
/// its first bytes up to the limit were handed over.
proof fn lemma_prefix_of_leading_bytes(fs: FileSystem, path: Seq<char>)
    requires
        fs.contents.dom().contains(path),
    ensures
        fs.leading_bytes(path, PREFIX_LIMIT as nat) matches Some(bytes) && prefix_of(bytes)
            == prefix_of(fs.contents[path]),
{
}

/// A walk that stays within a depth does so from its second entry on.
proof fn lemma_rest_within_depth(fs: FileSystem, entries: Seq<EntryView>, depth: nat)
    requires
        entries.len() > 0,
        fs.within_depth(entries, depth),
    ensures
        fs.within_depth(entries.drop_first(), depth),
{
    let rest = entries.drop_first();
    assert forall|i: int|
        0 <= i < rest.len() && task_for(#[trigger] rest[i], false) is Some implies depth > 0
        && fs.within_depth(fs.entries_at(rest[i].path), (depth - 1) as nat) by {
        assert(rest[i] == entries[i + 1]);
    }
}

/// The walk of a count: from a scan that counts and has the tasks for
/// `entries` on top of `below`, a run comes to the scan that has only `below`
/// left and has counted every audio entry in the directories under `entries`.
/// Nothing is reported on the way.
proof fn lemma_count_walk(
    fs: FileSystem,
    state: ScanState,
    below: Seq<TaskView>,
    entries: Seq<EntryView>,
    depth: nat,
) -> (steps: nat)
    requires
        state.stage == Stage::Counting,
        state.walker == (WalkerView { tasks: stacked(below, entries, false), reads: false }),
        state.total <= usize::MAX,
        fs.within_depth(entries, depth),
    ensures
        fs.run(state, steps) == (ScanState {
            walker: WalkerView { tasks: below, reads: false },
            total: saturated(state.total + fs.matches_below(entries, depth)),
            ..state
        }),
        fs.reports(state, steps) == Seq::<ProgressView>::empty(),
    decreases depth, entries.len(),
{
    if entries.len() == 0 {
        0
    } else {
        let first = entries[0];
        let rest = entries.drop_first();
        lemma_rest_within_depth(fs, entries, depth);
        match task_for(first, false) {
            None => lemma_count_walk(fs, state, below, rest, depth),
            Some(_) => {
                // The directory is listed, and its audio entries are counted.
                let children = fs.entries_at(first.path);
                let under = stacked(below, rest, false);
                assert(state.walker.tasks.drop_last() =~= under);
                let after = fs.step(state);
                assert(after == (ScanState {
                    walker: WalkerView { tasks: stacked(under, children, false), reads: false },
                    total: saturated(state.total + audio_entries(children)),
                    ..state
                }));
                // Then what lies under it is counted, then what follows it.
                let down = lemma_count_walk(fs, after, under, children, (depth - 1) as nat);
                let back = fs.run(after, down);
                let along = lemma_count_walk(fs, back, below, rest, depth);
                lemma_one_step(fs, state);
                lemma_run_in_two_parts(fs, state, 1, down);
                lemma_run_in_two_parts(fs, state, 1 + down, along);
                lemma_saturated_sum(
                    state.total,
                    audio_entries(children),
                    fs.matches_below(children, (depth - 1) as nat),
                );
                lemma_saturated_sum(
                    state.total + audio_entries(children),
                    fs.matches_below(children, (depth - 1) as nat),
                    fs.matches_below(rest, depth),
                );
                assert(fs.matches(children, (depth - 1) as nat) == audio_entries(children)
                    + fs.matches_below(children, (depth - 1) as nat));
                1 + down + along
            },
        }
    }
}

/// The events after the reading of two runs of files in a row are those after
/// the first run and then those after the second.
proof fn lemma_scan_reports_in_two_parts(
    total: nat,
    before: nat,
    first: Seq<AudioFileView>,
    second: Seq<AudioFileView>,
)
    ensures
        scan_reports(total, before, first + second) == scan_reports(total, before, first)
            + scan_reports(total, before + first.len(), second),
    decreases first.len(),
{
    if first.len() > 0 {
        assert((first + second).drop_first() =~= first.drop_first() + second);
        lemma_scan_reports_in_two_parts(total, before + 1, first.drop_first(), second);
    }
}

/// The walk of a scan: from a scan that reads, has no event waiting and has
/// the tasks for `entries` on top of `below`, a run comes to the scan that has
/// only `below` left and has read, after the files it had, those that a walk
/// of `entries` reads. The events on the way are those that follow these
/// files.
proof fn lemma_scan_walk(
    fs: FileSystem,
    state: ScanState,
    below: Seq<TaskView>,
    entries: Seq<EntryView>,
    depth: nat,
) -> (steps: nat)
    requires
        state.stage == Stage::Scanning,
        state.report is None,
        state.walker == (WalkerView { tasks: stacked(below, entries, true), reads: true }),
        fs.within_depth(entries, depth),
    ensures
        fs.run(state, steps) == (ScanState {
            walker: WalkerView { tasks: below, reads: true },
            files: state.files + fs.found(entries, depth),
            ..state
        }),
        fs.reports(state, steps) == scan_reports(
            state.total,
            state.files.len(),
            fs.found(entries, depth),
        ),
    decreases depth, entries.len(),
{
    if entries.len() == 0 {
        0
    } else {
        let first = entries[0];
        let rest = entries.drop_first();
        let under = stacked(below, rest, true);
        lemma_rest_within_depth(fs, entries, depth);
        assert(fs.found(entries, depth) == fs.found_at(first, depth) + fs.found(rest, depth));
        match task_for(first, true) {
            None => lemma_scan_walk(fs, state, below, rest, depth),
            Some(TaskView::List { path }) => {
                // The directory is listed.
                let children = fs.entries_at(path);
                assert(state.walker.tasks.drop_last() =~= under);
                let after = fs.step(state);
                assert(after == (ScanState {
                    walker: WalkerView { tasks: stacked(under, children, true), reads: true },
                    ..state
                }));
                // Then what lies under it is read, then what follows it.
                let down = lemma_scan_walk(fs, after, under, children, (depth - 1) as nat);
                let back = fs.run(after, down);
                let along = lemma_scan_walk(fs, back, below, rest, depth);
                lemma_one_step(fs, state);
                lemma_run_in_two_parts(fs, state, 1, down);
                lemma_run_in_two_parts(fs, state, 1 + down, along);
                let inside = fs.found(children, (depth - 1) as nat);
                let beside = fs.found(rest, depth);
                assert((state.files + inside) + beside =~= state.files + (inside + beside));
                lemma_scan_reports_in_two_parts(
                    state.total,
                    state.files.len(),
                    inside,
                    beside,
                );
                1 + down + along
            },
            Some(TaskView::Read { name, path }) => {
                // The file is asked for.
                assert(state.walker.tasks.drop_last() =~= under);
                let after = fs.step(state);
                lemma_one_step(fs, state);
                if fs.contents.dom().contains(path) {
                    // It opens and joins the files read.
                    lemma_prefix_of_leading_bytes(fs, path);
                    let file = AudioFileView { name, path, data: prefix_of(fs.contents[path]) };
                    let files = state.files.push(file);
                    let beside = fs.found(rest, depth);
                    assert(state.files + (seq![file] + beside) =~= files + beside);
                    assert((seq![file] + beside).drop_first() =~= beside);
                    if reports_after(state.total, files.len()) {
                        // The event that is due is handed over first.
                        let told = fs.step(after);
                        lemma_one_step(fs, after);
                        let along = lemma_scan_walk(fs, told, below, rest, depth);
                        lemma_run_in_two_parts(fs, state, 1, 1);
                        lemma_run_in_two_parts(fs, state, 2, along);
                        2 + along
                    } else {
                        let along = lemma_scan_walk(fs, after, below, rest, depth);
                        lemma_run_in_two_parts(fs, state, 1, along);
                        1 + along
                    }
                } else {
                    // It does not open and is passed by.
                    let along = lemma_scan_walk(fs, after, below, rest, depth);
                    lemma_run_in_two_parts(fs, state, 1, along);
                    1 + along
                }
            },
        }
    }
}

/// A scan that is over stays as it is and reports nothing more.
pub proof fn lemma_scan_that_is_over(fs: FileSystem, state: ScanState, steps: nat)
    requires
        state.outcome() is Some,
    ensures
        state.request() == RequestView::Done,
        fs.run(state, steps) == state,
        fs.reports(state, steps) == Seq::<ProgressView>::empty(),
    decreases steps,
{
    if steps > 0 {
        lemma_scan_that_is_over(fs, state, (steps - 1) as nat);
    }
}

/// The scan of a root that does not exist ends with its first answer: it
/// gives `NotFound`, and nothing is ever reported.
pub proof fn lemma_scan_of_missing_root(fs: FileSystem, root: Seq<char>, steps: nat)
    requires
        !fs.present.contains(root),
    ensures
        steps > 0 ==> fs.run(ScanState::initial(root), steps).outcome() == Some(
            Err::<Seq<AudioFileView>, ScanError>(ScanError::NotFound),
        ),
        fs.reports(ScanState::initial(root), steps) == Seq::<ProgressView>::empty(),
{
    if steps > 0 {
        lemma_scan_that_is_over(fs, fs.step(ScanState::initial(root)), (steps - 1) as nat);
    }
}

/// The scan of a tree. Where the root exists and no walk from it goes more
/// than `depth` directories down, the scan comes to its end after some number
/// of steps. It has then read exactly the files that a walk of the root's
/// entries reads, in the order of the walk, and has counted the audio entries
/// that the walk passes. It has reported the count, then the files as they
/// were read, then the end.
pub proof fn lemma_scan_of_tree(fs: FileSystem, root: Seq<char>, depth: nat) -> (steps: nat)
    requires
        fs.present.contains(root),
        fs.within_depth(fs.entries_at(root), depth),
    ensures
        fs.run(ScanState::initial(root), steps).outcome() == Some(
            Ok::<Seq<AudioFileView>, ScanError>(fs.found(fs.entries_at(root), depth)),
        ),
        fs.run(ScanState::initial(root), steps).total == saturated(
            fs.matches(fs.entries_at(root), depth),
        ),
        fs.reports(ScanState::initial(root), steps) == scan_events(
            saturated(fs.matches(fs.entries_at(root), depth)),
            fs.found(fs.entries_at(root), depth),
        ),
{
    let entries = fs.entries_at(root);
    let none = Seq::<TaskView>::empty();

    // The root exists: the count begins.
    let start = ScanState::initial(root);
    let counting = fs.step(start);
    lemma_one_step(fs, start);

    // The root is listed for the count.
    assert(counting.walker.tasks.drop_last() =~= none);
    let counted_root = fs.step(counting);
    assert(counted_root == (ScanState {
        walker: WalkerView { tasks: stacked(none, entries, false), reads: false },
        total: saturated(audio_entries(entries)),
        ..counting
    }));
    lemma_one_step(fs, counting);

    // The directories under the root are counted.
    let count_steps = lemma_count_walk(fs, counted_root, none, entries, depth);
    let counted = fs.run(counted_root, count_steps);
    lemma_saturated_sum(0, audio_entries(entries), fs.matches_below(entries, depth));

    // The count is reported: the reading begins.
    let scanning = fs.step(counted);
    lemma_one_step(fs, counted);

    // The root is listed for the reading.
    let listed_root = fs.step(scanning);
    assert(listed_root == (ScanState {
        walker: WalkerView { tasks: stacked(none, entries, true), reads: true },
        ..scanning
    }));
    lemma_one_step(fs, scanning);

    // The files are read.
    let scan_steps = lemma_scan_walk(fs, listed_root, none, entries, depth);
    let read = fs.run(listed_root, scan_steps);

    // The end is reported.
    lemma_one_step(fs, read);

    // The parts in a row.
    lemma_run_in_two_parts(fs, start, 1, 1);
    lemma_run_in_two_parts(fs, start, 2, count_steps);
    lemma_run_in_two_parts(fs, start, 2 + count_steps, 1);
    lemma_run_in_two_parts(fs, start, 3 + count_steps, 1);
    lemma_run_in_two_parts(fs, start, 4 + count_steps, scan_steps);
    lemma_run_in_two_parts(fs, start, 4 + count_steps + scan_steps, 1);
    5 + count_steps + scan_steps
}

/// A walk reads no more files than it passes audio entries: an entry that
/// cannot be opened is counted and not read.
pub proof fn lemma_found_at_most_matches(fs: FileSystem, entries: Seq<EntryView>, depth: nat)
    ensures
        fs.found(entries, depth).len() <= fs.matches(entries, depth),
    decreases depth, entries.len(),
{
    if entries.len() > 0 {
        let first = entries[0];
        let rest = entries.drop_first();
        lemma_found_at_most_matches(fs, rest, depth);
        assert(fs.found(entries, depth).len() == fs.found_at(first, depth).len() + fs.found(
            rest,
            depth,
        ).len());
        if let Some(TaskView::List { path }) = task_for(first, true) {
            if depth > 0 {
                lemma_found_at_most_matches(fs, fs.entries_at(path), (depth - 1) as nat);
            }
        }
    }
}

/// The events that follow the reading of files are all of the reading phase
/// and carry the count; each tells a number of files read that lies above the
/// number read before and within the number read in all, and these numbers
/// rise from each event to the next.
pub proof fn lemma_scan_reports_rise(total: nat, before: nat, files: Seq<AudioFileView>)
    ensures
        forall|i: int|
            0 <= i < scan_reports(total, before, files).len() ==> {
                let event = #[trigger] scan_reports(total, before, files)[i];
                &&& event.phase == Phase::Scanning
                &&& event.total == total
                &&& before < event.processed <= before + files.len()
                &&& reports_after(total, event.processed)
            },
        forall|i: int, j: int|
            0 <= i < j < scan_reports(total, before, files).len() ==> (#[trigger] scan_reports(
                total,
                before,
                files,
            )[i]).processed < (#[trigger] scan_reports(total, before, files)[j]).processed,
    decreases files.len(),
{
    if files.len() > 0 {
        lemma_scan_reports_rise(total, before + 1, files.drop_first());
    }
}

/// The events of a whole scan, in their order. The first tells the count, with
/// no file read. Those between the first and the last are of the reading
/// phase; the number of files read that they tell never falls, and is never
/// above the number of files that the scan read. The last, and no other, tells
/// the end, with the number of files that the scan read.
pub proof fn lemma_scan_events_in_order(total: nat, files: Seq<AudioFileView>)
    ensures
        scan_events(total, files).len() >= 2,
        scan_events(total, files).first() == counting_report(total),
        scan_events(total, files).last() == complete_report(total, files.len()),
        forall|i: int|
            0 < i < scan_events(total, files).len() - 1 ==> {
                let event = #[trigger] scan_events(total, files)[i];
                &&& event.phase == Phase::Scanning
                &&& event.total == total
                &&& 0 < event.processed <= files.len()
            },
        forall|i: int, j: int|
            0 < i <= j < scan_events(total, files).len() - 1 ==> (#[trigger] scan_events(
                total,
                files,
            )[i]).processed <= (#[trigger] scan_events(total, files)[j]).processed,
        files.len() == 0 ==> scan_events(total, files) == seq![
            counting_report(total),
            complete_report(total, 0),
        ],
{
    let between = scan_reports(total, 0, files);
    let events = scan_events(total, files);
    lemma_scan_reports_rise(total, 0, files);
    assert forall|i: int| 0 < i < events.len() - 1 implies #[trigger] events[i] == between[i
        - 1] by {}
}

/// The progress of the scan of a tree. Of the scan of a root that exists, in
/// a tree that holds no more audio entries than the machine can count: the
/// first event is of the counting phase and tells no file read; the events of
/// the reading phase tell numbers of files read that never fall and never
/// pass the count; one event tells the end, it is the last, and it tells the
/// number of files that the scan gives.
pub proof fn lemma_progress_of_scan(fs: FileSystem, root: Seq<char>, depth: nat) -> (steps: nat)
    requires
        fs.present.contains(root),
        fs.within_depth(fs.entries_at(root), depth),
        fs.matches(fs.entries_at(root), depth) <= usize::MAX,
    ensures
        fs.run(ScanState::initial(root), steps).outcome() == Some(
            Ok::<Seq<AudioFileView>, ScanError>(fs.found(fs.entries_at(root), depth)),
        ),
        fs.reports(ScanState::initial(root), steps).len() >= 2,
        fs.reports(ScanState::initial(root), steps).first().phase == Phase::Counting,
        fs.reports(ScanState::initial(root), steps).first().processed == 0,
        forall|i: int|
            0 < i < fs.reports(ScanState::initial(root), steps).len() - 1 ==> {
                let event = #[trigger] fs.reports(ScanState::initial(root), steps)[i];
                &&& event.phase == Phase::Scanning
                &&& event.processed <= event.total
            },
        forall|i: int, j: int|
            0 < i <= j < fs.reports(ScanState::initial(root), steps).len() - 1 ==> (
            #[trigger] fs.reports(ScanState::initial(root), steps)[i]).processed <= (
            #[trigger] fs.reports(ScanState::initial(root), steps)[j]).processed,
        fs.reports(ScanState::initial(root), steps).last().phase == Phase::Complete,
        fs.reports(ScanState::initial(root), steps).last().processed == fs.found(
            fs.entries_at(root),
            depth,
        ).len(),
{
    let entries = fs.entries_at(root);
    let steps = lemma_scan_of_tree(fs, root, depth);
    lemma_found_at_most_matches(fs, entries, depth);
    lemma_scan_events_in_order(fs.matches(entries, depth), fs.found(entries, depth));
    steps
}

/// The scan of a tree without audio files. Of the scan of a root that exists,
/// in a tree where a walk passes no audio entry: the scan gives no file, and
/// reports a count of none and then the end with none read.
pub proof fn lemma_scan_of_tree_without_audio(fs: FileSystem, root: Seq<char>, depth: nat) -> (steps:
    nat)
    requires
        fs.present.contains(root),
        fs.within_depth(fs.entries_at(root), depth),
        fs.matches(fs.entries_at(root), depth) == 0,
    ensures
        fs.run(ScanState::initial(root), steps).outcome() == Some(
            Ok::<Seq<AudioFileView>, ScanError>(Seq::empty()),
        ),
        fs.reports(ScanState::initial(root), steps) == seq![
            counting_report(0),
            complete_report(0, 0),
        ],
{
    let entries = fs.entries_at(root);
    let steps = lemma_scan_of_tree(fs, root, depth);
    lemma_found_at_most_matches(fs, entries, depth);
    assert(fs.found(entries, depth) =~= Seq::<AudioFileView>::empty());
    lemma_scan_events_in_order(0, fs.found(entries, depth));
    steps
}

/// What is kept of a file: the whole content of a file shorter than the limit,
/// and of any other file exactly its first bytes up to the limit.
pub proof fn lemma_prefix_of_content(content: Seq<u8>)
    ensures
        content.len() < PREFIX_LIMIT ==> prefix_of(content) == content,
        content.len() >= PREFIX_LIMIT ==> prefix_of(content) == content.take(PREFIX_LIMIT as int)
            && prefix_of(content).len() == PREFIX_LIMIT,
        prefix_of(content).len() <= PREFIX_LIMIT,
{
}

/// Every file that a walk reads has the name of an audio file, can be opened,
/// and comes with what is kept of its content.
pub proof fn lemma_found_files_are_audio(fs: FileSystem, entries: Seq<EntryView>, depth: nat)
    ensures
        forall|i: int|
            0 <= i < fs.found(entries, depth).len() ==> {
                let file = #[trigger] fs.found(entries, depth)[i];
                &&& is_audio_name(file.name)
                &&& fs.contents.dom().contains(file.path)
                &&& file.data == prefix_of(fs.contents[file.path])
            },
    decreases depth, entries.len(),
{
    if entries.len() > 0 {
        let first = entries[0];
        let here = fs.found_at(first, depth);
        let beside = fs.found(entries.drop_first(), depth);
        lemma_found_files_are_audio(fs, entries.drop_first(), depth);
        if let Some(TaskView::List { path }) = task_for(first, true) {
            if depth > 0 {
                lemma_found_files_are_audio(fs, fs.entries_at(path), (depth - 1) as nat);
                assert(here == fs.found(fs.entries_at(path), (depth - 1) as nat));
            }
        }
        assert forall|k: int| 0 <= k < here.len() implies {
            let file = #[trigger] here[k];
            &&& is_audio_name(file.name)
            &&& fs.contents.dom().contains(file.path)
            &&& file.data == prefix_of(fs.contents[file.path])
        } by {}
        assert forall|i: int| 0 <= i < fs.found(entries, depth).len() implies {
            let file = #[trigger] fs.found(entries, depth)[i];
            &&& is_audio_name(file.name)
            &&& fs.contents.dom().contains(file.path)
            &&& file.data == prefix_of(fs.contents[file.path])
        } by {}
    }
}

/// A walk reads each audio entry of a directory that can be opened, once, and
/// nothing else there: the files read on account of a listing are, entry by
/// entry, the file of that entry or what the walk reads under it.
pub proof fn lemma_found_entry_by_entry(
    fs: FileSystem,
    before: Seq<EntryView>,
    after: Seq<EntryView>,
    depth: nat,
)
    ensures
        fs.found(before + after, depth) == fs.found(before, depth) + fs.found(after, depth),
    decreases before.len(),
{
    if before.len() > 0 {
        assert((before + after).drop_first() =~= before.drop_first() + after);
        lemma_found_entry_by_entry(fs, before.drop_first(), after, depth);
    }
}

} // verus!
