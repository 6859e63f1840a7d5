//! What a scan does when its requests are answered from a file system that
//! stays as it is.
//!
//! A `FileSystem` says what exists, what each directory lists and what each
//! file holds. Running a scan against it means answering each request from it
//! and handing the answer back, step after step. What a walk of such a file
//! system passes and reads is defined here as well, by the listings alone.

use crate::audio_file::{prefix_of, AudioFileView};
use crate::entry::EntryView;
use crate::progress::{
    complete_report, counting_report, reports_after, scanning_report, ProgressView,
};
use crate::scanner::{RequestView, ResponseView, ScanState};
use crate::walker::{audio_entries, task_for, TaskView};
use vstd::prelude::*;

verus! {

/// A file system as a scan sees it.
pub struct FileSystem {
    /// The paths at which something exists.
    pub present: Set<Seq<char>>,
    /// The directories that can be listed, each with its entries in the order
    /// of its listing.
    pub listings: Map<Seq<char>, Seq<EntryView>>,
    /// The files that can be opened, each with its content.
    pub contents: Map<Seq<char>, Seq<u8>>,
}

impl FileSystem {
    /// The answer to the request for the listing of `path`.
    pub open spec fn listing(self, path: Seq<char>) -> Option<Seq<EntryView>> {
        if self.listings.dom().contains(path) {
            Some(self.listings[path])
        } else {
            None
        }
    }

    /// The entries that a walk meets in the directory `path`: none where the
    /// directory cannot be listed.
    pub open spec fn entries_at(self, path: Seq<char>) -> Seq<EntryView> {
        match self.listing(path) {
            Some(entries) => entries,
            None => Seq::empty(),
        }
    }

    /// The answer to the request for the first `limit` bytes of `path`: all of
    /// the file where it is shorter.
    pub open spec fn leading_bytes(self, path: Seq<char>, limit: nat) -> Option<Seq<u8>> {
        if self.contents.dom().contains(path) {
            let content = self.contents[path];
            if content.len() <= limit {
                Some(content)
            } else {
                Some(content.subrange(0, limit as int))
            }
        } else {
            None
        }
    }

    /// The answer to a request.
    pub open spec fn answer(self, request: RequestView) -> ResponseView {
        match request {
            RequestView::CheckRoot { path } => ResponseView::RootChecked(
                self.present.contains(path),
            ),
            RequestView::ListDir { path } => ResponseView::Listed(self.listing(path)),
            RequestView::ReadPrefix { path, limit } => ResponseView::Read(
                self.leading_bytes(path, limit),
            ),
            RequestView::Report(_) => ResponseView::Reported,
            RequestView::Done => ResponseView::Reported,
        }
    }

    /// The scan after its request was answered.
    pub open spec fn step(self, state: ScanState) -> ScanState {
        state.respond(self.answer(state.request()))
    }

    /// The scan after `steps` of its requests were answered.
    pub open spec fn run(self, state: ScanState, steps: nat) -> ScanState
        decreases steps,
    {
        if steps == 0 {
            state
        } else {
            self.run(self.step(state), (steps - 1) as nat)
        }
    }

    /// The events that the scan hands to the observer in its next `steps`
    /// requests, in order.
    pub open spec fn reports(self, state: ScanState, steps: nat) -> Seq<ProgressView>
        decreases steps,
    {
        if steps == 0 {
            Seq::empty()
        } else {
            reported(state) + self.reports(self.step(state), (steps - 1) as nat)
        }
    }

    /// A walk of `entries` goes no more than `depth` directories down.
    pub open spec fn within_depth(self, entries: Seq<EntryView>, depth: nat) -> bool
        decreases depth,
    {
        forall|i: int|
            0 <= i < entries.len() && task_for(#[trigger] entries[i], false) is Some ==> depth > 0
                && self.within_depth(self.entries_at(entries[i].path), (depth - 1) as nat)
    }

    /// The number of audio entries in the directories under `entries` that a
    /// walk enters, those among `entries` themselves not counted.
    pub open spec fn matches_below(self, entries: Seq<EntryView>, depth: nat) -> nat
        decreases depth, entries.len(),
    {
        if entries.len() == 0 {
            0
        } else {
            let under_first = if depth > 0 && task_for(entries[0], false) is Some {
                self.matches(self.entries_at(entries[0].path), (depth - 1) as nat)
            } else {
                0
            };
            under_first + self.matches_below(entries.drop_first(), depth)
        }
    }

    /// The number of audio entries that a walk of `entries` passes: those
    /// among `entries` and those in the directories that it enters.
    pub open spec fn matches(self, entries: Seq<EntryView>, depth: nat) -> nat
        decreases depth, entries.len() + 1,
    {
        audio_entries(entries) + self.matches_below(entries, depth)
    }

    /// The files that a walk of `entries` reads, in the order in which it
    /// meets them: each audio entry that can be opened, with the leading bytes
    /// kept of it, and for each directory that is entered what a walk of its
    /// entries reads.
    pub open spec fn found(self, entries: Seq<EntryView>, depth: nat) -> Seq<AudioFileView>
        decreases depth, entries.len(),
    {
        if entries.len() == 0 {
            Seq::empty()
        } else {
            self.found_at(entries[0], depth) + self.found(entries.drop_first(), depth)
        }
    }

    /// The files that a walk reads on account of one entry.
    pub open spec fn found_at(self, entry: EntryView, depth: nat) -> Seq<AudioFileView>
        decreases depth, 0nat,
    {
        match task_for(entry, true) {
            Some(TaskView::List { path }) => if depth > 0 {
                self.found(self.entries_at(path), (depth - 1) as nat)
            } else {
                Seq::empty()
            },
            Some(TaskView::Read { name, path }) => if self.contents.dom().contains(path) {
                seq![AudioFileView { name, path, data: prefix_of(self.contents[path]) }]
            } else {
                Seq::empty()
            },
            None => Seq::empty(),
        }
    }
}

/// The event that the scan hands to the observer with its next request, if
/// that request is for one.
pub open spec fn reported(state: ScanState) -> Seq<ProgressView> {
    match state.request() {
        RequestView::Report(progress) => seq![progress],
        _ => Seq::empty(),
    }
}

/// The events that follow the reading of `files`, after `before` files were
/// read already.
pub open spec fn scan_reports(total: nat, before: nat, files: Seq<AudioFileView>) -> Seq<
    ProgressView,
>
    decreases files.len(),
{
    if files.len() == 0 {
        Seq::empty()
    } else {
        let first = if reports_after(total, before + 1) {
            seq![scanning_report(total, before + 1, files[0].name)]
        } else {
            Seq::empty()
        };
        first + scan_reports(total, before + 1, files.drop_first())
    }
}

/// The events of a whole scan that counted `total` audio entries and read
/// `files`.
pub open spec fn scan_events(total: nat, files: Seq<AudioFileView>) -> Seq<ProgressView> {
    seq![counting_report(total)] + scan_reports(total, 0, files) + seq![
        complete_report(total, files.len()),
    ]
}

} // verus!
