//! A walk of a directory tree, taken one answer at a time.
//!
//! The walker reads nothing itself. It keeps the directories that are still to
//! be listed and the files that are still to be read, says which of them comes
//! next, and takes the answer: the listing of that directory, or the leading
//! bytes of that file. The entries of a directory are visited in the order of
//! its listing, and a directory's content before what follows the directory.

use crate::audio_file::{prefix_of, AudioFile, AudioFileView};
use crate::classify::{is_audio_file, is_audio_name, is_skipped_dir, should_skip_dir};
use crate::entry::{DirEntry, EntryKind, EntryView};
use vstd::prelude::*;

verus! {

/// Something that a walk still has to ask for.
#[derive(Debug, PartialEq, Eq)]
pub enum Task {
    /// The listing of the directory at `path`.
    List { path: String },
    /// The leading bytes of the file `name` at `path`.
    Read { name: String, path: String },
}

/// What a `Task` stands for.
pub enum TaskView {
    /// The listing of the directory at `path`.
    List { path: Seq<char> },
    /// The leading bytes of the file `name` at `path`.
    Read { name: Seq<char>, path: Seq<char> },
}

impl View for Task {
    type V = TaskView;

    open spec fn view(&self) -> TaskView {
        match self {
            Task::List { path } => TaskView::List { path: path@ },
            Task::Read { name, path } => TaskView::Read { name: name@, path: path@ },
        }
    }
}

impl DeepView for Task {
    type V = TaskView;

    open spec fn deep_view(&self) -> TaskView {
        self@
    }
}

/// Whether an entry is a file with the name of an audio file.
pub open spec fn is_audio_entry(entry: EntryView) -> bool {
    entry.kind == EntryKind::File && is_audio_name(entry.name)
}

/// The number of entries that are files with the name of an audio file.
pub open spec fn audio_entries(entries: Seq<EntryView>) -> nat
    decreases entries.len(),
{
    if entries.len() == 0 {
        0
    } else {
        let rest = audio_entries(entries.drop_first());
        if is_audio_entry(entries[0]) {
            rest + 1
        } else {
            rest
        }
    }
}

/// What a walk takes on for an entry: to list a directory unless its name is
/// one to skip, to read a file with an audio name if the walk reads files, and
/// nothing otherwise.
pub open spec fn task_for(entry: EntryView, reads: bool) -> Option<TaskView> {
    match entry.kind {
        EntryKind::Directory => if is_skipped_dir(entry.name) {
            None
        } else {
            Some(TaskView::List { path: entry.path })
        },
        EntryKind::File => if reads && is_audio_name(entry.name) {
            Some(TaskView::Read { name: entry.name, path: entry.path })
        } else {
            None
        },
        EntryKind::Other => None,
    }
}

/// The tasks `below` with those for `entries` put on top of them: the task
/// that comes next is the last one, so the first entry's task ends up last.
pub open spec fn stacked(below: Seq<TaskView>, entries: Seq<EntryView>, reads: bool) -> Seq<
    TaskView,
>
    decreases entries.len(),
{
    if entries.len() == 0 {
        below
    } else {
        let rest = stacked(below, entries.drop_first(), reads);
        match task_for(entries[0], reads) {
            Some(task) => rest.push(task),
            None => rest,
        }
    }
}

/// A walk in progress.
#[derive(Debug)]
pub struct Walker {
    tasks: Vec<Task>,
    reads: bool,
}

/// What a `Walker` stands for.
pub struct WalkerView {
    /// What is still to be asked for; the last task comes next.
    pub tasks: Seq<TaskView>,
    /// Whether the walk reads the audio files or only passes them by.
    pub reads: bool,
}

impl WalkerView {
    /// The walk that has the directory `root` to list and nothing else.
    pub open spec fn start(root: Seq<char>, reads: bool) -> WalkerView {
        WalkerView { tasks: seq![TaskView::List { path: root }], reads }
    }

    /// The task that comes next; `None` when the walk is over.
    pub open spec fn next(self) -> Option<TaskView> {
        if self.tasks.len() == 0 {
            None
        } else {
            Some(self.tasks.last())
        }
    }

    /// Whether the walk waits for the listing of a directory.
    pub open spec fn awaits_listing(self) -> bool {
        self.next() matches Some(TaskView::List { .. })
    }

    /// Whether the walk waits for the bytes of a file.
    pub open spec fn awaits_content(self) -> bool {
        self.next() matches Some(TaskView::Read { .. })
    }

    /// The walk without the task that came next.
    pub open spec fn advanced(self) -> WalkerView {
        WalkerView { tasks: self.tasks.drop_last(), ..self }
    }

    /// The walk after the answer to its request for a listing: `None` for a
    /// directory that cannot be listed. An answer that was not asked for
    /// changes nothing.
    pub open spec fn listed(self, listing: Option<Seq<EntryView>>) -> WalkerView {
        if self.awaits_listing() {
            match listing {
                Some(entries) => WalkerView {
                    tasks: stacked(self.tasks.drop_last(), entries, self.reads),
                    ..self
                },
                None => self.advanced(),
            }
        } else {
            self
        }
    }

    /// The number of audio entries that an answer to the request for a listing
    /// shows.
    pub open spec fn listed_matches(self, listing: Option<Seq<EntryView>>) -> nat {
        match listing {
            Some(entries) if self.awaits_listing() => audio_entries(entries),
            _ => 0,
        }
    }

    /// The walk after the answer to its request for a file's bytes. An answer
    /// that was not asked for changes nothing.
    pub open spec fn read(self) -> WalkerView {
        if self.awaits_content() {
            self.advanced()
        } else {
            self
        }
    }

    /// The file that the answer to the request for a file's bytes gives:
    /// `None` for `content` stands for a file that cannot be opened, which
    /// gives none.
    pub open spec fn file_read(self, content: Option<Seq<u8>>) -> Option<AudioFileView> {
        match (self.next(), content) {
            (Some(TaskView::Read { name, path }), Some(bytes)) => Some(
                AudioFileView { name, path, data: prefix_of(bytes) },
            ),
            _ => None,
        }
    }
}

impl View for Walker {
    type V = WalkerView;

    closed spec fn view(&self) -> WalkerView {
        WalkerView { tasks: self.tasks.deep_view(), reads: self.reads }
    }
}

impl Walker {
    /// A walk of the tree under the directory `root`. With `reads` the walk
    /// asks for the bytes of each audio file; without it no file is opened.
    pub fn new(root: String, reads: bool) -> (walker: Walker)
        ensures
            walker@ == WalkerView::start(root@, reads),
    {
        let mut tasks: Vec<Task> = Vec::new();
        tasks.push(Task::List { path: root });
        let walker = Walker { tasks, reads };
        assert(walker@.tasks =~= WalkerView::start(root@, reads).tasks);
        walker
    }

    /// The task that comes next; `None` when the walk is over.
    pub fn next_task(&self) -> (task: Option<&Task>)
        ensures
            task.deep_view() == self@.next(),
    {
        let count: usize = self.tasks.len();
        if count == 0 {
            None
        } else {
            Some(&self.tasks[count - 1])
        }
    }

    /// Whether nothing is left to ask for.
    pub fn is_done(&self) -> (done: bool)
        ensures
            done == (self@.next() is None),
    {
        self.tasks.len() == 0
    }

    /// Takes the answer to the request for a listing, and returns the number
    /// of audio entries in it.
    pub fn listed(&mut self, listing: Option<Vec<DirEntry>>) -> (matches: usize)
        ensures
            final(self)@ == old(self)@.listed(listing.deep_view()),
            matches == old(self)@.listed_matches(listing.deep_view()),
    {
        match self.next_task() {
            Some(Task::List { .. }) => {},
            _ => {
                return 0;
            },
        }
        self.tasks.pop();
        let ghost below = self.tasks.deep_view();
        assert(below =~= old(self)@.tasks.drop_last());
        let mut matches: usize = 0;
        if let Some(mut entries) = listing {
            let ghost all = entries.deep_view();
            assert(all.len() == entries.len());
            while entries.len() > 0
                invariant
                    entries.deep_view() == all.take(entries.len() as int),
                    entries.len() <= all.len() <= usize::MAX,
                    self.reads == old(self).reads,
                    self.tasks.deep_view() == stacked(
                        below,
                        all.skip(entries.len() as int),
                        self.reads,
                    ),
                    matches == audio_entries(all.skip(entries.len() as int)),
                    matches <= all.len() - entries.len(),
                decreases entries.len(),
            {
                let ghost before = entries.deep_view();
                let ghost done = all.skip(entries.len() as int);
                let entry = entries.pop().unwrap();
                proof {
                    // The entry taken now stands before those that are done.
                    assert(entry@ == before[before.len() - 1]);
                    assert(all.skip(entries.len() as int).drop_first() =~= done);
                }
                match entry.kind {
                    EntryKind::Directory => {
                        if !should_skip_dir(entry.name.as_str()) {
                            self.tasks.push(Task::List { path: entry.path });
                        }
                    },
                    EntryKind::File => {
                        if is_audio_file(entry.name.as_str()) {
                            matches += 1;
                            if self.reads {
                                self.tasks.push(Task::Read { name: entry.name, path: entry.path });
                            }
                        }
                    },
                    EntryKind::Other => {},
                }
            }
            assert(all.skip(0) =~= all);
        }
        matches
    }

    /// Takes the answer to the request for a file's bytes, and returns the
    /// file if it could be opened.
    pub fn read(&mut self, content: Option<Vec<u8>>) -> (file: Option<AudioFile>)
        ensures
            final(self)@ == old(self)@.read(),
            file.deep_view() == old(self)@.file_read(content.deep_view()),
    {
        match self.next_task() {
            Some(Task::Read { .. }) => {},
            _ => {
                return None;
            },
        }
        let task = self.tasks.pop().unwrap();
        assert(self.tasks.deep_view() =~= old(self)@.tasks.drop_last());
        match (task, content) {
            (Task::Read { name, path }, Some(bytes)) => {
                assert(content.deep_view() == Some(bytes@));
                Some(AudioFile::new(name, path, bytes))
            },
            _ => None,
        }
    }
}

} // verus!
