//! The scan of a directory tree for audio files, taken one answer at a time.
//!
//! A `Scanner` reads nothing and reports nothing itself. It says what it needs
//! next: to know whether the root exists, the listing of a directory, the
//! leading bytes of a file, or a progress event handed to the observer. The
//! caller does that and gives the answer back. A scan first counts the audio
//! files without opening any, then reads them, and tells its progress on the
//! way.

use crate::audio_file::{AudioFile, AudioFileView, PREFIX_LIMIT};
use crate::entry::{DirEntry, EntryView};
use crate::progress::{
    complete_report, counting_report, reports_after, scanning_report, should_report, Phase,
    ProgressView, ScanProgress,
};
use crate::walker::{Task, TaskView, Walker, WalkerView};
use vstd::prelude::*;

verus! {

/// Where a scan stands.
#[derive(Clone, Copy, Debug, PartialEq, Eq)]
pub enum Stage {
    /// Nothing is known of the root yet.
    Start,
    /// The audio files are being counted.
    Counting,
    /// The audio files are being read.
    Scanning,
    /// The scan is over and has its result.
    Complete,
    /// The scan is over: its root does not exist.
    NotFound,
}

/// Why a scan gave no result.
#[derive(Clone, Copy, Debug, PartialEq, Eq)]
pub enum ScanError {
    /// The root of the scan does not exist.
    NotFound,
}

/// What a scan needs next.
#[derive(Debug, PartialEq, Eq)]
pub enum Request {
    /// To know whether anything exists at `path`.
    CheckRoot { path: String },
    /// The entries of the directory at `path`.
    ListDir { path: String },
    /// The first bytes of the file at `path`, no more than `limit` of them.
    ReadPrefix { path: String, limit: usize },
    /// This event handed to the observer.
    Report(ScanProgress),
    /// Nothing: the scan is over.
    Done,
}

/// What a `Request` stands for.
pub enum RequestView {
    /// To know whether anything exists at `path`.
    CheckRoot { path: Seq<char> },
    /// The entries of the directory at `path`.
    ListDir { path: Seq<char> },
    /// The first bytes of the file at `path`, no more than `limit` of them.
    ReadPrefix { path: Seq<char>, limit: nat },
    /// This event handed to the observer.
    Report(ProgressView),
    /// Nothing: the scan is over.
    Done,
}

impl View for Request {
    type V = RequestView;

    open spec fn view(&self) -> RequestView {
        match self {
            Request::CheckRoot { path } => RequestView::CheckRoot { path: path@ },
            Request::ListDir { path } => RequestView::ListDir { path: path@ },
            Request::ReadPrefix { path, limit } => RequestView::ReadPrefix {
                path: path@,
                limit: *limit as nat,
            },
            Request::Report(progress) => RequestView::Report(progress@),
            Request::Done => RequestView::Done,
        }
    }
}

/// The answer to a request.
#[derive(Debug, PartialEq, Eq)]
pub enum Response {
    /// Whether the root exists.
    RootChecked(bool),
    /// The entries of the directory, in the order of its listing; `None` for
    /// a directory that cannot be listed.
    Listed(Option<Vec<DirEntry>>),
    /// The first bytes of the file; `None` for a file that cannot be opened.
    Read(Option<Vec<u8>>),
    /// The event went to the observer, or was lost on the way.
    Reported,
}

/// What a `Response` stands for.
pub enum ResponseView {
    /// Whether the root exists.
    RootChecked(bool),
    /// The entries of the directory, in the order of its listing; `None` for
    /// a directory that cannot be listed.
    Listed(Option<Seq<EntryView>>),
    /// The first bytes of the file; `None` for a file that cannot be opened.
    Read(Option<Seq<u8>>),
    /// The event went to the observer, or was lost on the way.
    Reported,
}

impl View for Response {
    type V = ResponseView;

    open spec fn view(&self) -> ResponseView {
        match self {
            Response::RootChecked(exists) => ResponseView::RootChecked(*exists),
            Response::Listed(listing) => ResponseView::Listed(listing.deep_view()),
            Response::Read(content) => ResponseView::Read(content.deep_view()),
            Response::Reported => ResponseView::Reported,
        }
    }
}

/// The request that a task of the walk stands for.
pub open spec fn request_for(task: TaskView) -> RequestView {
    match task {
        TaskView::List { path } => RequestView::ListDir { path },
        TaskView::Read { name, path } => RequestView::ReadPrefix {
            path,
            limit: PREFIX_LIMIT as nat,
        },
    }
}

/// A count that stops at the largest number the machine holds.
pub open spec fn saturated(count: nat) -> nat {
    if count <= usize::MAX {
        count
    } else {
        usize::MAX as nat
    }
}

/// A scan in progress.
#[derive(Debug)]
pub struct Scanner {
    stage: Stage,
    root: String,
    walker: Walker,
    total: usize,
    files: Vec<AudioFile>,
    report: Option<ScanProgress>,
}

/// What a `Scanner` stands for.
pub struct ScanState {
    /// Where the scan stands.
    pub stage: Stage,
    /// The path of the directory that is scanned.
    pub root: Seq<char>,
    /// The walk of the tree that is under way.
    pub walker: WalkerView,
    /// The number of audio entries counted so far.
    pub total: nat,
    /// The files read so far, in the order in which the walk met them.
    pub files: Seq<AudioFileView>,
    /// The event about the file read last, while it waits to be reported.
    pub report: Option<ProgressView>,
}

impl ScanState {
    /// The scan of `root` before anything is known.
    pub open spec fn initial(root: Seq<char>) -> ScanState {
        ScanState {
            stage: Stage::Start,
            root,
            walker: WalkerView::start(root, false),
            total: 0,
            files: Seq::empty(),
            report: None,
        }
    }

    /// What the scan needs next.
    pub open spec fn request(self) -> RequestView {
        match self.stage {
            Stage::Start => RequestView::CheckRoot { path: self.root },
            Stage::Counting => match self.walker.next() {
                Some(task) => request_for(task),
                None => RequestView::Report(counting_report(self.total)),
            },
            Stage::Scanning => match self.report {
                Some(progress) => RequestView::Report(progress),
                None => match self.walker.next() {
                    Some(task) => request_for(task),
                    None => RequestView::Report(complete_report(self.total, self.files.len())),
                },
            },
            Stage::Complete | Stage::NotFound => RequestView::Done,
        }
    }

    /// The scan after an answer. An answer that was not asked for changes
    /// nothing.
    pub open spec fn respond(self, response: ResponseView) -> ScanState {
        match self.stage {
            Stage::Start => match response {
                ResponseView::RootChecked(true) => ScanState { stage: Stage::Counting, ..self },
                ResponseView::RootChecked(false) => ScanState { stage: Stage::NotFound, ..self },
                _ => self,
            },
            Stage::Counting => match response {
                ResponseView::Listed(listing) => ScanState {
                    walker: self.walker.listed(listing),
                    total: saturated(self.total + self.walker.listed_matches(listing)),
                    ..self
                },
                ResponseView::Read(content) => ScanState { walker: self.walker.read(), ..self },
                ResponseView::Reported => if self.walker.next() is None {
                    ScanState {
                        stage: Stage::Scanning,
                        walker: WalkerView::start(self.root, true),
                        ..self
                    }
                } else {
                    self
                },
                ResponseView::RootChecked(_) => self,
            },
            Stage::Scanning => match self.report {
                Some(_) => match response {
                    ResponseView::Reported => ScanState { report: None, ..self },
                    _ => self,
                },
                None => match response {
                    ResponseView::Listed(listing) => ScanState {
                        walker: self.walker.listed(listing),
                        ..self
                    },
                    ResponseView::Read(content) => self.took(self.walker.file_read(content)),
                    ResponseView::Reported => if self.walker.next() is None {
                        ScanState { stage: Stage::Complete, ..self }
                    } else {
                        self
                    },
                    ResponseView::RootChecked(_) => self,
                },
            },
            Stage::Complete | Stage::NotFound => self,
        }
    }

    /// The scan after the walk gave the answer about a file: the file joins
    /// those read, and a progress event waits if one is due after it.
    pub open spec fn took(self, file: Option<AudioFileView>) -> ScanState {
        match file {
            Some(file) => {
                let files = self.files.push(file);
                ScanState {
                    walker: self.walker.read(),
                    files,
                    report: if reports_after(self.total, files.len()) {
                        Some(scanning_report(self.total, files.len(), file.name))
                    } else {
                        None
                    },
                    ..self
                }
            },
            None => ScanState { walker: self.walker.read(), ..self },
        }
    }

    /// What the scan gave: the files read, or the reason why there are none;
    /// `None` while the scan is not over.
    pub open spec fn outcome(self) -> Option<Result<Seq<AudioFileView>, ScanError>> {
        match self.stage {
            Stage::Complete => Some(Ok(self.files)),
            Stage::NotFound => Some(Err(ScanError::NotFound)),
            _ => None,
        }
    }

    /// What holds of every scan, whatever the answers were: nothing is read
    /// before the count is over, the count opens no file, and an event that
    /// waits tells of the file read last.
    pub open spec fn wf(self) -> bool {
        &&& self.total <= usize::MAX
        &&& match self.stage {
            Stage::Start | Stage::NotFound => {
                &&& self.total == 0
                &&& self.files.len() == 0
                &&& self.report is None
                &&& self.walker == WalkerView::start(self.root, false)
            },
            Stage::Counting => {
                &&& self.files.len() == 0
                &&& self.report is None
                &&& !self.walker.reads
            },
            Stage::Scanning => {
                &&& self.walker.reads
                &&& self.report matches Some(progress) ==> {
                    &&& self.files.len() > 0
                    &&& progress == scanning_report(
                        self.total,
                        self.files.len(),
                        self.files.last().name,
                    )
                }
            },
            Stage::Complete => {
                &&& self.report is None
                &&& self.walker.next() is None
            },
        }
    }
}

/// The position of a stage in the order in which a scan goes through them.
pub open spec fn stage_rank(stage: Stage) -> nat {
    match stage {
        Stage::Start => 0,
        Stage::Counting => 1,
        Stage::Scanning => 2,
        Stage::Complete => 3,
        Stage::NotFound => 3,
    }
}

/// A scan starts well-formed.
pub proof fn lemma_initial_scan_is_wf(root: Seq<char>)
    ensures
        ScanState::initial(root).wf(),
{
}

/// A scan stays well-formed, whatever it is answered.
pub proof fn lemma_respond_keeps_wf(state: ScanState, response: ResponseView)
    requires
        state.wf(),
    ensures
        state.respond(response).wf(),
{
}

/// A scan only moves forward, whatever it is answered: its stage never goes
/// back, the files it has read stay and at most one joins them, and the count
/// changes no more once the reading has begun.
pub proof fn lemma_respond_moves_forward(state: ScanState, response: ResponseView)
    ensures
        stage_rank(state.stage) <= stage_rank(state.respond(response).stage),
        state.files.len() <= state.respond(response).files.len() <= state.files.len() + 1,
        state.respond(response).files.take(state.files.len() as int) == state.files,
        stage_rank(state.stage) >= 2 ==> state.respond(response).total == state.total,
        state.respond(response).root == state.root,
{
}

/// An event that a well-formed scan hands to the observer tells where the
/// scan stands: its count and the number of files read. While the scan counts,
/// the event is that of the count, with no file read. While it reads, the
/// event is that of the file read last, or else that of the end.
pub proof fn lemma_report_tells_state(state: ScanState)
    requires
        state.wf(),
        state.request() is Report,
    ensures
        state.request()->Report_0.total == state.total,
        state.request()->Report_0.processed == state.files.len(),
        state.stage == Stage::Counting ==> state.request()->Report_0 == counting_report(
            state.total,
        ),
        state.stage == Stage::Scanning && state.report is Some ==> state.files.len() > 0
            && state.request()->Report_0 == scanning_report(
            state.total,
            state.files.len(),
            state.files.last().name,
        ),
        state.stage == Stage::Scanning && state.report is None ==> state.request()->Report_0
            == complete_report(state.total, state.files.len()),
{
}

impl View for Scanner {
    type V = ScanState;

    closed spec fn view(&self) -> ScanState {
        ScanState {
            stage: self.stage,
            root: self.root@,
            walker: self.walker@,
            total: self.total as nat,
            files: self.files.deep_view(),
            report: match self.report {
                Some(progress) => Some(progress@),
                None => None,
            },
        }
    }
}

fn request_of(task: &Task) -> (request: Request)
    ensures
        request@ == request_for(task@),
{
    match task {
        Task::List { path } => Request::ListDir { path: path.clone() },
        Task::Read { name, path } => Request::ReadPrefix { path: path.clone(), limit: PREFIX_LIMIT },
    }
}

impl Scanner {
    /// A scan of the directory `root`, before anything is known.
    pub fn new(root: String) -> (scanner: Scanner)
        ensures
            scanner@ == ScanState::initial(root@),
            scanner@.wf(),
    {
        let walker = Walker::new(root.clone(), false);
        let scanner = Scanner {
            stage: Stage::Start,
            root,
            walker,
            total: 0,
            files: Vec::new(),
            report: None,
        };
        assert(scanner.files.deep_view() =~= Seq::<AudioFileView>::empty());
        scanner
    }

    /// What the scan needs next.
    pub fn request(&self) -> (request: Request)
        ensures
            request@ == self@.request(),
    {
        match self.stage {
            Stage::Start => Request::CheckRoot { path: self.root.clone() },
            Stage::Counting => match self.walker.next_task() {
                Some(task) => request_of(task),
                None => Request::Report(
                    ScanProgress {
                        phase: Phase::Counting,
                        total: self.total,
                        processed: 0,
                        current_file: String::new(),
                    },
                ),
            },
            Stage::Scanning => match &self.report {
                Some(progress) => Request::Report(progress.clone()),
                None => match self.walker.next_task() {
                    Some(task) => request_of(task),
                    None => Request::Report(
                        ScanProgress {
                            phase: Phase::Complete,
                            total: self.total,
                            processed: self.files.len(),
                            current_file: String::new(),
                        },
                    ),
                },
            },
            Stage::Complete | Stage::NotFound => Request::Done,
        }
    }

    /// Takes an answer.
    pub fn respond(&mut self, response: Response)
        ensures
            final(self)@ == old(self)@.respond(response@),
            old(self)@.wf() ==> final(self)@.wf(),
    {
        proof {
            if old(self)@.wf() {
                lemma_respond_keeps_wf(old(self)@, response@);
            }
        }
        match self.stage {
            Stage::Start => match response {
                Response::RootChecked(exists) => {
                    self.stage = if exists {
                        Stage::Counting
                    } else {
                        Stage::NotFound
                    };
                },
                _ => {},
            },
            Stage::Counting => match response {
                Response::Listed(listing) => {
                    let matches: usize = self.walker.listed(listing);
                    self.total = self.total.saturating_add(matches);
                },
                Response::Read(content) => {
                    let _ = self.walker.read(content);
                },
                Response::Reported => {
                    if self.walker.is_done() {
                        self.walker = Walker::new(self.root.clone(), true);
                        self.stage = Stage::Scanning;
                    }
                },
                Response::RootChecked(_) => {},
            },
            Stage::Scanning => if self.report.is_some() {
                match response {
                    Response::Reported => {
                        self.report = None;
                    },
                    _ => {},
                }
            } else {
                match response {
                    Response::Listed(listing) => {
                        let _ = self.walker.listed(listing);
                    },
                    Response::Read(content) => {
                        let ghost before = self.files.deep_view();
                        match self.walker.read(content) {
                            Some(file) => {
                                let name = file.name().clone();
                                self.files.push(file);
                                assert(self.files.deep_view() =~= before.push(file@));
                                let processed: usize = self.files.len();
                                if should_report(self.total, processed) {
                                    self.report = Some(
                                        ScanProgress {
                                            phase: Phase::Scanning,
                                            total: self.total,
                                            processed,
                                            current_file: name,
                                        },
                                    );
                                }
                            },
                            None => {},
                        }
                    },
                    Response::Reported => {
                        if self.walker.is_done() {
                            self.stage = Stage::Complete;
                        }
                    },
                    Response::RootChecked(_) => {},
                }
            },
            Stage::Complete | Stage::NotFound => {},
        }
    }

    /// Where the scan stands.
    pub fn stage(&self) -> (stage: Stage)
        ensures
            stage == self@.stage,
    {
        self.stage
    }

    /// The number of audio files counted.
    pub fn total(&self) -> (total: usize)
        ensures
            total == self@.total,
    {
        self.total
    }

    /// The number of files read so far.
    pub fn processed(&self) -> (processed: usize)
        ensures
            processed == self@.files.len(),
    {
        self.files.len()
    }

    /// Ends the scan and gives what it found: the files read, or the reason
    /// why there are none; `None` while the scan is not over.
    pub fn into_outcome(self) -> (outcome: Option<Result<Vec<AudioFile>, ScanError>>)
        ensures
            match outcome {
                Some(Ok(files)) => self@.outcome() == Some(
                    Ok::<Seq<AudioFileView>, ScanError>(files.deep_view()),
                ),
                Some(Err(error)) => self@.outcome() == Some(
                    Err::<Seq<AudioFileView>, ScanError>(error),
                ),
                None => self@.outcome() is None,
            },
    {
        match self.stage {
            Stage::Complete => Some(Ok(self.files)),
            Stage::NotFound => Some(Err(ScanError::NotFound)),
            _ => None,
        }
    }
}

} // verus!
