use audio_scan::{
    AudioFile, DirEntry, EntryKind, Phase, Request, Response, ScanError, ScanProgress, Scanner,
    Stage,
};
use std::collections::HashMap;

struct Disk {
    present: Vec<String>,
    listings: HashMap<String, Vec<DirEntry>>,
    contents: HashMap<String, Vec<u8>>,
}

impl Disk {
    fn new() -> Disk {
        Disk { present: Vec::new(), listings: HashMap::new(), contents: HashMap::new() }
    }

    fn dir(&mut self, path: &str, entries: Vec<DirEntry>) {
        self.present.push(path.to_string());
        self.listings.insert(path.to_string(), entries);
    }

    fn file(&mut self, path: &str, content: Vec<u8>) {
        self.present.push(path.to_string());
        self.contents.insert(path.to_string(), content);
    }
}

struct Run {
    outcome: Option<Result<Vec<AudioFile>, ScanError>>,
    events: Vec<ScanProgress>,
    requests: Vec<Request>,
}

fn run(disk: &Disk, root: &str) -> Run {
    let mut scanner = Scanner::new(root.to_string());
    let mut events: Vec<ScanProgress> = Vec::new();
    let mut requests: Vec<Request> = Vec::new();
    let mut steps: usize = 0;
    loop {
        steps += 1;
        assert!(steps < 100000);
        let request = scanner.request();
        let response = match &request {
            Request::CheckRoot { path } => Response::RootChecked(disk.present.contains(path)),
            Request::ListDir { path } => Response::Listed(disk.listings.get(path).cloned()),
            Request::ReadPrefix { path, limit } => Response::Read(
                disk.contents.get(path).map(|content| content[..content.len().min(*limit)].to_vec()),
            ),
            Request::Report(progress) => {
                events.push(progress.clone());
                Response::Reported
            }
            Request::Done => break,
        };
        requests.push(request);
        scanner.respond(response);
    }
    Run { outcome: scanner.into_outcome(), events, requests }
}

fn entry(dir: &str, name: &str, kind: EntryKind) -> DirEntry {
    DirEntry { name: name.to_string(), path: format!("{}/{}", dir, name), kind }
}

fn pattern(len: usize) -> Vec<u8> {
    let mut bytes: Vec<u8> = Vec::with_capacity(len);
    let mut i: usize = 0;
    while i < len {
        bytes.push((i % 253) as u8);
        i += 1;
    }
    bytes
}

fn event(phase: Phase, total: usize, processed: usize, current_file: &str) -> ScanProgress {
    ScanProgress { phase, total, processed, current_file: current_file.to_string() }
}

fn flat_disk(count: usize) -> Disk {
    let mut disk = Disk::new();
    let mut entries: Vec<DirEntry> = Vec::new();
    let mut i: usize = 0;
    while i < count {
        let name = format!("track{:03}.mp3", i);
        disk.file(&format!("root/{}", name), vec![i as u8; 4]);
        entries.push(entry("root", &name, EntryKind::File));
        i += 1;
    }
    disk.dir("root", entries);
    disk
}

fn small_tree() -> Disk {
    let mut disk = Disk::new();
    disk.dir(
        "root",
        vec![
            entry("root", "a.mp3", EntryKind::File),
            entry("root", "b.txt", EntryKind::File),
            entry("root", "sub", EntryKind::Directory),
            entry("root", ".hidden", EntryKind::Directory),
        ],
    );
    disk.file("root/a.mp3", pattern(300000));
    disk.file("root/b.txt", pattern(10));
    disk.dir("root/sub", vec![entry("root/sub", "c.flac", EntryKind::File)]);
    disk.file("root/sub/c.flac", pattern(100));
    disk.dir("root/.hidden", vec![entry("root/.hidden", "d.wav", EntryKind::File)]);
    disk.file("root/.hidden/d.wav", pattern(50));
    disk
}

#[test]
fn small_tree_gives_its_two_audio_files() {
    let done = run(&small_tree(), "root");
    let files = done.outcome.expect("the scan is over").expect("the root exists");
    assert_eq!(files.len(), 2);
    assert_eq!(files[0].name(), "a.mp3");
    assert_eq!(files[0].path(), "root/a.mp3");
    assert_eq!(files[0].data().len(), 262144);
    assert_eq!(files[0].data()[..], pattern(300000)[..262144]);
    assert_eq!(files[1].name(), "c.flac");
    assert_eq!(files[1].path(), "root/sub/c.flac");
    assert_eq!(files[1].data(), &pattern(100));
}

#[test]
fn small_tree_reports_count_last_file_and_end() {
    let done = run(&small_tree(), "root");
    assert_eq!(
        done.events,
        vec![
            event(Phase::Counting, 2, 0, ""),
            event(Phase::Scanning, 2, 2, "c.flac"),
            event(Phase::Complete, 2, 2, ""),
        ]
    );
}

#[test]
fn small_tree_is_asked_for_in_walk_order() {
    let done = run(&small_tree(), "root");
    let list = |path: &str| Request::ListDir { path: path.to_string() };
    let read = |path: &str| Request::ReadPrefix { path: path.to_string(), limit: 262144 };
    assert_eq!(
        done.requests,
        vec![
            Request::CheckRoot { path: "root".to_string() },
            list("root"),
            list("root/sub"),
            Request::Report(event(Phase::Counting, 2, 0, "")),
            list("root"),
            read("root/a.mp3"),
            list("root/sub"),
            read("root/sub/c.flac"),
            Request::Report(event(Phase::Scanning, 2, 2, "c.flac")),
            Request::Report(event(Phase::Complete, 2, 2, "")),
        ]
    );
}

#[test]
fn missing_root_gives_not_found_and_no_event() {
    let done = run(&small_tree(), "elsewhere");
    assert_eq!(done.outcome, Some(Err(ScanError::NotFound)));
    assert!(done.events.is_empty());
    assert_eq!(done.requests, vec![Request::CheckRoot { path: "elsewhere".to_string() }]);
}

#[test]
fn tree_without_audio_gives_nothing_and_two_events() {
    let mut disk = Disk::new();
    disk.dir(
        "root",
        vec![entry("root", "b.txt", EntryKind::File), entry("root", "empty", EntryKind::Directory)],
    );
    disk.file("root/b.txt", pattern(10));
    disk.dir("root/empty", Vec::new());
    let done = run(&disk, "root");
    assert_eq!(done.outcome, Some(Ok(Vec::new())));
    assert_eq!(
        done.events,
        vec![event(Phase::Counting, 0, 0, ""), event(Phase::Complete, 0, 0, "")]
    );
}

#[test]
fn empty_root_gives_nothing_and_two_events() {
    let mut disk = Disk::new();
    disk.dir("root", Vec::new());
    let done = run(&disk, "root");
    assert_eq!(done.outcome, Some(Ok(Vec::new())));
    assert_eq!(
        done.events,
        vec![event(Phase::Counting, 0, 0, ""), event(Phase::Complete, 0, 0, "")]
    );
}

#[test]
fn root_that_is_a_file_gives_nothing() {
    let mut disk = Disk::new();
    disk.file("song.mp3", pattern(10));
    let done = run(&disk, "song.mp3");
    assert_eq!(done.outcome, Some(Ok(Vec::new())));
    assert_eq!(
        done.events,
        vec![event(Phase::Counting, 0, 0, ""), event(Phase::Complete, 0, 0, "")]
    );
}

#[test]
fn hidden_root_is_scanned() {
    let mut disk = Disk::new();
    disk.dir(".music", vec![entry(".music", "a.ogg", EntryKind::File)]);
    disk.file(".music/a.ogg", pattern(5));
    let done = run(&disk, ".music");
    let files = done.outcome.expect("the scan is over").expect("the root exists");
    assert_eq!(files.len(), 1);
    assert_eq!(files[0].name(), "a.ogg");
}

#[test]
fn progress_is_reported_every_ten_files_and_at_the_count() {
    let done = run(&flat_disk(25), "root");
    let files = done.outcome.expect("the scan is over").expect("the root exists");
    assert_eq!(files.len(), 25);
    assert_eq!(
        done.events,
        vec![
            event(Phase::Counting, 25, 0, ""),
            event(Phase::Scanning, 25, 10, "track009.mp3"),
            event(Phase::Scanning, 25, 20, "track019.mp3"),
            event(Phase::Scanning, 25, 25, "track024.mp3"),
            event(Phase::Complete, 25, 25, ""),
        ]
    );
}

#[test]
fn count_that_is_a_multiple_of_ten_is_reported_once() {
    let done = run(&flat_disk(20), "root");
    assert_eq!(
        done.events,
        vec![
            event(Phase::Counting, 20, 0, ""),
            event(Phase::Scanning, 20, 10, "track009.mp3"),
            event(Phase::Scanning, 20, 20, "track019.mp3"),
            event(Phase::Complete, 20, 20, ""),
        ]
    );
}

#[test]
fn single_file_is_reported() {
    let done = run(&flat_disk(1), "root");
    assert_eq!(
        done.events,
        vec![
            event(Phase::Counting, 1, 0, ""),
            event(Phase::Scanning, 1, 1, "track000.mp3"),
            event(Phase::Complete, 1, 1, ""),
        ]
    );
}

#[test]
fn events_keep_their_order_and_bounds() {
    let done = run(&flat_disk(37), "root");
    let files = done.outcome.expect("the scan is over").expect("the root exists");
    let events = done.events;
    assert_eq!(events[0].phase, Phase::Counting);
    assert_eq!(events[0].processed, 0);
    let last = events.len() - 1;
    let mut before: usize = 0;
    let mut i: usize = 1;
    while i < last {
        assert_eq!(events[i].phase, Phase::Scanning);
        assert!(events[i].processed >= before);
        assert!(events[i].processed <= events[i].total);
        before = events[i].processed;
        i += 1;
    }
    assert_eq!(events[last].phase, Phase::Complete);
    assert_eq!(events[last].processed, files.len());
    assert_eq!(events.iter().filter(|e| e.phase == Phase::Complete).count(), 1);
}

#[test]
fn file_that_cannot_be_opened_is_counted_and_left_out() {
    let mut disk = Disk::new();
    disk.dir(
        "root",
        vec![entry("root", "locked.mp3", EntryKind::File), entry("root", "open.mp3", EntryKind::File)],
    );
    disk.file("root/open.mp3", pattern(3));
    let done = run(&disk, "root");
    let files = done.outcome.expect("the scan is over").expect("the root exists");
    assert_eq!(files.len(), 1);
    assert_eq!(files[0].name(), "open.mp3");
    assert_eq!(
        done.events,
        vec![event(Phase::Counting, 2, 0, ""), event(Phase::Complete, 2, 1, "")]
    );
}

#[test]
fn directory_that_cannot_be_listed_is_left_out() {
    let mut disk = Disk::new();
    disk.dir(
        "root",
        vec![entry("root", "locked", EntryKind::Directory), entry("root", "a.wav", EntryKind::File)],
    );
    disk.file("root/a.wav", pattern(3));
    let done = run(&disk, "root");
    let files = done.outcome.expect("the scan is over").expect("the root exists");
    assert_eq!(files.len(), 1);
    assert_eq!(files[0].path(), "root/a.wav");
    assert_eq!(
        done.events,
        vec![
            event(Phase::Counting, 1, 0, ""),
            event(Phase::Scanning, 1, 1, "a.wav"),
            event(Phase::Complete, 1, 1, ""),
        ]
    );
}

#[test]
fn empty_audio_file_is_found_with_no_bytes() {
    let mut disk = Disk::new();
    disk.dir("root", vec![entry("root", "silence.opus", EntryKind::File)]);
    disk.file("root/silence.opus", Vec::new());
    let done = run(&disk, "root");
    let files = done.outcome.expect("the scan is over").expect("the root exists");
    assert_eq!(files.len(), 1);
    assert!(files[0].data().is_empty());
}

#[test]
fn scan_that_is_not_over_has_no_outcome() {
    let scanner = Scanner::new("root".to_string());
    assert_eq!(scanner.stage(), Stage::Start);
    assert_eq!(scanner.into_outcome(), None);
    let mut scanner = Scanner::new("root".to_string());
    scanner.respond(Response::RootChecked(true));
    assert_eq!(scanner.stage(), Stage::Counting);
    assert_eq!(scanner.into_outcome(), None);
}

#[test]
fn answer_that_was_not_asked_for_is_ignored() {
    let mut scanner = Scanner::new("root".to_string());
    scanner.respond(Response::Reported);
    scanner.respond(Response::Listed(None));
    scanner.respond(Response::Read(Some(vec![1])));
    assert_eq!(scanner.stage(), Stage::Start);
    assert_eq!(scanner.request(), Request::CheckRoot { path: "root".to_string() });
    scanner.respond(Response::RootChecked(true));
    scanner.respond(Response::RootChecked(false));
    scanner.respond(Response::Reported);
    assert_eq!(scanner.stage(), Stage::Counting);
    assert_eq!(scanner.request(), Request::ListDir { path: "root".to_string() });
}

#[test]
fn scan_that_is_over_asks_for_nothing() {
    let mut scanner = Scanner::new("nowhere".to_string());
    scanner.respond(Response::RootChecked(false));
    assert_eq!(scanner.stage(), Stage::NotFound);
    assert_eq!(scanner.request(), Request::Done);
    scanner.respond(Response::RootChecked(true));
    scanner.respond(Response::Listed(Some(Vec::new())));
    assert_eq!(scanner.stage(), Stage::NotFound);
    assert_eq!(scanner.request(), Request::Done);
}

#[test]
fn count_and_number_read_follow_the_answers() {
    let mut scanner = Scanner::new("root".to_string());
    scanner.respond(Response::RootChecked(true));
    assert_eq!(scanner.total(), 0);
    scanner.respond(Response::Listed(Some(vec![
        entry("root", "a.mp3", EntryKind::File),
        entry("root", "b.mp3", EntryKind::File),
    ])));
    assert_eq!(scanner.total(), 2);
    assert_eq!(scanner.processed(), 0);
    scanner.respond(Response::Reported);
    assert_eq!(scanner.stage(), Stage::Scanning);
    scanner.respond(Response::Listed(Some(vec![entry("root", "a.mp3", EntryKind::File)])));
    scanner.respond(Response::Read(Some(vec![1, 2])));
    assert_eq!(scanner.total(), 2);
    assert_eq!(scanner.processed(), 1);
    assert_eq!(scanner.request(), Request::Report(event(Phase::Complete, 2, 1, "")));
    scanner.respond(Response::Reported);
    assert_eq!(scanner.stage(), Stage::Complete);
}

#[test]
fn tree_that_grew_between_count_and_read_is_read_as_it_is() {
    let mut scanner = Scanner::new("root".to_string());
    scanner.respond(Response::RootChecked(true));
    scanner.respond(Response::Listed(Some(vec![entry("root", "a.mp3", EntryKind::File)])));
    scanner.respond(Response::Reported);
    scanner.respond(Response::Listed(Some(vec![
        entry("root", "a.mp3", EntryKind::File),
        entry("root", "b.mp3", EntryKind::File),
    ])));
    scanner.respond(Response::Read(Some(vec![1])));
    assert_eq!(scanner.request(), Request::Report(event(Phase::Scanning, 1, 1, "a.mp3")));
    scanner.respond(Response::Reported);
    scanner.respond(Response::Read(Some(vec![2])));
    assert_eq!(scanner.request(), Request::Report(event(Phase::Complete, 1, 2, "")));
    scanner.respond(Response::Reported);
    let files = scanner.into_outcome().expect("the scan is over").expect("the root exists");
    assert_eq!(files.len(), 2);
}
