//! A scanner that finds the audio files under a directory, keeps the leading
//! bytes of each, and tells an observer how far it has come.
//!
//! The library touches no file system. A `Scanner` says what it needs next and
//! takes the answer, so the program around it does the reading and the
//! reporting, and what the scan decides is decided here.

pub mod audio_file;
pub mod classify;
pub mod entry;
pub mod model;
pub mod pending;
pub mod progress;
pub mod runs;
pub mod scanner;
pub mod text;
pub mod walker;
pub mod window;

pub use audio_file::{bounded_prefix, AudioFile, PREFIX_LIMIT};
pub use classify::{is_audio_file, should_skip_dir};
pub use entry::{DirEntry, EntryKind};
pub use pending::{files_from_arguments, PendingFiles};
pub use progress::{should_report, Phase, ScanProgress, BATCH_SIZE};
pub use scanner::{Request, Response, ScanError, Scanner, Stage};
pub use walker::{Task, Walker};
pub use window::mini_player_position;
