//! The progress of a scan, as it is reported to an observer.

use vstd::prelude::*;

verus! {

/// The coarse stage of a scan.
#[derive(Clone, Copy, Debug, PartialEq, Eq)]
pub enum Phase {
    /// The matching files are being counted.
    Counting,
    /// The matching files are being read.
    Scanning,
    /// The scan is over.
    Complete,
}

/// One progress event.
#[derive(Debug, PartialEq, Eq)]
pub struct ScanProgress {
    /// The stage that the scan is in.
    pub phase: Phase,
    /// The number of matching files that the count found.
    pub total: usize,
    /// The number of files read so far.
    pub processed: usize,
    /// The name of the file read last, or nothing.
    pub current_file: String,
}

/// What a `ScanProgress` stands for.
pub struct ProgressView {
    /// The stage that the scan is in.
    pub phase: Phase,
    /// The number of matching files that the count found.
    pub total: nat,
    /// The number of files read so far.
    pub processed: nat,
    /// The name of the file read last, or nothing.
    pub current_file: Seq<char>,
}

impl View for ScanProgress {
    type V = ProgressView;

    open spec fn view(&self) -> ProgressView {
        ProgressView {
            phase: self.phase,
            total: self.total as nat,
            processed: self.processed as nat,
            current_file: self.current_file@,
        }
    }
}

impl Clone for ScanProgress {
    fn clone(&self) -> (copy: Self)
        ensures
            copy@ == self@,
    {
        ScanProgress {
            phase: self.phase,
            total: self.total,
            processed: self.processed,
            current_file: self.current_file.clone(),
        }
    }
}

/// The position of a phase in the order in which a scan goes through them.
pub open spec fn phase_rank(phase: Phase) -> nat {
    match phase {
        Phase::Counting => 0,
        Phase::Scanning => 1,
        Phase::Complete => 2,
    }
}

/// The event that ends the count: `total` matching files, none read yet.
pub open spec fn counting_report(total: nat) -> ProgressView {
    ProgressView { phase: Phase::Counting, total, processed: 0, current_file: Seq::empty() }
}

/// The event after the file `name` was read as number `processed`.
pub open spec fn scanning_report(total: nat, processed: nat, name: Seq<char>) -> ProgressView {
    ProgressView { phase: Phase::Scanning, total, processed, current_file: name }
}

/// The event that ends the scan, after `processed` files were read.
pub open spec fn complete_report(total: nat, processed: nat) -> ProgressView {
    ProgressView { phase: Phase::Complete, total, processed, current_file: Seq::empty() }
}

/// The number of files after which progress is reported again.
pub const BATCH_SIZE: usize = 10;

/// Whether an event follows the file read as number `processed`: after every
/// `BATCH_SIZE` files, and after the one that reaches the count.
pub open spec fn reports_after(total: nat, processed: nat) -> bool {
    processed % (BATCH_SIZE as nat) == 0 || processed == total
}

/// Whether to report the progress after the file read as number `processed`.
pub fn should_report(total: usize, processed: usize) -> (report: bool)
    ensures
        report == reports_after(total as nat, processed as nat),
{
    processed % BATCH_SIZE == 0 || processed == total
}

} // verus!
