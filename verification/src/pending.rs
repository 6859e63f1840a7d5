//! The files that the program was asked to open when it was started.

use crate::classify::{is_audio_file, is_audio_name};
use vstd::prelude::*;

verus! {

/// The arguments of the program that name audio files: all but the first,
/// which is the program itself, in their order.
pub open spec fn audio_arguments(args: Seq<Seq<char>>) -> Seq<Seq<char>> {
    if args.len() == 0 {
        Seq::empty()
    } else {
        args.drop_first().filter(|arg: Seq<char>| is_audio_name(arg))
    }
}

/// Picks from the arguments of the program those that name audio files.
pub fn files_from_arguments(args: &Vec<String>) -> (files: Vec<String>)
    ensures
        files.deep_view() == audio_arguments(args.deep_view()),
{
    let mut files: Vec<String> = Vec::new();
    if args.len() == 0 {
        return files;
    }
    let ghost all = args.deep_view();
    let ghost audio = |arg: Seq<char>| is_audio_name(arg);
    let mut i: usize = 1;
    proof {
        reveal(Seq::filter);
    }
    while i < args.len()
        invariant
            1 <= i <= args.len(),
            all == args.deep_view(),
            audio == |arg: Seq<char>| is_audio_name(arg),
            files.deep_view() == all.subrange(1, i as int).filter(audio),
        decreases args.len() - i,
    {
        proof {
            reveal(Seq::filter);
            assert(all.subrange(1, i + 1).drop_last() =~= all.subrange(1, i as int));
        }
        if is_audio_file(args[i].as_str()) {
            files.push(args[i].clone());
        }
        i += 1;
    }
    files
}

/// The paths that wait to be opened, in the order in which they came.
#[derive(Debug)]
pub struct PendingFiles {
    paths: Vec<String>,
}

impl View for PendingFiles {
    type V = Seq<Seq<char>>;

    closed spec fn view(&self) -> Seq<Seq<char>> {
        self.paths.deep_view()
    }
}

impl PendingFiles {
    /// No path waits.
    pub fn new() -> (pending: PendingFiles)
        ensures
            pending@ == Seq::<Seq<char>>::empty(),
    {
        let pending = PendingFiles { paths: Vec::new() };
        pending
    }

    /// Puts `paths` behind those that wait already.
    pub fn enqueue(&mut self, paths: Vec<String>)
        ensures
            final(self)@ == old(self)@ + paths.deep_view(),
    {
        let mut paths = paths;
        self.paths.append(&mut paths);
    }

    /// The number of paths that wait.
    pub fn len(&self) -> (count: usize)
        ensures
            count == self@.len(),
    {
        self.paths.len()
    }

    /// Whether no path waits.
    pub fn is_empty(&self) -> (empty: bool)
        ensures
            empty == (self@.len() == 0),
    {
        self.paths.len() == 0
    }

    /// Hands out the paths that wait, in their order, and keeps none.
    pub fn drain(&mut self) -> (paths: Vec<String>)
        ensures
            paths.deep_view() == old(self)@,
            final(self)@ == Seq::<Seq<char>>::empty(),
    {
        let mut paths: Vec<String> = Vec::new();
        paths.append(&mut self.paths);
        paths
    }
}

} // verus!
