//! An audio file that a scan has found, with the leading bytes that were read
//! of it.

use vstd::prelude::*;

verus! {

/// The largest number of leading bytes that is kept of a file.
pub const PREFIX_LIMIT: usize = 262144;

/// What is kept of a file's content: all of it where the file is shorter than
/// the limit, and its first `PREFIX_LIMIT` bytes otherwise.
pub open spec fn prefix_of(content: Seq<u8>) -> Seq<u8> {
    if content.len() < PREFIX_LIMIT {
        content
    } else {
        content.subrange(0, PREFIX_LIMIT as int)
    }
}

/// Cuts `bytes` down to the part that is kept.
pub fn bounded_prefix(bytes: Vec<u8>) -> (kept: Vec<u8>)
    ensures
        kept@ == prefix_of(bytes@),
        kept@.len() <= PREFIX_LIMIT,
{
    let mut kept = bytes;
    kept.truncate(PREFIX_LIMIT);
    kept
}

/// One audio file found by a scan.
#[derive(Debug, PartialEq, Eq)]
pub struct AudioFile {
    name: String,
    path: String,
    data: Vec<u8>,
}

/// What an `AudioFile` stands for.
pub struct AudioFileView {
    /// The file's base name.
    pub name: Seq<char>,
    /// The file's full path.
    pub path: Seq<char>,
    /// The leading bytes of the file.
    pub data: Seq<u8>,
}

impl View for AudioFile {
    type V = AudioFileView;

    closed spec fn view(&self) -> AudioFileView {
        AudioFileView { name: self.name@, path: self.path@, data: self.data@ }
    }
}

impl DeepView for AudioFile {
    type V = AudioFileView;

    open spec fn deep_view(&self) -> AudioFileView {
        self@
    }
}

impl Clone for AudioFile {
    fn clone(&self) -> (copy: Self)
        ensures
            copy@ == self@,
    {
        proof {
            use_type_invariant(self);
        }
        AudioFile { name: self.name.clone(), path: self.path.clone(), data: self.data.clone() }
    }
}

impl AudioFile {
    #[verifier::type_invariant]
    spec fn bounded(self) -> bool {
        self.data@.len() <= PREFIX_LIMIT
    }

    /// The file of this name and path whose content starts with `bytes`: of
    /// `bytes` no more than the limit is kept.
    pub fn new(name: String, path: String, bytes: Vec<u8>) -> (file: AudioFile)
        ensures
            file@ == (AudioFileView { name: name@, path: path@, data: prefix_of(bytes@) }),
    {
        AudioFile { name, path, data: bounded_prefix(bytes) }
    }

    /// The file's base name.
    pub fn name(&self) -> (name: &String)
        ensures
            name@ == self@.name,
    {
        &self.name
    }

    /// The file's full path.
    pub fn path(&self) -> (path: &String)
        ensures
            path@ == self@.path,
    {
        &self.path
    }

    /// The leading bytes of the file, never more than `PREFIX_LIMIT` of them.
    pub fn data(&self) -> (data: &Vec<u8>)
        ensures
            data@ == self@.data,
            data@.len() <= PREFIX_LIMIT,
    {
        proof {
            use_type_invariant(self);
        }
        &self.data
    }

    /// Takes the file apart into its name, its path and its leading bytes.
    pub fn into_parts(self) -> (parts: (String, String, Vec<u8>))
        ensures
            parts.0@ == self@.name,
            parts.1@ == self@.path,
            parts.2@ == self@.data,
            parts.2@.len() <= PREFIX_LIMIT,
    {
        proof {
            use_type_invariant(&self);
        }
        (self.name, self.path, self.data)
    }
}

} // verus!
