//! Which names denote audio files, and which directories a walk leaves out.

use crate::text::{
    ascii_lower, ascii_lowercase, chars_of, ends_with_ignore_case, ends_with_ignoring_case,
    same_chars,
};
use vstd::prelude::*;

verus! {

/// The extensions of audio files, in lower case and without the dot.
pub open spec fn audio_extensions() -> Seq<Seq<char>> {
    seq!["mp3"@, "wav"@, "flac"@, "ogg"@, "m4a"@, "aac"@, "wma"@, "opus"@]
}

/// `name` ends with a dot followed by `ext`, whatever the case of its letters.
pub open spec fn has_extension(name: Seq<char>, ext: Seq<char>) -> bool {
    ends_with_ignoring_case(name, seq!['.'] + ext)
}

/// `name` ends with a dot followed by one of the audio extensions, whatever
/// the case of its letters.
pub open spec fn is_audio_name(name: Seq<char>) -> bool {
    exists|i: int|
        0 <= i < audio_extensions().len() && has_extension(name, #[trigger] audio_extensions()[i])
}

/// What follows the last dot of `name`; `None` where `name` has no dot.
pub open spec fn extension_of(name: Seq<char>) -> Option<Seq<char>> {
    match name.index_of_last('.') {
        Some(dot) => Some(name.subrange(dot + 1, name.len() as int)),
        None => None,
    }
}

/// The names of the directories that a walk does not enter: hidden ones, and
/// two that the platform keeps for itself.
pub open spec fn is_skipped_dir(name: Seq<char>) -> bool {
    ||| (name.len() > 0 && name[0] == '.')
    ||| name == "System Volume Information"@
    ||| name == "$RECYCLE.BIN"@
}

fn name_has_extension(name: &Vec<char>, ext: &str) -> (has: bool)
    ensures
        has == has_extension(name@, ext@),
{
    let mut suffix: Vec<char> = Vec::new();
    suffix.push('.');
    let iter = ext.chars();
    for c in it: iter
        invariant
            it.seq() == ext@,
            suffix@ == seq!['.'] + it.seq().take(it.index()),
    {
        suffix.push(c);
    }
    assert(suffix@ == seq!['.'] + ext@);
    ends_with_ignore_case(name, &suffix)
}

/// Whether a file name, or a path that ends in one, denotes an audio file.
pub fn is_audio_file(path: &str) -> (audio: bool)
    ensures
        audio == is_audio_name(path@),
{
    let name = chars_of(path);
    let audio = name_has_extension(&name, "mp3") || name_has_extension(&name, "wav")
        || name_has_extension(&name, "flac") || name_has_extension(&name, "ogg")
        || name_has_extension(&name, "m4a") || name_has_extension(&name, "aac")
        || name_has_extension(&name, "wma") || name_has_extension(&name, "opus");
    proof {
        let exts = audio_extensions();
        assert(exts[0] == "mp3"@ && exts[1] == "wav"@ && exts[2] == "flac"@ && exts[3] == "ogg"@);
        assert(exts[4] == "m4a"@ && exts[5] == "aac"@ && exts[6] == "wma"@ && exts[7] == "opus"@);
    }
    audio
}

/// Whether a walk leaves out the directory of this name.
pub fn should_skip_dir(name: &str) -> (skip: bool)
    ensures
        skip == is_skipped_dir(name@),
{
    let chars = chars_of(name);
    if chars.len() > 0 && chars[0] == '.' {
        return true;
    }
    same_chars(&chars, &chars_of("System Volume Information")) || same_chars(
        &chars,
        &chars_of("$RECYCLE.BIN"),
    )
}

/// The audio extensions hold no dot and no capital letter.
pub proof fn lemma_audio_extensions_are_plain()
    ensures
        audio_extensions().len() == 8,
        forall|i: int, k: int|
            0 <= i < audio_extensions().len() && 0 <= k < audio_extensions()[i].len() ==> {
                let c = #[trigger] audio_extensions()[i][k];
                c != '.' && ascii_lower(c) == c
            },
{
    reveal_strlit("mp3");
    reveal_strlit("wav");
    reveal_strlit("flac");
    reveal_strlit("ogg");
    reveal_strlit("m4a");
    reveal_strlit("aac");
    reveal_strlit("wma");
    reveal_strlit("opus");
}

/// The case of letters does not matter: two names that differ only in the
/// case of their ASCII letters are both audio names or both not.
pub proof fn lemma_audio_name_ignores_case(a: Seq<char>, b: Seq<char>)
    requires
        ascii_lowercase(a) == ascii_lowercase(b),
    ensures
        is_audio_name(a) == is_audio_name(b),
{
    assert(a.len() == ascii_lowercase(a).len());
    assert forall|ext: Seq<char>| has_extension(a, ext) == has_extension(b, ext) by {
        let suffix = seq!['.'] + ext;
        if suffix.len() <= a.len() {
            let from = a.len() - suffix.len();
            let tail_a = a.subrange(from, a.len() as int);
            let tail_b = b.subrange(from, b.len() as int);
            assert forall|k: int| 0 <= k < suffix.len() implies ascii_lowercase(tail_a)[k]
                == ascii_lowercase(tail_b)[k] by {
                assert(ascii_lowercase(a)[from + k] == ascii_lower(a[from + k]));
            }
            assert(ascii_lowercase(tail_a) =~= ascii_lowercase(tail_b));
        }
    }
}

/// The extension decides, and it has to match exactly: a name is an audio
/// name if and only if it has a dot and what follows its last dot is, in
/// lower case, one of the audio extensions.
pub proof fn lemma_audio_name_by_extension(name: Seq<char>)
    ensures
        is_audio_name(name) <==> (extension_of(name) matches Some(ext)
            && audio_extensions().contains(ascii_lowercase(ext))),
{
    lemma_audio_extensions_are_plain();
    name.index_of_last_ensures('.');
    let exts = audio_extensions();
    let end = name.len() as int;
    if is_audio_name(name) {
        let i = choose|i: int| 0 <= i < exts.len() && has_extension(name, #[trigger] exts[i]);
        let ext = exts[i];
        let suffix = seq!['.'] + ext;
        let dot = end - suffix.len();
        let tail = name.subrange(dot, end);
        assert forall|k: int| 0 <= k < suffix.len() implies ascii_lower(#[trigger] name[dot + k])
            == ascii_lower(suffix[k]) by {
            assert(ascii_lowercase(tail)[k] == ascii_lowercase(suffix)[k]);
        }
        // The dot of the suffix is the last dot of the name.
        assert(ascii_lower(name[dot + 0]) == ascii_lower(suffix[0]));
        assert(name[dot] == '.');
        assert forall|j: int| dot < j < end implies name[j] != '.' by {
            assert(ascii_lower(name[dot + (j - dot)]) == ascii_lower(suffix[j - dot]));
        }
        assert(name.index_of_last('.') == Some(dot));
        // What follows it is the extension, but for the case of its letters.
        let found = name.subrange(dot + 1, end);
        assert(ascii_lowercase(found) =~= ext) by {
            assert forall|k: int| 0 <= k < ext.len() implies ascii_lowercase(found)[k]
                == ext[k] by {
                assert(ascii_lower(name[dot + (k + 1)]) == ascii_lower(suffix[k + 1]));
            }
        }
    }
    if extension_of(name) matches Some(found) && exts.contains(ascii_lowercase(found)) {
        let dot = name.index_of_last('.')->0;
        let found = name.subrange(dot + 1, end);
        let i = choose|i: int| 0 <= i < exts.len() && exts[i] == ascii_lowercase(found);
        let ext = exts[i];
        let suffix = seq!['.'] + ext;
        let tail = name.subrange(end - suffix.len(), end);
        assert(ascii_lowercase(tail) =~= ascii_lowercase(suffix));
        assert(has_extension(name, exts[i]));
    }
}

} // verus!
