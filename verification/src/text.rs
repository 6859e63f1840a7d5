//! Characters and character sequences.

use vstd::prelude::*;

verus! {

/// The lower-case form of an ASCII capital letter; any other character is
/// left as it is.
pub open spec fn ascii_lower(c: char) -> char {
    if 'A' <= c && c <= 'Z' {
        ((c as u8) + 32) as char
    } else {
        c
    }
}

/// A sequence with every ASCII capital letter replaced by its lower-case form.
pub open spec fn ascii_lowercase(s: Seq<char>) -> Seq<char> {
    Seq::new(s.len(), |i: int| ascii_lower(s[i]))
}

/// Lower-cases one character.
pub fn to_ascii_lower(c: char) -> (lower: char)
    ensures
        lower == ascii_lower(c),
{
    if 'A' <= c && c <= 'Z' {
        ((c as u8) + 32) as char
    } else {
        c
    }
}

/// The characters of a string, in order.
pub fn chars_of(s: &str) -> (chars: Vec<char>)
    ensures
        chars@ == s@,
{
    let mut chars: Vec<char> = Vec::new();
    let iter = s.chars();
    for c in it: iter
        invariant
            it.seq() == s@,
            chars@ == it.seq().take(it.index()),
    {
        chars.push(c);
    }
    chars
}

/// `name` ends with `suffix`, where an ASCII capital letter and its lower-case
/// form count as the same character.
pub open spec fn ends_with_ignoring_case(name: Seq<char>, suffix: Seq<char>) -> bool {
    &&& suffix.len() <= name.len()
    &&& ascii_lowercase(name.subrange(name.len() - suffix.len(), name.len() as int))
        == ascii_lowercase(suffix)
}

/// Whether two character sequences are the same.
pub fn same_chars(a: &Vec<char>, b: &Vec<char>) -> (same: bool)
    ensures
        same == (a@ == b@),
{
    if a.len() != b.len() {
        return false;
    }
    let mut i: usize = 0;
    while i < a.len()
        invariant
            a.len() == b.len(),
            i <= a.len(),
            a@.take(i as int) == b@.take(i as int),
        decreases a.len() - i,
    {
        if a[i] != b[i] {
            return false;
        }
        i += 1;
    }
    assert(a@.take(a.len() as int) == a@);
    assert(b@.take(b.len() as int) == b@);
    true
}

/// Whether `name` ends with `suffix`, ignoring the case of ASCII letters.
pub fn ends_with_ignore_case(name: &Vec<char>, suffix: &Vec<char>) -> (ends: bool)
    ensures
        ends == ends_with_ignoring_case(name@, suffix@),
{
    if suffix.len() > name.len() {
        return false;
    }
    let start: usize = name.len() - suffix.len();
    let ghost tail = name@.subrange(start as int, name.len() as int);
    let mut i: usize = 0;
    while i < suffix.len()
        invariant
            start + suffix.len() == name.len(),
            tail == name@.subrange(start as int, name.len() as int),
            i <= suffix.len(),
            forall|j: int| 0 <= j < i ==> ascii_lower(tail[j]) == ascii_lower(suffix@[j]),
        decreases suffix.len() - i,
    {
        if to_ascii_lower(name[start + i]) != to_ascii_lower(suffix[i]) {
            assert(ascii_lowercase(tail)[i as int] != ascii_lowercase(suffix@)[i as int]);
            return false;
        }
        i += 1;
    }
    assert(ascii_lowercase(tail) =~= ascii_lowercase(suffix@));
    true
}

} // verus!
