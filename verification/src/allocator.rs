//! Numbering output files so that a run never reuses an index that an earlier
//! run has left in the directory.

use crate::decimal::{
    all_digits, append_padded, decimal_value, lemma_padded_decimal, padded_decimal, read_digits,
};
use crate::matcher::Matcher;
use crate::pattern::{captured_text, escape, escaped, regex_accepts, regex_capture};
use vstd::prelude::*;
use vstd::string::*;

verus! {

/// Why no index could be allocated.
#[derive(Clone, Copy, Debug, PartialEq, Eq, Structural)]
pub enum AllocationError {
    /// The engine refused the pattern built from the stem and the extension.
    Pattern,
    /// A file already carries the largest index there is.
    Exhausted,
}

/// The pattern that the names of earlier output files match: the stem, an
/// underscore, three or more digits as the group `index`, a point, and the
/// extension. Stem and extension are escaped, so that they stand for
/// themselves.
pub open spec fn index_pattern_text(stem: Seq<char>, extension: Seq<char>) -> Seq<char> {
    "^"@ + escaped(stem) + "_(?P<index>\\d{3,})\\."@ + escaped(extension) + "$"@
}

/// The index that `text` denotes: `text` is a non-empty string of ASCII
/// digits whose number fits in a `usize`.
pub open spec fn index_written(text: Seq<char>) -> Option<usize> {
    if text.len() > 0 && all_digits(text) && decimal_value(text) <= usize::MAX {
        Some(decimal_value(text) as usize)
    } else {
        None
    }
}

/// The index that one capture contributes; zero where there is no capture or
/// it denotes no index.
pub open spec fn index_of_capture(found: Option<Seq<char>>) -> nat {
    match found {
        Some(text) => match index_written(text) {
            Some(index) => index as nat,
            None => 0,
        },
        None => 0,
    }
}

/// The largest index among `captures`; zero where there is none.
pub open spec fn highest_index(captures: Seq<Option<Seq<char>>>) -> nat
    decreases captures.len(),
{
    if captures.len() == 0 {
        0
    } else {
        let before = highest_index(captures.drop_last());
        let here = index_of_capture(captures.last());
        if here > before {
            here
        } else {
            before
        }
    }
}

/// The index after the largest one among `captures`.
pub open spec fn index_after(captures: Seq<Option<Seq<char>>>) -> Result<usize, AllocationError> {
    if highest_index(captures) < usize::MAX {
        Ok((highest_index(captures) + 1) as usize)
    } else {
        Err(AllocationError::Exhausted)
    }
}

/// What `pattern` captures as `index` in each of `names`.
pub open spec fn index_captures(pattern: Seq<char>, names: Seq<Seq<char>>) -> Seq<
    Option<Seq<char>>,
> {
    Seq::new(names.len(), |i: int| regex_capture(pattern, "index"@, names[i]))
}

/// The index for the next output file with this stem and extension, in a
/// directory that holds files with these names. Where the engine refuses the
/// pattern there is none.
pub open spec fn allocation(stem: Seq<char>, extension: Seq<char>, names: Seq<Seq<char>>) -> Result<
    usize,
    AllocationError,
> {
    let pattern = index_pattern_text(stem, extension);
    if regex_accepts(pattern) {
        index_after(index_captures(pattern, names))
    } else {
        Err(AllocationError::Pattern)
    }
}

/// The characters of each string.
pub open spec fn texts(names: Seq<String>) -> Seq<Seq<char>> {
    Seq::new(names.len(), |i: int| names[i]@)
}

/// The characters of each capture.
pub open spec fn capture_texts(captures: Seq<Option<String>>) -> Seq<Option<Seq<char>>> {
    Seq::new(captures.len(), |i: int| captured_text(captures[i]))
}

/// The name of an output file: the prefix, an underscore, the index with at
/// least three digits, a point, and the extension.
pub open spec fn file_name_text(prefix: Seq<char>, index: usize, extension: Seq<char>) -> Seq<
    char,
> {
    prefix + "_"@ + padded_decimal(index as nat, 3) + "."@ + extension
}

/// Builds the pattern that recognises earlier output files.
pub fn index_pattern(stem: &str, extension: &str) -> (pattern: String)
    ensures
        pattern@ == index_pattern_text(stem@, extension@),
{
    let mut pattern = String::new();
    pattern.append("^");
    let quoted_stem = escape(stem);
    pattern.append(quoted_stem.as_str());
    pattern.append("_(?P<index>\\d{3,})\\.");
    let quoted_extension = escape(extension);
    pattern.append(quoted_extension.as_str());
    pattern.append("$");
    proof {
        assert(pattern@ =~= index_pattern_text(stem@, extension@));
    }
    pattern
}

/// Reads the digits of a file name's index.
pub fn parse_index(text: &str) -> (index: Option<usize>)
    ensures
        index == index_written(text@),
{
    let len = text.unicode_len();
    if len == 0 {
        return None;
    }
    proof {
        assert(text@.subrange(0, len as int) == text@);
    }
    match read_digits(text, 0, len) {
        Some(value) => if value <= usize::MAX as u64 {
            Some(value as usize)
        } else {
            None
        },
        None => None,
    }
}

/// Given what the pattern captured in each file name, returns the index after
/// the largest one found.
pub fn next_index_after(captures: &Vec<Option<String>>) -> (next: Result<usize, AllocationError>)
    ensures
        next == index_after(capture_texts(captures@)),
{
    let ghost found = capture_texts(captures@);
    let mut highest: usize = 0;
    let mut i: usize = 0;
    while i < captures.len()
        invariant
            0 <= i <= captures.len(),
            found == capture_texts(captures@),
            highest == highest_index(found.take(i as int)),
        decreases captures.len() - i,
    {
        proof {
            assert(found.take(i + 1).drop_last() == found.take(i as int));
            assert(found.take(i + 1).last() == captured_text(captures@[i as int]));
        }
        match &captures[i] {
            Some(text) => match parse_index(text.as_str()) {
                Some(index) => if index > highest {
                    highest = index;
                },
                None => {},
            },
            None => {},
        }
        i += 1;
    }
    proof {
        assert(found.take(i as int) == found);
    }
    if highest < usize::MAX {
        Ok(highest + 1)
    } else {
        Err(AllocationError::Exhausted)
    }
}

/// Asks the compiled pattern for the index in each file name.
pub fn capture_indices(pattern: &Matcher, names: &Vec<String>) -> (captures: Vec<Option<String>>)
    ensures
        capture_texts(captures@) == index_captures(pattern@, texts(names@)),
{
    let mut captures: Vec<Option<String>> = Vec::new();
    let mut i: usize = 0;
    while i < names.len()
        invariant
            0 <= i <= names.len(),
            captures@.len() == i,
            forall|k: int|
                0 <= k < i ==> captured_text(#[trigger] captures@[k]) == regex_capture(
                    pattern@,
                    "index"@,
                    names@[k]@,
                ),
        decreases names.len() - i,
    {
        let found = pattern.capture("index", names[i].as_str());
        captures.push(found);
        i += 1;
    }
    proof {
        assert(capture_texts(captures@) =~= index_captures(pattern@, texts(names@)));
    }
    captures
}

/// Returns the index after the largest one that the compiled pattern finds
/// in the names of the existing files.
pub fn next_index_with(pattern: &Matcher, existing: &Vec<String>) -> (next: Result<
    usize,
    AllocationError,
>)
    ensures
        next == index_after(index_captures(pattern@, texts(existing@))),
{
    let captures = capture_indices(pattern, existing);
    next_index_after(&captures)
}

/// Returns the index for the next output file with this stem and extension,
/// given the names of the files that the output directory holds: one more
/// than the largest index that any of them carries, and one where none
/// carries an index. The error is `AllocationError::Pattern` exactly where
/// the engine refuses the pattern built from the stem and the extension.
pub fn get_next_file_index(stem: &str, extension: &str, existing: &Vec<String>) -> (next: Result<
    usize,
    AllocationError,
>)
    ensures
        next == allocation(stem@, extension@, texts(existing@)),
{
    let pattern = index_pattern(stem, extension);
    match Matcher::new(pattern.as_str()) {
        Some(compiled) => next_index_with(&compiled, existing),
        None => Err(AllocationError::Pattern),
    }
}

/// Builds the name of the output file with the given index.
pub fn output_file_name(prefix: &str, index: usize, extension: &str) -> (name: String)
    ensures
        name@ == file_name_text(prefix@, index, extension@),
{
    let mut name = String::new();
    name.append(prefix);
    name.append("_");
    append_padded(&mut name, index as u64, 3);
    name.append(".");
    name.append(extension);
    proof {
        assert(name@ =~= file_name_text(prefix@, index, extension@));
    }
    name
}

/// The highest index is an upper bound of every index among the captures and,
/// unless it is zero, the index of one of them.
pub proof fn law_highest_index_is_the_maximum(captures: Seq<Option<Seq<char>>>)
    ensures
        forall|i: int|
            0 <= i < captures.len() ==> index_of_capture(#[trigger] captures[i]) <= highest_index(
                captures,
            ),
        highest_index(captures) == 0 || exists|i: int|
            0 <= i < captures.len() && index_of_capture(#[trigger] captures[i]) == highest_index(
                captures,
            ),
    decreases captures.len(),
{
    if captures.len() > 0 {
        let rest = captures.drop_last();
        law_highest_index_is_the_maximum(rest);
        assert forall|i: int| 0 <= i < captures.len() implies index_of_capture(
            #[trigger] captures[i],
        ) <= highest_index(captures) by {
            if i < rest.len() {
                assert(rest[i] == captures[i]);
            }
        }
        if highest_index(captures) != 0 {
            if index_of_capture(captures.last()) > highest_index(rest) {
                assert(index_of_capture(captures[captures.len() - 1]) == highest_index(captures));
            } else {
                let i = choose|i: int|
                    0 <= i < rest.len() && index_of_capture(#[trigger] rest[i]) == highest_index(
                        rest,
                    );
                assert(rest[i] == captures[i]);
            }
        }
    }
}

/// Where no file name carries an index, and so in an empty or absent
/// directory, the first index is one.
pub proof fn law_first_index_is_one(captures: Seq<Option<Seq<char>>>)
    requires
        forall|i: int| 0 <= i < captures.len() ==> index_of_capture(#[trigger] captures[i]) == 0,
    ensures
        index_after(captures) == Ok::<usize, AllocationError>(1),
{
    law_highest_index_is_the_maximum(captures);
}

/// The allocated index lies beyond the index of every file that is there, so
/// that no name built from it or from a later index is taken.
pub proof fn law_allocated_index_is_unused(captures: Seq<Option<Seq<char>>>, next: usize)
    requires
        index_after(captures) == Ok::<usize, AllocationError>(next),
    ensures
        next >= 1,
        forall|i: int| 0 <= i < captures.len() ==> index_of_capture(#[trigger] captures[i]) < next,
        next == highest_index(captures) + 1,
{
    law_highest_index_is_the_maximum(captures);
}

/// Files with the same prefix and extension and different indices have
/// different names.
pub proof fn law_distinct_indices_give_distinct_names(
    prefix: Seq<char>,
    extension: Seq<char>,
    first: usize,
    second: usize,
)
    requires
        file_name_text(prefix, first, extension) == file_name_text(prefix, second, extension),
    ensures
        first == second,
{
    let head = prefix + "_"@;
    let tail = "."@ + extension;
    let a = padded_decimal(first as nat, 3);
    let b = padded_decimal(second as nat, 3);
    let name = file_name_text(prefix, first, extension);
    assert(name =~= head + a + tail);
    assert(name =~= head + b + tail);
    assert(a.len() == b.len());
    assert forall|k: int| 0 <= k < a.len() implies a[k] == b[k] by {
        assert((head + a + tail)[head.len() + k] == a[k]);
        assert((head + b + tail)[head.len() + k] == b[k]);
    }
    assert(a =~= b);
    lemma_padded_decimal(first as nat, 3);
    lemma_padded_decimal(second as nat, 3);
}

} // verus!
