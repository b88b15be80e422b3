//! Derivation of the output file's path from the input file's path.
//!
//! A path is plain text in which `/` separates the directories from one
//! another and from the file name.

use vstd::prelude::*;
use crate::text::lemma_take_next;

verus! {

/// Why no output path could be derived.
#[derive(Clone, Copy, Debug, PartialEq, Eq, Structural)]
pub enum PathError {
    /// The input path names no file: nothing follows its last separator,
    /// or what follows is `.` or `..`.
    InvalidInput,
}

impl PathError {
    /// A sentence that says what went wrong.
    pub fn message(&self) -> (text: String)
        ensures
            text@ == "Input path has no file name"@,
    {
        String::from_str("Input path has no file name")
    }
}

/// The position of the last `c` in `s`, or -1 where `s` holds none.
pub open spec fn last_index_of(s: Seq<char>, c: char) -> int
    decreases s.len(),
{
    if s.len() == 0 {
        -1
    } else if s.last() == c {
        s.len() - 1
    } else {
        last_index_of(s.drop_last(), c)
    }
}

/// The directories of a path with the separator that ends them: all up to
/// and including the last separator, nothing where there is none.
pub open spec fn directory_part(path: Seq<char>) -> Seq<char> {
    path.take(last_index_of(path, '/') + 1)
}

/// What follows the last separator of a path.
pub open spec fn file_name(path: Seq<char>) -> Seq<char> {
    path.skip(last_index_of(path, '/') + 1)
}

/// Whether `name` can be the name of a file: it is not empty and is
/// neither `.` nor `..`, which stand for directories.
pub open spec fn names_a_file(name: Seq<char>) -> bool {
    name.len() > 0 && name != seq!['.'] && name != seq!['.', '.']
}

/// A file name without its extension: what stands before its last dot. A
/// dot at the very start opens no extension, so a name whose only dot is
/// its first character, like one without any dot, is its own stem.
pub open spec fn file_stem(name: Seq<char>) -> Seq<char> {
    if last_index_of(name, '.') > 0 {
        name.take(last_index_of(name, '.'))
    } else {
        name
    }
}

/// The path of the file that stands beside the one that `path` names and
/// has its stem and the extension `extension`.
pub open spec fn output_path(path: Seq<char>, extension: Seq<char>) -> Seq<char> {
    directory_part(path) + file_stem(file_name(path)) + seq!['.'] + extension
}

/// `last_index_of` gives a position of `c` behind which no `c` stands, and
/// -1 only where there is no `c` at all.
pub proof fn lemma_last_index_of(s: Seq<char>, c: char)
    ensures
        -1 <= last_index_of(s, c) < s.len(),
        last_index_of(s, c) >= 0 ==> s[last_index_of(s, c)] == c,
        forall|j: int| last_index_of(s, c) < j < s.len() ==> s[j] != c,
    decreases s.len(),
{
    if s.len() > 0 && s.last() != c {
        lemma_last_index_of(s.drop_last(), c);
        assert forall|j: int| last_index_of(s, c) < j < s.len() implies s[j] != c by {
            if j < s.len() - 1 {
                assert(s.drop_last()[j] == s[j]);
            }
        }
    }
}

/// The file name of a path holds no separator, and the directory part and
/// the file name together are the path.
pub proof fn lemma_path_parts(path: Seq<char>)
    ensures
        directory_part(path) + file_name(path) == path,
        !file_name(path).contains('/'),
        directory_part(path).len() > 0 ==> directory_part(path).last() == '/',
{
    lemma_last_index_of(path, '/');
}

/// Text without `c`, put behind `s`, leaves the last `c` where it is.
pub proof fn lemma_last_index_of_extended(s: Seq<char>, tail: Seq<char>, c: char)
    requires
        !tail.contains(c),
    ensures
        last_index_of(s + tail, c) == last_index_of(s, c),
    decreases tail.len(),
{
    if tail.len() > 0 {
        let front = tail.drop_last();
        assert(!front.contains(c)) by {
            if front.contains(c) {
                let i = choose|i: int| 0 <= i < front.len() && front[i] == c;
                assert(tail[i] == c);
            }
        }
        assert((s + tail).drop_last() =~= s + front);
        lemma_last_index_of_extended(s, front, c);
    }
}

/// The output file stands in the directory of the input file, and its
/// name is the input's stem, a dot and the extension, as long as the
/// extension holds no separator.
pub proof fn lemma_output_beside_input(path: Seq<char>, extension: Seq<char>)
    requires
        !extension.contains('/'),
    ensures
        directory_part(output_path(path, extension)) == directory_part(path),
        file_name(output_path(path, extension)) == file_stem(file_name(path)) + seq!['.']
            + extension,
{
    let dir = directory_part(path);
    let name = file_name(path);
    let new_name = file_stem(name) + seq!['.'] + extension;
    lemma_path_parts(path);
    lemma_last_index_of(path, '/');
    lemma_last_index_of(name, '.');
    assert(!new_name.contains('/')) by {
        if new_name.contains('/') {
            let i = choose|i: int| 0 <= i < new_name.len() && new_name[i] == '/';
            let stem_len = file_stem(name).len();
            if i < stem_len {
                assert(name[i] == '/');
            } else if i > stem_len {
                assert(extension[i - stem_len - 1] == '/');
            }
        }
    }
    assert(output_path(path, extension) =~= dir + new_name);
    lemma_last_index_of_extended(dir, new_name, '/');
    assert(last_index_of(dir, '/') == dir.len() - 1);
}

/// The position of the last `c` in `s`.
fn find_last(s: &str, c: char) -> (found: Option<usize>)
    ensures
        match found {
            Some(k) => k as int == last_index_of(s@, c),
            None => last_index_of(s@, c) == -1,
        },
{
    let n: usize = s.unicode_len();
    let mut found: Option<usize> = None;
    let mut i: usize = 0;
    for ch in it: s.chars()
        invariant
            it.seq() == s@,
            n == s@.len(),
            i == it.index(),
            match found {
                Some(k) => k as int == last_index_of(s@.take(i as int), c),
                None => last_index_of(s@.take(i as int), c) == -1,
            },
    {
        proof {
            lemma_take_next(s@, i as int);
        }
        if ch == c {
            found = Some(i);
        }
        i += 1;
    }
    assert(s@.take(s@.len() as int) =~= s@);
    found
}

/// Whether `name` is not empty and neither `.` nor `..`.
fn is_file_name(name: &str) -> (yes: bool)
    ensures
        yes == names_a_file(name@),
{
    let n: usize = name.unicode_len();
    if n == 0 {
        false
    } else if n == 1 {
        let only = name.get_char(0);
        assert(name@ =~= seq![only]);
        only != '.'
    } else if n == 2 {
        let first = name.get_char(0);
        let second = name.get_char(1);
        assert(name@ =~= seq![first, second]);
        !(first == '.' && second == '.')
    } else {
        true
    }
}

/// The path of the output file for the input file at `input_path`: in the
/// same directory, with the same stem, and with `output_extension` as its
/// extension. Whether the directory exists is not looked at.
///
/// Fails where `input_path` names no file.
pub fn build_output_path(input_path: &str, output_extension: &str) -> (result: Result<
    String,
    PathError,
>)
    ensures
        names_a_file(file_name(input_path@)) ==> result is Ok && result->Ok_0@ == output_path(
            input_path@,
            output_extension@,
        ),
        !names_a_file(file_name(input_path@)) ==> result == Err::<String, PathError>(
            PathError::InvalidInput,
        ),
{
    let n: usize = input_path.unicode_len();
    proof {
        lemma_last_index_of(input_path@, '/');
    }
    let dir_len: usize = match find_last(input_path, '/') {
        Some(k) => k + 1,
        None => 0,
    };
    let name = input_path.substring_char(dir_len, n);
    if !is_file_name(name) {
        return Err(PathError::InvalidInput);
    }
    proof {
        lemma_last_index_of(name@, '.');
    }
    let stem = match find_last(name, '.') {
        Some(k) => if k > 0 {
            name.substring_char(0, k)
        } else {
            name
        },
        None => name,
    };
    let mut out = String::from_str(input_path.substring_char(0, dir_len));
    out.append(stem);
    out.push('.');
    out.append(output_extension);
    Ok(out)
}

} // verus!
