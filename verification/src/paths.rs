//! Paths read as text.
//!
//! A path is a sequence of characters cut into segments by separators.
//! Both `/` and `\` separate, so that a path written on one system reads
//! the same on another. Empty segments and `.` segments name nothing.

use vstd::prelude::*;

verus! {

/// `c` separates the segments of a path.
pub open spec fn is_separator(c: char) -> bool {
    c == '/' || c == '\\'
}

/// Where the last segment of `path` that names something ends: trailing
/// separators and trailing `.` segments are passed over. Zero where no
/// segment is left.
pub open spec fn name_end(path: Seq<char>) -> int
    decreases path.len(),
{
    if path.len() == 0 {
        0
    } else if is_separator(path.last()) {
        name_end(path.drop_last())
    } else if path.last() == '.' && (path.len() == 1 || is_separator(path[path.len() - 2])) {
        name_end(path.drop_last())
    } else {
        path.len() as int
    }
}

/// Where the segment of `path` that ends at `end` begins.
pub open spec fn segment_start(path: Seq<char>, end: int) -> int
    decreases end,
{
    if end <= 0 || end > path.len() || is_separator(path[end - 1]) {
        end
    } else {
        segment_start(path, end - 1)
    }
}

/// The file name of `path`: its last segment that is neither empty nor
/// `.`. There is none where no such segment exists or where it is `..`.
pub open spec fn file_name(path: Seq<char>) -> Option<Seq<char>> {
    let end = name_end(path);
    let name = path.subrange(segment_start(path, end), end);
    if end == 0 || name == seq!['.', '.'] {
        None
    } else {
        Some(name)
    }
}

/// The position of the last `c` in `s`, or -1 where `s` holds none.
pub open spec fn last_index_of(s: Seq<char>, c: char) -> int
    decreases s.len(),
{
    if s.len() == 0 {
        -1
    } else if s.last() == c {
        s.len() - 1
    } else {
        last_index_of(s.drop_last(), c)
    }
}

/// The stem of a file name: the name up to its last dot. A name without a
/// dot, or whose only dot comes first, is its own stem.
pub open spec fn stem_of_name(name: Seq<char>) -> Seq<char> {
    let dot = last_index_of(name, '.');
    if dot <= 0 {
        name
    } else {
        name.take(dot)
    }
}

/// The stem of the file name of `path`; empty where it has no file name.
pub open spec fn file_stem(path: Seq<char>) -> Seq<char> {
    match file_name(path) {
        Some(name) => stem_of_name(name),
        None => Seq::empty(),
    }
}

/// Whether `c` separates the segments of a path.
pub fn is_separator_char(c: char) -> (r: bool)
    ensures
        r == is_separator(c),
{
    c == '/' || c == '\\'
}

/// The bounds in `path` of its file name.
pub fn file_name_bounds(path: &[char]) -> (r: Option<(usize, usize)>)
    ensures
        match r {
            Some((start, end)) => start < end <= path.len() && file_name(path@) == Some(
                path@.subrange(start as int, end as int),
            ),
            None => file_name(path@) is None,
        },
{
    let mut end: usize = path.len();
    assert(path@.take(end as int) =~= path@);
    while end > 0 && (is_separator_char(path[end - 1]) || (path[end - 1] == '.' && (end == 1
        || is_separator_char(path[end - 2]))))
        invariant
            end <= path.len(),
            name_end(path@) == name_end(path@.take(end as int)),
        decreases end,
    {
        assert(path@.take(end as int).drop_last() =~= path@.take(end - 1));
        end -= 1;
    }
    if end == 0 {
        return None;
    }
    assert(name_end(path@) == end) by {
        let p = path@.take(end as int);
        assert(p.last() == path@[end - 1]);
        if end >= 2 {
            assert(p[p.len() - 2] == path@[end - 2]);
        }
    }
    let mut start: usize = end;
    while start > 0 && !is_separator_char(path[start - 1])
        invariant
            start <= end <= path.len(),
            segment_start(path@, end as int) == segment_start(path@, start as int),
            forall|i: int| start <= i < end ==> !is_separator(path@[i]),
        decreases start,
    {
        start -= 1;
    }
    if end - start == 2 && path[start] == '.' && path[start + 1] == '.' {
        assert(path@.subrange(start as int, end as int) =~= seq!['.', '.']);
        return None;
    }
    assert(path@.subrange(start as int, end as int) != seq!['.', '.']) by {
        let name = path@.subrange(start as int, end as int);
        if name == seq!['.', '.'] {
            assert(name.len() == 2);
            assert(name[0] == '.' && name[1] == '.');
        }
    }
    Some((start, end))
}

/// The length of the stem of `name`.
pub fn stem_length(name: &[char]) -> (len: usize)
    ensures
        len <= name.len(),
        stem_of_name(name@) == name@.take(len as int),
{
    let mut i: usize = name.len();
    assert(name@.take(i as int) =~= name@);
    while i > 0 && name[i - 1] != '.'
        invariant
            i <= name.len(),
            last_index_of(name@, '.') == last_index_of(name@.take(i as int), '.'),
        decreases i,
    {
        assert(name@.take(i as int).drop_last() =~= name@.take(i - 1));
        i -= 1;
    }
    if i <= 1 {
        name.len()
    } else {
        i - 1
    }
}

/// A segment without separators begins where the separator before it ends.
pub proof fn lemma_segment_start(path: Seq<char>, start: int, end: int)
    requires
        0 <= start <= end <= path.len(),
        start == 0 || is_separator(path[start - 1]),
        forall|i: int| start <= i < end ==> !is_separator(path[i]),
    ensures
        segment_start(path, end) == start,
    decreases end - start,
{
    if start < end {
        lemma_segment_start(path, start, end - 1);
    }
}

/// The file name of a directory and a name joined by a separator is that
/// name, whatever the directory: for every name that is not empty, holds
/// no separator and is neither `.` nor `..`.
pub proof fn lemma_file_name_of_joined(directory: Seq<char>, separator: char, name: Seq<char>)
    requires
        is_separator(separator),
        name.len() > 0,
        forall|i: int| 0 <= i < name.len() ==> !is_separator(name[i]),
        name != seq!['.'],
        name != seq!['.', '.'],
    ensures
        file_name(directory + seq![separator] + name) == Some(name),
{
    let path = directory + seq![separator] + name;
    let start: int = directory.len() as int + 1;
    assert(path.last() == name.last());
    assert(path[start - 1] == separator);
    assert forall|i: int| start <= i < path.len() implies !is_separator(path[i]) by {
        assert(path[i] == name[i - start]);
    }
    if name.last() == '.' {
        if name.len() == 1 {
            assert(name =~= seq!['.']);
        } else {
            assert(path[path.len() - 2] == name[name.len() - 2]);
        }
    }
    assert(name_end(path) == path.len());
    lemma_segment_start(path, start, path.len() as int);
    assert(path.subrange(start, path.len() as int) =~= name);
}

/// Where `c` stands at `at` in `s` and nowhere after, `at` is its last
/// position.
pub proof fn lemma_last_index_of(s: Seq<char>, c: char, at: int)
    requires
        0 <= at < s.len(),
        s[at] == c,
        forall|i: int| at < i < s.len() ==> s[i] != c,
    ensures
        last_index_of(s, c) == at,
    decreases s.len(),
{
    if s.last() != c {
        lemma_last_index_of(s.drop_last(), c, at);
    }
}

/// The stem of a base, a dot and an extension is the base: for every base
/// that is not empty and every extension without a dot.
pub proof fn lemma_stem_of_name(base: Seq<char>, extension: Seq<char>)
    requires
        base.len() > 0,
        forall|i: int| 0 <= i < extension.len() ==> extension[i] != '.',
    ensures
        stem_of_name(base + seq!['.'] + extension) == base,
{
    let name = base + seq!['.'] + extension;
    let at = base.len() as int;
    assert(name[at] == '.');
    assert forall|i: int| at < i < name.len() implies name[i] != '.' by {
        assert(name[i] == extension[i - at - 1]);
    }
    lemma_last_index_of(name, '.', at);
    assert(name.take(at) =~= base);
}

} // verus!
