//! Text as sequences of characters: searching, and splitting into pieces,
//! lines and words.
//!
//! Every function here works on `Seq<char>` in its contract and on `&[char]`
//! in its body, so that positions are character positions and indexing is
//! constant time.

use vstd::prelude::*;

verus! {

/// The characters of `s`, in order.
pub fn chars_of(s: &str) -> (v: Vec<char>)
    ensures
        v@ == s@,
{
    let mut v: Vec<char> = Vec::new();
    for c in it: s.chars()
        invariant
            v@ == it.seq().take(it.index() as int),
            it.seq() == s@,
    {
        v.push(c);
    }
    v
}

/// `needle` stands in `s` at position `i`.
pub open spec fn occurs_at(s: Seq<char>, needle: Seq<char>, i: int) -> bool {
    &&& 0 <= i
    &&& i + needle.len() <= s.len()
    &&& s.subrange(i, i + needle.len()) == needle
}

/// The first position at or after `from` where `needle` stands in `s`.
pub open spec fn find_from(s: Seq<char>, needle: Seq<char>, from: int) -> Option<int>
    decreases s.len() - from + 1,
{
    if from < 0 || from + needle.len() > s.len() {
        None
    } else if occurs_at(s, needle, from) {
        Some(from)
    } else {
        find_from(s, needle, from + 1)
    }
}

/// `needle` stands somewhere in `s`.
pub open spec fn contains(s: Seq<char>, needle: Seq<char>) -> bool {
    find_from(s, needle, 0) is Some
}

/// `s` begins with `prefix`.
pub open spec fn starts_with(s: Seq<char>, prefix: Seq<char>) -> bool {
    occurs_at(s, prefix, 0)
}

/// `s` ends with `suffix`.
pub open spec fn ends_with(s: Seq<char>, suffix: Seq<char>) -> bool {
    occurs_at(s, suffix, s.len() - suffix.len())
}

/// What `find_from` returns is the least position at or after `from` where
/// `needle` stands, and there is none exactly when it returns `None`.
pub proof fn lemma_find_from(s: Seq<char>, needle: Seq<char>, from: int)
    requires
        0 <= from,
    ensures
        match find_from(s, needle, from) {
            Some(i) => {
                &&& from <= i
                &&& occurs_at(s, needle, i)
                &&& forall|j: int| from <= j < i ==> !occurs_at(s, needle, j)
            },
            None => forall|j: int| from <= j ==> !occurs_at(s, needle, j),
        },
    decreases s.len() - from + 1,
{
    if from + needle.len() > s.len() {
    } else if occurs_at(s, needle, from) {
    } else {
        lemma_find_from(s, needle, from + 1);
    }
}

/// Where `needle` stands at `at` and nowhere from `from` up to `at`,
/// `find_from` gives `at`.
pub proof fn lemma_find_first(s: Seq<char>, needle: Seq<char>, from: int, at: int)
    requires
        0 <= from <= at,
        occurs_at(s, needle, at),
        forall|j: int| from <= j < at ==> !occurs_at(s, needle, j),
    ensures
        find_from(s, needle, from) == Some(at),
{
    lemma_find_from(s, needle, from);
}

/// Where `needle` stands nowhere from `from` on, `find_from` gives nothing.
pub proof fn lemma_find_none(s: Seq<char>, needle: Seq<char>, from: int)
    requires
        0 <= from,
        forall|j: int| from <= j ==> !occurs_at(s, needle, j),
    ensures
        find_from(s, needle, from) is None,
{
    lemma_find_from(s, needle, from);
}

/// A text of one character stands at a position exactly when that
/// character is there.
pub proof fn lemma_occurs_single(s: Seq<char>, c: char, at: int)
    ensures
        occurs_at(s, seq![c], at) <==> (0 <= at < s.len() && s[at] == c),
{
    if 0 <= at < s.len() {
        if s[at] == c {
            assert(s.subrange(at, at + 1) =~= seq![c]);
        } else {
            assert(s.subrange(at, at + 1)[0] == s[at]);
        }
    }
}

/// `contains` holds exactly when `needle` stands at some position.
pub proof fn lemma_contains(s: Seq<char>, needle: Seq<char>)
    ensures
        contains(s, needle) <==> exists|i: int| occurs_at(s, needle, i),
{
    lemma_find_from(s, needle, 0);
}

/// Whether `needle` stands in `s` at position `i`.
pub fn matches_at(s: &[char], needle: &[char], i: usize) -> (r: bool)
    ensures
        r == occurs_at(s@, needle@, i as int),
{
    if needle.len() > s.len() || i > s.len() - needle.len() {
        return false;
    }
    let mut k: usize = 0;
    while k < needle.len()
        invariant
            k <= needle.len(),
            i + needle.len() <= s.len(),
            forall|j: int| 0 <= j < k ==> s@[i + j] == needle@[j],
        decreases needle.len() - k,
    {
        if s[i + k] != needle[k] {
            assert(s@.subrange(i as int, i + needle.len())[k as int] == s@[i + k]);
            return false;
        }
        k += 1;
    }
    assert(s@.subrange(i as int, i + needle.len()) =~= needle@);
    true
}

/// The first position at or after `from` where `needle` stands in `s`.
pub fn find(s: &[char], needle: &[char], from: usize) -> (r: Option<usize>)
    ensures
        match r {
            Some(i) => find_from(s@, needle@, from as int) == Some(i as int),
            None => find_from(s@, needle@, from as int) is None,
        },
{
    if needle.len() > s.len() {
        return None;
    }
    let last: usize = s.len() - needle.len();
    let mut i: usize = from;
    while i <= last
        invariant
            from <= i,
            last == s.len() - needle.len(),
            find_from(s@, needle@, from as int) == find_from(s@, needle@, i as int),
        decreases last - i,
    {
        if matches_at(s, needle, i) {
            return Some(i);
        }
        if i == last {
            assert(find_from(s@, needle@, i + 1) is None);
            return None;
        }
        i += 1;
    }
    None
}

/// Whether `s` begins with `prefix`.
pub fn has_prefix(s: &[char], prefix: &[char]) -> (r: bool)
    ensures
        r == starts_with(s@, prefix@),
{
    matches_at(s, prefix, 0)
}

/// Whether `s` ends with `suffix`.
pub fn has_suffix(s: &[char], suffix: &[char]) -> (r: bool)
    ensures
        r == ends_with(s@, suffix@),
{
    if suffix.len() > s.len() {
        return false;
    }
    matches_at(s, suffix, s.len() - suffix.len())
}

/// A text of one character.
pub fn single(c: char) -> (v: Vec<char>)
    ensures
        v@ == seq![c],
{
    let mut v: Vec<char> = Vec::new();
    v.push(c);
    assert(v@ =~= seq![c]);
    v
}

/// Whether `s` and `t` hold the same characters.
pub fn same_text(s: &[char], t: &[char]) -> (r: bool)
    ensures
        r == (s@ == t@),
{
    if s.len() != t.len() {
        return false;
    }
    let r = matches_at(s, t, 0);
    assert(s@.subrange(0, s@.len() as int) =~= s@);
    r
}

/// The end of the first piece that `pattern` splits `s` into: the place
/// where `pattern` first stands at or after `from`, or the end of `s`.
pub open spec fn piece_end(s: Seq<char>, pattern: Seq<char>, from: int) -> int {
    match find_from(s, pattern, from) {
        Some(i) => i,
        None => s.len() as int,
    }
}

/// The text before the first `pattern` in `s`; all of `s` where there is
/// none.
pub open spec fn before_first(s: Seq<char>, pattern: Seq<char>) -> Seq<char> {
    s.subrange(0, piece_end(s, pattern, 0))
}

/// The text between the first `pattern` in `s` and the next one after it,
/// or the end of `s`; nothing where `s` holds no `pattern`.
pub open spec fn after_first(s: Seq<char>, pattern: Seq<char>) -> Option<Seq<char>> {
    match find_from(s, pattern, 0) {
        Some(i) => Some(s.subrange(i + pattern.len(), piece_end(s, pattern, i + pattern.len()))),
        None => None,
    }
}

/// `find_from` stays inside `s`.
pub proof fn lemma_find_from_bounds(s: Seq<char>, needle: Seq<char>, from: int)
    requires
        0 <= from,
    ensures
        match find_from(s, needle, from) {
            Some(i) => from <= i && i + needle.len() <= s.len(),
            None => true,
        },
{
    lemma_find_from(s, needle, from);
}

/// Where the first piece of `s` ends when it is split at `pattern`.
pub fn first_piece_end(s: &[char], pattern: &[char], from: usize) -> (end: usize)
    ensures
        end == piece_end(s@, pattern@, from as int),
        end <= s.len(),
        from <= s.len() ==> from <= end,
{
    proof {
        lemma_find_from_bounds(s@, pattern@, from as int);
    }
    match find(s, pattern, from) {
        Some(i) => i,
        None => s.len(),
    }
}

/// The bounds in `s` of the text between the first `pattern` and the next.
pub fn second_piece(s: &[char], pattern: &[char]) -> (r: Option<(usize, usize)>)
    ensures
        match r {
            Some((a, b)) => a <= b <= s.len() && after_first(s@, pattern@) == Some(
                s@.subrange(a as int, b as int),
            ),
            None => after_first(s@, pattern@) is None,
        },
{
    proof {
        lemma_find_from_bounds(s@, pattern@, 0);
    }
    match find(s, pattern, 0) {
        Some(i) => {
            assert(i + pattern.len() <= s.len());
            let a: usize = i + pattern.len();
            let b = first_piece_end(s, pattern, a);
            Some((a, b))
        },
        None => None,
    }
}

/// `c` is white space: one of the characters that Unicode gives the
/// property `White_Space`.
pub open spec fn is_whitespace(c: char) -> bool {
    let n = c as u32;
    ||| 0x09 <= n <= 0x0d
    ||| n == 0x20
    ||| n == 0x85
    ||| n == 0xa0
    ||| n == 0x1680
    ||| 0x2000 <= n <= 0x200a
    ||| n == 0x2028
    ||| n == 0x2029
    ||| n == 0x202f
    ||| n == 0x205f
    ||| n == 0x3000
}

/// Whether `c` is white space.
pub fn is_whitespace_char(c: char) -> (r: bool)
    ensures
        r == is_whitespace(c),
{
    let n: u32 = c as u32;
    (0x09 <= n && n <= 0x0d) || n == 0x20 || n == 0x85 || n == 0xa0 || n == 0x1680 || (0x2000
        <= n && n <= 0x200a) || n == 0x2028 || n == 0x2029 || n == 0x202f || n == 0x205f || n
        == 0x3000
}

/// The number of characters of `s` before its first line feed.
pub open spec fn line_length(s: Seq<char>) -> nat
    decreases s.len(),
{
    if s.len() == 0 || s[0] == '\n' {
        0
    } else {
        1 + line_length(s.drop_first())
    }
}

/// `line` without the carriage return that it may end with.
pub open spec fn without_carriage_return(line: Seq<char>) -> Seq<char> {
    if line.len() > 0 && line.last() == '\r' {
        line.drop_last()
    } else {
        line
    }
}

/// The lines of `s`. A line ends with a line feed, which is not part of
/// it, nor is a carriage return just before the line feed. What follows
/// the last line feed is a line too, unless it is empty.
pub open spec fn lines(s: Seq<char>) -> Seq<Seq<char>>
    decreases s.len(),
{
    let n = line_length(s) as int;
    if s.len() == 0 {
        Seq::empty()
    } else if n >= s.len() {
        seq![s]
    } else {
        seq![without_carriage_return(s.take(n))] + lines(s.skip(n + 1))
    }
}

/// The first line of `s` from `from` on: where it ends, and where the
/// rest of `s` begins. From the end of `s` on there is no line, and both
/// are the end of `s`.
pub fn first_line(s: &[char], from: usize) -> (bounds: (usize, usize))
    ensures
        bounds.0 <= bounds.1 <= s.len(),
        from < s.len() ==> from <= bounds.0 && from < bounds.1 && lines(s@.skip(from as int))
            == seq![s@.subrange(from as int, bounds.0 as int)] + lines(s@.skip(bounds.1 as int)),
        from >= s.len() ==> bounds == (s.len(), s.len()),
{
    if from >= s.len() {
        return (s.len(), s.len());
    }
    let ghost rest = s@.skip(from as int);
    let mut j: usize = from;
    assert(s@.skip(j as int) =~= rest);
    while j < s.len() && s[j] != '\n'
        invariant
            from <= j <= s.len(),
            rest == s@.skip(from as int),
            line_length(rest) == (j - from) + line_length(s@.skip(j as int)),
        decreases s.len() - j,
    {
        assert(s@.skip(j as int).drop_first() =~= s@.skip(j + 1));
        j += 1;
    }
    if j == s.len() {
        assert(s@.subrange(from as int, j as int) =~= rest);
        assert(lines(s@.skip(j as int)) =~= Seq::empty());
        assert(lines(rest) =~= seq![rest] + Seq::empty());
        return (j, j);
    }
    assert(line_length(rest) == j - from);
    assert(rest.skip(j - from + 1) =~= s@.skip(j + 1));
    assert(rest.take(j - from) =~= s@.subrange(from as int, j as int));
    if j > from && s[j - 1] == '\r' {
        assert(s@.subrange(from as int, j as int).drop_last() =~= s@.subrange(
            from as int,
            j - 1,
        ));
        (j - 1, j + 1)
    } else {
        (j, j + 1)
    }
}

/// The number of characters with which `s` begins that are not white
/// space.
pub open spec fn word_length(s: Seq<char>) -> nat
    decreases s.len(),
{
    if s.len() == 0 || is_whitespace(s[0]) {
        0
    } else {
        1 + word_length(s.drop_first())
    }
}

/// The word of `s` with number `n`, counting from zero. Words are the
/// longest runs of characters that are not white space.
pub open spec fn nth_word(s: Seq<char>, n: nat) -> Option<Seq<char>>
    decreases n, s.len(),
{
    let len = word_length(s) as int;
    if s.len() == 0 {
        None
    } else if is_whitespace(s[0]) {
        nth_word(s.drop_first(), n)
    } else if n == 0 {
        Some(s.take(len))
    } else {
        nth_word(s.skip(len), (n - 1) as nat)
    }
}

/// The last word of `s`.
pub open spec fn last_word(s: Seq<char>) -> Option<Seq<char>>
    decreases s.len(),
{
    if s.len() == 0 {
        None
    } else if is_whitespace(s.last()) {
        last_word(s.drop_last())
    } else {
        Some(s.skip(word_start(s)))
    }
}

/// Where the run of characters other than white space begins with which
/// `s` ends.
pub open spec fn word_start(s: Seq<char>) -> int
    decreases s.len(),
{
    if s.len() == 0 || is_whitespace(s.last()) {
        s.len() as int
    } else {
        word_start(s.drop_last())
    }
}

/// `s` without the white space that it begins with.
pub open spec fn trim_start(s: Seq<char>) -> Seq<char>
    decreases s.len(),
{
    if s.len() > 0 && is_whitespace(s[0]) {
        trim_start(s.drop_first())
    } else {
        s
    }
}

/// `s` without the white space that it ends with.
pub open spec fn trim_end(s: Seq<char>) -> Seq<char>
    decreases s.len(),
{
    if s.len() > 0 && is_whitespace(s.last()) {
        trim_end(s.drop_last())
    } else {
        s
    }
}

/// `s` without the white space at either end.
pub open spec fn trim(s: Seq<char>) -> Seq<char> {
    trim_end(trim_start(s))
}

/// `s` without any `c`.
pub open spec fn without(s: Seq<char>, c: char) -> Seq<char>
    decreases s.len(),
{
    if s.len() == 0 {
        s
    } else if s.last() == c {
        without(s.drop_last(), c)
    } else {
        without(s.drop_last(), c).push(s.last())
    }
}

/// Where the word that begins at `from` ends.
fn word_end(s: &[char], from: usize) -> (end: usize)
    requires
        from <= s.len(),
    ensures
        from <= end <= s.len(),
        end - from == word_length(s@.skip(from as int)),
{
    let mut j: usize = from;
    while j < s.len() && !is_whitespace_char(s[j])
        invariant
            from <= j <= s.len(),
            word_length(s@.skip(from as int)) == (j - from) + word_length(s@.skip(j as int)),
        decreases s.len() - j,
    {
        assert(s@.skip(j as int).drop_first() =~= s@.skip(j + 1));
        j += 1;
    }
    j
}

/// The bounds in `s` of its word with number `n`, counting from zero.
pub fn nth_word_bounds(s: &[char], n: usize) -> (r: Option<(usize, usize)>)
    ensures
        match r {
            Some((a, b)) => a < b <= s.len() && nth_word(s@, n as nat) == Some(
                s@.subrange(a as int, b as int),
            ),
            None => nth_word(s@, n as nat) is None,
        },
{
    let mut i: usize = 0;
    let mut left: usize = n;
    assert(s@.skip(0) =~= s@);
    loop
        invariant
            i <= s.len(),
            left <= n,
            nth_word(s@, n as nat) == nth_word(s@.skip(i as int), left as nat),
        decreases s.len() - i, left,
    {
        if i == s.len() {
            return None;
        }
        assert(s@.skip(i as int)[0] == s@[i as int]);
        if is_whitespace_char(s[i]) {
            assert(s@.skip(i as int).drop_first() =~= s@.skip(i + 1));
            i += 1;
        } else {
            let end = word_end(s, i);
            assert(s@.skip(i as int).take(end - i) =~= s@.subrange(i as int, end as int));
            assert(s@.skip(i as int).skip(end - i) =~= s@.skip(end as int));
            if left == 0 {
                return Some((i, end));
            }
            left -= 1;
            i = end;
        }
    }
}

/// The bounds in `s` of its last word.
pub fn last_word_bounds(s: &[char]) -> (r: Option<(usize, usize)>)
    ensures
        match r {
            Some((a, b)) => a < b <= s.len() && last_word(s@) == Some(
                s@.subrange(a as int, b as int),
            ),
            None => last_word(s@) is None,
        },
{
    let mut end: usize = s.len();
    assert(s@.take(end as int) =~= s@);
    while end > 0 && is_whitespace_char(s[end - 1])
        invariant
            end <= s.len(),
            last_word(s@) == last_word(s@.take(end as int)),
        decreases end,
    {
        assert(s@.take(end as int).drop_last() =~= s@.take(end - 1));
        end -= 1;
    }
    if end == 0 {
        return None;
    }
    let ghost t = s@.take(end as int);
    let mut start: usize = end;
    while start > 0 && !is_whitespace_char(s[start - 1])
        invariant
            start <= end <= s.len(),
            t == s@.take(end as int),
            start < end ==> word_start(t) == word_start(t.take(start as int)),
            start == end ==> !is_whitespace(t.last()),
            end > 0,
        decreases start,
    {
        assert(t.take(start as int).drop_last() =~= t.take(start - 1));
        assert(t.take(start as int).last() == s@[start - 1]);
        assert(t.take(end as int) =~= t);
        start -= 1;
    }
    assert(word_start(t) == start) by {
        if start < end {
            let u = t.take(start as int);
            if start > 0 {
                assert(u.last() == s@[start - 1]);
            }
        }
    }
    assert(t.skip(start as int) =~= s@.subrange(start as int, end as int));
    Some((start, end))
}

/// The bounds in `s` of what is left without the white space at either
/// end.
pub fn trim_bounds(s: &[char]) -> (bounds: (usize, usize))
    ensures
        bounds.0 <= bounds.1 <= s.len(),
        trim(s@) == s@.subrange(bounds.0 as int, bounds.1 as int),
{
    let mut a: usize = 0;
    assert(s@.skip(0) =~= s@);
    while a < s.len() && is_whitespace_char(s[a])
        invariant
            a <= s.len(),
            trim_start(s@) == trim_start(s@.skip(a as int)),
        decreases s.len() - a,
    {
        assert(s@.skip(a as int).drop_first() =~= s@.skip(a + 1));
        a += 1;
    }
    assert(trim_start(s@) == s@.skip(a as int)) by {
        if a < s.len() {
            assert(s@.skip(a as int)[0] == s@[a as int]);
        }
    }
    let ghost t = s@.skip(a as int);
    let mut b: usize = s.len();
    assert(t.take(b - a) =~= t);
    while b > a && is_whitespace_char(s[b - 1])
        invariant
            a <= b <= s.len(),
            t == s@.skip(a as int),
            trim_end(t) == trim_end(t.take(b - a)),
        decreases b,
    {
        assert(t.take(b - a).last() == s@[b - 1]);
        assert(t.take(b - a).drop_last() =~= t.take(b - a - 1));
        b -= 1;
    }
    assert(trim_end(t) == t.take(b - a)) by {
        if b > a {
            assert(t.take(b - a).last() == s@[b - 1]);
        }
    }
    assert(t.take(b - a) =~= s@.subrange(a as int, b as int));
    (a, b)
}

/// The characters of `s` other than `c`, in order.
pub fn remove_char(s: &[char], c: char) -> (kept: Vec<char>)
    ensures
        kept@ == without(s@, c),
{
    let mut kept: Vec<char> = Vec::new();
    let mut i: usize = 0;
    assert(s@.take(0) =~= Seq::<char>::empty());
    while i < s.len()
        invariant
            i <= s.len(),
            kept@ == without(s@.take(i as int), c),
        decreases s.len() - i,
    {
        assert(s@.take(i + 1).drop_last() =~= s@.take(i as int));
        assert(s@.take(i + 1).last() == s@[i as int]);
        if s[i] != c {
            kept.push(s[i]);
        }
        i += 1;
    }
    assert(s@.take(i as int) =~= s@);
    kept
}

} // verus!
