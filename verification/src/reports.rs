//! Reading figures out of the reports that a system gives on itself.
//!
//! A report is text in lines. A line may hold a figure of some kind under
//! some key; what a report says is its first such figure, or the sum of
//! them all.

use vstd::prelude::*;
use vstd::slice::slice_subrange;
use crate::numbers::{parse_u64, parsed_u64};
use crate::text::{
    after_first, before_first, chars_of, first_line, first_piece_end, has_prefix, lines, nth_word,
    nth_word_bounds, remove_char, second_piece, single, starts_with, trim, trim_bounds, without,
};

verus! {

/// The ways in which a line can hold a figure.
#[derive(Clone, Copy, Debug, PartialEq, Eq)]
pub enum Figure {
    /// The line begins with the key, and its second word is a number of
    /// kilobytes.
    SecondWordKilobytes,
    /// The line begins with the key, and what stands between its first
    /// `=` and the next, without the white space around it, is a number of
    /// bytes.
    AssignedBytes,
    /// As `AssignedBytes`, in kilobytes.
    AssignedKilobytes,
    /// What stands between the key and the text ` bytes` is a number.
    BeforeBytes,
    /// The line begins with the key, and what stands between its first
    /// `:` and the next, without the white space around it and without
    /// any full stop, is a number.
    AfterColon,
}

/// `n` times `scale`, where that is a `u64`.
pub open spec fn scaled(n: u64, scale: int) -> Option<u64> {
    if n * scale <= u64::MAX {
        Some((n * scale) as u64)
    } else {
        None
    }
}

/// The number that `s` stands for, if it stands for one.
pub open spec fn number_in(s: Seq<char>) -> Option<u64> {
    match parsed_u64(s) {
        Ok(n) => Some(n),
        Err(_) => None,
    }
}

/// The number that `s` stands for times `scale`, if that is a `u64`.
pub open spec fn scaled_number_in(s: Seq<char>, scale: int) -> Option<u64> {
    match number_in(s) {
        Some(n) => scaled(n, scale),
        None => None,
    }
}

/// The figure of kind `kind` that `line` holds under `key`, in bytes for
/// an amount of memory. A number that does not fit a `u64` once it is in
/// bytes is no figure.
pub open spec fn figure_in(kind: Figure, key: Seq<char>, line: Seq<char>) -> Option<u64> {
    match kind {
        Figure::SecondWordKilobytes => if starts_with(line, key) {
            match nth_word(line, 1) {
                Some(word) => scaled_number_in(word, 1024),
                None => None,
            }
        } else {
            None
        },
        Figure::AssignedBytes => if starts_with(line, key) {
            match after_first(line, seq!['=']) {
                Some(value) => number_in(trim(value)),
                None => None,
            }
        } else {
            None
        },
        Figure::AssignedKilobytes => if starts_with(line, key) {
            match after_first(line, seq!['=']) {
                Some(value) => scaled_number_in(trim(value), 1024),
                None => None,
            }
        } else {
            None
        },
        Figure::BeforeBytes => match after_first(line, key) {
            Some(rest) => number_in(before_first(rest, " bytes"@)),
            None => None,
        },
        Figure::AfterColon => if starts_with(line, key) {
            match after_first(line, seq![':']) {
                Some(value) => number_in(without(trim(value), '.')),
                None => None,
            }
        } else {
            None
        },
    }
}

/// The first figure that any of `lines` holds.
pub open spec fn first_figure(lines: Seq<Seq<char>>, kind: Figure, key: Seq<char>) -> Option<u64>
    decreases lines.len(),
{
    if lines.len() == 0 {
        None
    } else {
        match figure_in(kind, key, lines[0]) {
            Some(n) => Some(n),
            None => first_figure(lines.drop_first(), kind, key),
        }
    }
}

/// The sum of two amounts of which either may be absent; absent where both
/// are.
pub open spec fn plus(a: Option<nat>, b: Option<nat>) -> Option<nat> {
    match (a, b) {
        (Some(x), Some(y)) => Some(x + y),
        (Some(x), None) => Some(x),
        (None, Some(y)) => Some(y),
        (None, None) => None,
    }
}

/// A figure as an amount.
pub open spec fn amount(figure: Option<u64>) -> Option<nat> {
    match figure {
        Some(n) => Some(n as nat),
        None => None,
    }
}

/// The sum of the figures that `lines` hold; nothing where none of them
/// holds one.
pub open spec fn sum_of_figures(lines: Seq<Seq<char>>, kind: Figure, key: Seq<char>) -> Option<
    nat,
>
    decreases lines.len(),
{
    if lines.len() == 0 {
        None
    } else {
        plus(
            amount(figure_in(kind, key, lines[0])),
            sum_of_figures(lines.drop_first(), kind, key),
        )
    }
}

/// `n` times 1024, where that is a `u64`.
fn kilobytes(n: u64) -> (bytes: Option<u64>)
    ensures
        bytes == scaled(n, 1024),
{
    n.checked_mul(1024)
}

/// The number that `s` stands for, if it stands for one.
fn read_number(s: &[char]) -> (n: Option<u64>)
    ensures
        n == number_in(s@),
{
    match parse_u64(s) {
        Ok(n) => Some(n),
        Err(_) => None,
    }
}

/// What stands in `line` between the first `separator` and the next,
/// without the white space around it.
fn trimmed_second_piece<'a>(line: &'a [char], separator: char) -> (value: Option<&'a [char]>)
    ensures
        match value {
            Some(v) => after_first(line@, seq![separator]) is Some && v@ == trim(
                after_first(line@, seq![separator])->0,
            ),
            None => after_first(line@, seq![separator]) is None,
        },
{
    let pattern = single(separator);
    match second_piece(line, pattern.as_slice()) {
        Some((a, b)) => {
            let piece = slice_subrange(line, a, b);
            let (c, d) = trim_bounds(piece);
            Some(slice_subrange(piece, c, d))
        },
        None => None,
    }
}

/// The figure of kind `kind` that `line` holds under `key`.
pub fn read_figure(kind: Figure, key: &[char], line: &[char]) -> (figure: Option<u64>)
    ensures
        figure == figure_in(kind, key@, line@),
{
    match kind {
        Figure::SecondWordKilobytes => {
            if !has_prefix(line, key) {
                return None;
            }
            match nth_word_bounds(line, 1) {
                Some((a, b)) => match read_number(slice_subrange(line, a, b)) {
                    Some(n) => kilobytes(n),
                    None => None,
                },
                None => None,
            }
        },
        Figure::AssignedBytes => {
            if !has_prefix(line, key) {
                return None;
            }
            match trimmed_second_piece(line, '=') {
                Some(value) => read_number(value),
                None => None,
            }
        },
        Figure::AssignedKilobytes => {
            if !has_prefix(line, key) {
                return None;
            }
            match trimmed_second_piece(line, '=') {
                Some(value) => match read_number(value) {
                    Some(n) => kilobytes(n),
                    None => None,
                },
                None => None,
            }
        },
        Figure::BeforeBytes => {
            match second_piece(line, key) {
                Some((a, b)) => {
                    let rest = slice_subrange(line, a, b);
                    let bytes = chars_of(" bytes");
                    let end = first_piece_end(rest, bytes.as_slice(), 0);
                    read_number(slice_subrange(rest, 0, end))
                },
                None => None,
            }
        },
        Figure::AfterColon => {
            if !has_prefix(line, key) {
                return None;
            }
            match trimmed_second_piece(line, ':') {
                Some(value) => {
                    let digits = remove_char(value, '.');
                    read_number(digits.as_slice())
                },
                None => None,
            }
        },
    }
}

/// The first figure of kind `kind` that any line of `report` holds under
/// `key`.
pub fn find_first_figure(report: &[char], kind: Figure, key: &[char]) -> (figure: Option<u64>)
    ensures
        figure == first_figure(lines(report@), kind, key@),
{
    let mut at: usize = 0;
    assert(report@.skip(0) =~= report@);
    while at < report.len()
        invariant
            at <= report.len(),
            first_figure(lines(report@), kind, key@) == first_figure(
                lines(report@.skip(at as int)),
                kind,
                key@,
            ),
        decreases report.len() - at,
    {
        let (end, next) = first_line(report, at);
        let line = slice_subrange(report, at, end);
        proof {
            let rest = lines(report@.skip(next as int));
            assert((seq![line@] + rest).drop_first() =~= rest);
            assert((seq![line@] + rest)[0] == line@);
        }
        match read_figure(kind, key, line) {
            Some(n) => {
                return Some(n);
            },
            None => {},
        }
        at = next;
    }
    assert(report@.skip(at as int) =~= Seq::<char>::empty());
    None
}

/// The sum of the figures of kind `kind` that the lines of `report` hold
/// under `key`.
pub fn add_up_figures(report: &[char], kind: Figure, key: &[char]) -> (sum: Option<u128>)
    ensures
        amount_of(sum) == sum_of_figures(lines(report@), kind, key@),
{
    let mut sum: Option<u128> = None;
    let mut at: usize = 0;
    assert(report@.skip(0) =~= report@);
    while at < report.len()
        invariant
            at <= report.len(),
            sum_of_figures(lines(report@), kind, key@) == plus(
                amount_of(sum),
                sum_of_figures(lines(report@.skip(at as int)), kind, key@),
            ),
            match sum {
                Some(n) => n <= at * u64::MAX,
                None => true,
            },
        decreases report.len() - at,
    {
        let (end, next) = first_line(report, at);
        let line = slice_subrange(report, at, end);
        proof {
            let rest = lines(report@.skip(next as int));
            assert((seq![line@] + rest).drop_first() =~= rest);
            assert((seq![line@] + rest)[0] == line@);
            assert(at * u64::MAX + u64::MAX <= next * u64::MAX) by (nonlinear_arith)
                requires
                    at < next,
            ;
            assert(next * u64::MAX <= usize::MAX * u64::MAX) by (nonlinear_arith)
                requires
                    next <= usize::MAX,
            ;
            assert(usize::MAX * u64::MAX <= u128::MAX) by (nonlinear_arith)
                requires
                    usize::MAX <= u64::MAX,
            ;
        }
        match read_figure(kind, key, line) {
            Some(n) => {
                sum = match sum {
                    Some(before) => Some(before + n as u128),
                    None => Some(n as u128),
                };
            },
            None => {},
        }
        at = next;
    }
    assert(report@.skip(at as int) =~= Seq::<char>::empty());
    sum
}

/// An amount held in a `u128` as an amount.
pub open spec fn amount_of(sum: Option<u128>) -> Option<nat> {
    match sum {
        Some(n) => Some(n as nat),
        None => None,
    }
}

/// The bounds in `report` of its second line.
pub fn second_line(report: &[char]) -> (bounds: Option<(usize, usize)>)
    ensures
        match bounds {
            Some((a, b)) => a <= b <= report.len() && lines(report@).len() >= 2 && lines(
                report@,
            )[1] == report@.subrange(a as int, b as int),
            None => lines(report@).len() < 2,
        },
{
    assert(report@.skip(0) =~= report@);
    if report.len() == 0 {
        return None;
    }
    let (_, next) = first_line(report, 0);
    if next >= report.len() {
        assert(report@.skip(next as int) =~= Seq::<char>::empty());
        return None;
    }
    let (end, after) = first_line(report, next);
    Some((next, end))
}

} // verus!
