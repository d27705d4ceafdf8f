//! Line positions in UTF-8 text: where each (0-based) line begins, with
//! lines separated by `\n`.

use vstd::prelude::*;
use vstd::string::StringSliceAdditionalSpecFns;

verus! {

pub open spec fn LF() -> u8 { 10u8 }

/// Byte offset where line `i` of `b[from..]` begins (counting lines from
/// `from`): just after the `i`-th newline, or `None` when there are fewer
/// than `i` newlines.
pub open spec fn line_start_from(b: Seq<u8>, i: nat, from: int) -> Option<int>
    decreases i, b.len() - from,
{
    if i == 0 {
        Some(from)
    } else if from < 0 || from >= b.len() {
        None
    } else if b[from] == LF() {
        line_start_from(b, (i - 1) as nat, from + 1)
    } else {
        line_start_from(b, i, from + 1)
    }
}

/// Byte offset where 0-based line `i` of `b` begins.
pub open spec fn line_start(b: Seq<u8>, i: nat) -> Option<int> {
    line_start_from(b, i, 0)
}

pub proof fn lemma_line_start_bounds(b: Seq<u8>, i: nat, from: int)
    requires
        0 <= from <= b.len(),
    ensures
        line_start_from(b, i, from) matches Some(p) ==> from <= p <= b.len(),
    decreases i, b.len() - from,
{
    if i == 0 {
    } else if from >= b.len() {
    } else if b[from] == LF() {
        lemma_line_start_bounds(b, (i - 1) as nat, from + 1);
    } else {
        lemma_line_start_bounds(b, i, from + 1);
    }
}

/// Byte offset where 0-based line `i` begins, if the text has that line.
pub fn line_to_byte(text: &str, i: usize) -> (r: Option<usize>)
    ensures
        match r {
            Some(p) => line_start(text.spec_bytes(), i as nat) == Some(p as int),
            None => line_start(text.spec_bytes(), i as nat) is None,
        },
{
    let b = text.as_bytes();
    let mut pos: usize = 0;
    let mut left: usize = i;
    proof {
        lemma_line_start_bounds(b@, i as nat, 0);
    }
    while left > 0
        invariant
            0 <= pos <= b@.len(),
            b@ == text.spec_bytes(),
            line_start_from(b@, left as nat, pos as int) == line_start(b@, i as nat),
        decreases left, b@.len() - pos,
    {
        if pos >= b.len() {
            return None;
        }
        if b[pos] == 10u8 {
            left = left - 1;
        }
        pos = pos + 1;
    }
    Some(pos)
}

} // verus!

verus! {

/// Number of `\n` bytes in `b[from..]`.
pub open spec fn newline_count_from(b: Seq<u8>, from: int) -> nat
    decreases b.len() - from,
{
    if from < 0 || from >= b.len() {
        0
    } else if b[from] == LF() {
        1 + newline_count_from(b, from + 1)
    } else {
        newline_count_from(b, from + 1)
    }
}


/// Line `i` starts somewhere exactly when the text has at least `i` newlines.
pub proof fn lemma_line_start_exists(b: Seq<u8>, i: nat, from: int)
    requires
        0 <= from <= b.len(),
    ensures
        line_start_from(b, i, from) is Some <==> i <= newline_count_from(b, from),
    decreases i, b.len() - from,
{
    if i == 0 {
    } else if from >= b.len() {
    } else if b[from] == LF() {
        lemma_line_start_exists(b, (i - 1) as nat, from + 1);
    } else {
        lemma_line_start_exists(b, i, from + 1);
    }
}

/// The number of `\n` bytes in `text`.
pub fn count_newlines(text: &str) -> (r: usize)
    ensures
        r == newline_count_from(text.spec_bytes(), 0),
{
    let b = text.as_bytes();
    let mut n: usize = 0;
    let mut pos: usize = b.len();
    while pos > 0
        invariant
            0 <= pos <= b@.len(),
            b@ == text.spec_bytes(),
            n == newline_count_from(b@, pos as int),
            n <= b@.len() - pos,
        decreases pos,
    {
        pos = pos - 1;
        if b[pos] == 10u8 {
            n = n + 1;
        }
    }
    n
}

/// Line `i` (counted from `from`) begins just after the `i`-th newline:
/// exactly `i` newlines lie between `from` and its start, and for `i > 0`
/// the byte before its start is that newline.
pub proof fn law_line_start_after_newlines(b: Seq<u8>, i: nat, from: int)
    requires
        0 <= from <= b.len(),
        line_start_from(b, i, from) is Some,
    ensures
        ({
            let p = line_start_from(b, i, from)->Some_0;
            &&& from <= p <= b.len()
            &&& i == 0 ==> p == from
            &&& i > 0 ==> p > from && b[p - 1] == LF()
            &&& newline_count_from(b.take(p), from) == i
        }),
    decreases i, b.len() - from,
{
    let p = line_start_from(b, i, from)->Some_0;
    if i == 0 {
    } else if b[from] == LF() {
        law_line_start_after_newlines(b, (i - 1) as nat, from + 1);
        assert(b.take(p)[from] == b[from]);
        if i == 1 {
            assert(p == from + 1);
        }
    } else {
        law_line_start_after_newlines(b, i, from + 1);
        assert(b.take(p)[from] == b[from]);
    }
}

} // verus!
