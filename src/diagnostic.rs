use vstd::prelude::*;
use vstd::string::StringSliceAdditionalSpecFns;

verus! {

/// Where a byte offset falls in the source: its line, counted from 1, the
/// byte range of that line (without its newline), and its column counted
/// in characters from the start of the line.
#[derive(Debug, PartialEq, Eq, Clone, Copy, Structural)]
pub struct Caret {
    pub line_num: usize,
    pub line_start: usize,
    pub line_end: usize,
    pub col: usize,
}

/// The newlines among the first `k` bytes.
pub open spec fn newlines(b: Seq<u8>, k: int) -> nat
    decreases k,
{
    if k <= 0 {
        0
    } else {
        newlines(b, k - 1) + if b[k - 1] == 10 {
            1nat
        } else {
            0nat
        }
    }
}

/// The start of the line that byte `k` is on: just past the last newline
/// before it.
pub open spec fn line_start_of(b: Seq<u8>, k: int) -> int
    decreases k,
{
    if k <= 0 {
        0
    } else if b[k - 1] == 10 {
        k
    } else {
        line_start_of(b, k - 1)
    }
}

/// The first newline at or after `k`, or the end of the text.
pub open spec fn line_end_of(b: Seq<u8>, k: int) -> int
    decreases b.len() - k,
{
    if k >= b.len() {
        b.len() as int
    } else if b[k] == 10 {
        k
    } else {
        line_end_of(b, k + 1)
    }
}

/// The characters that start among the bytes `i .. j` (bytes that do not
/// continue a multi-byte character).
pub open spec fn chars_between(b: Seq<u8>, i: int, j: int) -> nat
    decreases j - i,
{
    if j <= i {
        0
    } else {
        chars_between(b, i, j - 1) + if (b[j - 1] & 0xC0) == 0x80 {
            0nat
        } else {
            1nat
        }
    }
}

/// Locates byte offset `pos` (at most the end of the text) in `exp`.
pub fn caret_at(exp: &str, pos: usize) -> (r: Caret)
    requires
        pos <= exp.spec_bytes().len(),
        pos < usize::MAX,
    ensures
        r.line_num == newlines(exp.spec_bytes(), pos as int) + 1,
        r.line_start == line_start_of(exp.spec_bytes(), pos as int),
        r.line_end == line_end_of(exp.spec_bytes(), pos as int),
        r.col == chars_between(exp.spec_bytes(), r.line_start as int, pos as int),
{
    let b = exp.as_bytes();
    let mut line_num: usize = 1;
    let mut line_start: usize = 0;
    let mut k: usize = 0;
    while k < pos
        invariant
            b@ == exp.spec_bytes(),
            pos <= b@.len(),
            pos < usize::MAX,
            k <= pos,
            line_num == newlines(b@, k as int) + 1,
            line_num <= k + 1,
            line_start == line_start_of(b@, k as int),
        decreases pos - k,
    {
        if b[k] == 10 {
            line_num = line_num + 1;
            line_start = k + 1;
        }
        k = k + 1;
    }
    let mut line_end: usize = pos;
    while line_end < b.len() && b[line_end] != 10
        invariant
            b@ == exp.spec_bytes(),
            pos <= line_end <= b@.len(),
            line_end_of(b@, pos as int) == line_end_of(b@, line_end as int),
        decreases b@.len() - line_end,
    {
        line_end = line_end + 1;
    }
    proof { lemma_line_start_le(b@, pos as int); }
    let mut col: usize = 0;
    let mut j: usize = line_start;
    while j < pos
        invariant
            line_start <= j <= pos <= b@.len(),
            col == chars_between(b@, line_start as int, j as int),
            col <= j - line_start,
        decreases pos - j,
    {
        if (b[j] & 0xC0) != 0x80 {
            col = col + 1;
        }
        j = j + 1;
    }
    Caret { line_num, line_start, line_end, col }
}

pub proof fn lemma_line_start_le(b: Seq<u8>, k: int)
    requires
        0 <= k,
    ensures
        0 <= line_start_of(b, k) <= k,
    decreases k,
{
    if k > 0 && b[k - 1] != 10 {
        lemma_line_start_le(b, k - 1);
    }
}

} // verus!
