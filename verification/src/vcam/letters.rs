//! The letters on the page that stands in for a picture: small capitals, five dots wide and seven high.
use vstd::prelude::*;

verus! {

/// Columns and rows of a letter.
pub const LETTER_W: usize = 5;

pub const LETTER_H: usize = 7;

/// Columns from one letter to the next.
pub const LETTER_STEP: usize = 6;

/// The dots of a letter, row by row from the top, each from the left; the lowest bit is the first dot. Other characters
/// are blank.
#[verifier::allow_in_spec]
pub fn letter(c: char) -> u64
    returns
        (match c {
            'a' => 0x4631fc62e,
            'b' => 0x3e317c62f,
            'c' => 0x3a210862e,
            'd' => 0x3e318c62f,
            'e' => 0x7c217843f,
            'f' => 0x4217843f,
            'g' => 0x7a31e862e,
            'h' => 0x4631fc631,
            'i' => 0x38842108e,
            'j' => 0x19284211c,
            'k' => 0x452519531,
            'l' => 0x7c2108421,
            'm' => 0x4631ad771,
            'n' => 0x4639ace31,
            'o' => 0x3a318c62e,
            'p' => 0x4217c62f,
            'q' => 0x59358c62e,
            'r' => 0x45257c62f,
            's' => 0x3e107043e,
            't' => 0x10842109f,
            'u' => 0x3a318c631,
            'v' => 0x11518c631,
            'w' => 0x2ab5ac631,
            'x' => 0x462a22a31,
            'y' => 0x108454631,
            'z' => 0x7c222221f,
            _ => 0u64,
        }),
{
    match c {
        'a' => 0x4631fc62e,
        'b' => 0x3e317c62f,
        'c' => 0x3a210862e,
        'd' => 0x3e318c62f,
        'e' => 0x7c217843f,
        'f' => 0x4217843f,
        'g' => 0x7a31e862e,
        'h' => 0x4631fc631,
        'i' => 0x38842108e,
        'j' => 0x19284211c,
        'k' => 0x452519531,
        'l' => 0x7c2108421,
        'm' => 0x4631ad771,
        'n' => 0x4639ace31,
        'o' => 0x3a318c62e,
        'p' => 0x4217c62f,
        'q' => 0x59358c62e,
        'r' => 0x45257c62f,
        's' => 0x3e107043e,
        't' => 0x10842109f,
        'u' => 0x3a318c631,
        'v' => 0x11518c631,
        'w' => 0x2ab5ac631,
        'x' => 0x462a22a31,
        'y' => 0x108454631,
        'z' => 0x7c222221f,
        _ => 0,
    }
}

/// The letter has a dot in this column and row.
pub open spec fn dot(c: char, col: int, row: int) -> bool {
    (letter(c) >> ((row * LETTER_W + col) as u64)) & 1 == 1
}

pub fn has_dot(c: char, col: usize, row: usize) -> (r: bool)
    requires
        col < LETTER_W,
        row < LETTER_H,
    ensures
        r == dot(c, col as int, row as int),
{
    let k: u64 = (row * LETTER_W + col) as u64;
    (letter(c) >> k) & 1 == 1
}

/// Pixels to a dot, on a page of this width.
pub open spec fn scale_of(w: int) -> int {
    if w < 640 {
        1
    } else {
        w / 320
    }
}

/// As many letters stand on the page as fit in one line.
pub open spec fn letters_of(w: int, len: int) -> int {
    let most = w / (LETTER_STEP * scale_of(w));
    if len < most {
        len
    } else {
        most
    }
}

/// The first column of the words: they stand in the middle.
pub open spec fn left_of(w: int, len: int) -> int {
    (w - LETTER_STEP * scale_of(w) * letters_of(w, len)) / 2
}

/// The first row of the words: the middle of the page, or its top where they are too high for it.
pub open spec fn top_of(w: int, h: int) -> int {
    let high = LETTER_H * scale_of(w);
    if high <= h {
        (h - high) / 2
    } else {
        0
    }
}

/// The words cover this pixel of the page.
pub open spec fn is_ink(text: Seq<char>, w: int, h: int, x: int, y: int) -> bool {
    let s = scale_of(w);
    let cell = LETTER_STEP * s;
    let dx = x - left_of(w, text.len() as int);
    let dy = y - top_of(w, h);
    &&& 0 <= dx < cell * letters_of(w, text.len() as int)
    &&& 0 <= dy < LETTER_H * s
    &&& dx % cell / s < LETTER_W
    &&& dot(text[dx / cell], dx % cell / s, dy / s)
}

/// Where the words stand on a page.
#[derive(Clone, Copy, Debug, PartialEq, Eq, Structural)]
pub struct Line {
    pub scale: usize,
    /// Pixels from one letter to the next.
    pub cell: usize,
    pub letters: usize,
    pub left: usize,
    pub top: usize,
}

/// This is where `len` letters stand on a page of `w` by `h` pixels.
pub open spec fn is_line(l: Line, w: int, h: int, len: int) -> bool {
    &&& l.scale == scale_of(w)
    &&& l.cell == LETTER_STEP * scale_of(w)
    &&& l.letters == letters_of(w, len)
    &&& l.left == left_of(w, len)
    &&& l.top == top_of(w, h)
}

proof fn lemma_line_fits(w: int, cell: int, letters: int)
    requires
        0 <= w,
        0 < cell,
        0 <= letters <= w / cell,
    ensures
        0 <= cell * letters <= w,
{
    assert(0 <= cell * letters <= w) by (nonlinear_arith)
        requires
            0 <= w,
            0 < cell,
            0 <= letters <= w / cell,
    ;
}

pub fn line(w: usize, h: usize, len: usize) -> (l: Line)
    ensures
        is_line(l, w as int, h as int, len as int),
{
    let scale: usize = if w < 640 {
        1
    } else {
        w / 320
    };
    let cell: usize = LETTER_STEP * scale;
    let most: usize = w / cell;
    let letters: usize = if len < most {
        len
    } else {
        most
    };
    proof {
        lemma_line_fits(w as int, cell as int, letters as int);
    }
    let left: usize = (w - cell * letters) / 2;
    let high: usize = LETTER_H * scale;
    let top: usize = if high <= h {
        (h - high) / 2
    } else {
        0
    };
    Line { scale, cell, letters, left, top }
}

impl Line {
    /// Whether the words cover this pixel of the page.
    pub(crate) fn covers(
        &self,
        text: &[char],
        x: usize,
        y: usize,
        Ghost(w): Ghost<int>,
        Ghost(h): Ghost<int>,
    ) -> (r: bool)
        requires
            0 <= w,
            is_line(*self, w, h, text@.len() as int),
        ensures
            r == is_ink(text@, w, h, x as int, y as int),
    {
        if x < self.left || y < self.top {
            return false;
        }
        let dx: usize = x - self.left;
        let dy: usize = y - self.top;
        let k: usize = dx / self.cell;
        let col: usize = dx % self.cell / self.scale;
        let row: usize = dy / self.scale;
        proof {
            lemma_cell(dx as int, self.cell as int, self.letters as int);
            lemma_cell(dy as int, self.scale as int, LETTER_H as int);
            assert(self.scale * LETTER_H == LETTER_H * self.scale) by (nonlinear_arith);
        }
        k < self.letters && row < LETTER_H && col < LETTER_W && has_dot(text[k], col, row)
    }
}

/// A point stands in one of the first `n` cells if and only if it stands before the end of them.
proof fn lemma_cell(d: int, cell: int, n: int)
    requires
        0 <= d,
        0 < cell,
    ensures
        d / cell < n <==> d < cell * n,
        0 <= d / cell,
{
    assert(d / cell < n <==> d < cell * n) by (nonlinear_arith)
        requires
            0 <= d,
            0 < cell,
    ;
    assert(0 <= d / cell) by (nonlinear_arith)
        requires
            0 <= d,
            0 < cell,
    ;
}

} // verus!
