//! Pictures in I420 (a plane of brightness, then two planes of colour at half the size): turned upright and fitted into
//! the camera's canvas, turned into RGBA for the preview, and the page that stands in for a picture.
use vstd::prelude::*;

use crate::receiver::video::{even, upright_size, Picture};
use crate::text::chars_of;
use crate::vcam::i420_len;
use crate::vcam::letters::{is_ink, is_line, line};

verus! {

/// Black.
pub const BLACK_Y: u8 = 16;

/// The words on a page.
pub const INK_Y: u8 = 200;

/// No colour.
pub const GREY_UV: u8 = 128;

/// The picture is not empty, and its planes hold every point of it.
pub open spec fn usable(p: Picture) -> bool {
    &&& 0 < p.width
    &&& 0 < p.height
    &&& (p.height - 1) * p.y_stride + p.width <= p.y@.len()
    &&& (p.height - 1) / 2 * p.uv_stride + (p.width + 1) / 2 <= p.u@.len()
    &&& (p.height - 1) / 2 * p.uv_stride + (p.width + 1) / 2 <= p.v@.len()
}

proof fn lemma_product(a: usize, b: usize)
    ensures
        0 <= a * b <= usize::MAX * usize::MAX,
        usize::MAX * usize::MAX + 2 * usize::MAX <= u128::MAX,
{
    assert(0 <= a * b <= usize::MAX * usize::MAX) by (nonlinear_arith)
        requires
            0 <= a <= usize::MAX,
            0 <= b <= usize::MAX,
    ;
    assert(usize::MAX * usize::MAX <= 0xFFFF_FFFF_FFFF_FFFF * 0xFFFF_FFFF_FFFF_FFFF) by (nonlinear_arith)
        requires
            0 <= usize::MAX <= 0xFFFF_FFFF_FFFF_FFFF,
    ;
}

/// Whether a picture's planes hold what its size promises.
pub fn is_usable(p: &Picture) -> (r: bool)
    ensures
        r == usable(*p),
{
    if p.width == 0 || p.height == 0 {
        return false;
    }
    let last: usize = p.height - 1;
    let half: usize = last / 2;
    proof {
        lemma_product(last, p.y_stride);
        lemma_product(half, p.uv_stride);
    }
    let ys: u128 = last as u128 * p.y_stride as u128 + p.width as u128;
    let uvs: u128 = half as u128 * p.uv_stride as u128 + (p.width as u128 + 1) / 2;
    ys <= p.y.len() as u128 && uvs <= p.u.len() as u128 && uvs <= p.v.len() as u128
}

/// Where a picture lies in a canvas.
#[derive(Clone, Copy, Debug, PartialEq, Eq, Structural)]
pub struct Place {
    pub x: usize,
    pub y: usize,
    pub width: usize,
    pub height: usize,
}

/// The longer of the two ways to fit does not; the other fills the canvas in one direction. Sides and corners are even.
pub open spec fn place_of(rw: int, rh: int, w: int, h: int) -> (int, int, int, int) {
    let (fw, fh) = if rw * h > rh * w {
        (w, even(rh * w / rw))
    } else {
        (even(rw * h / rh), h)
    };
    (even((w - fw) / 2), even((h - fh) / 2), fw, fh)
}

/// Where an upright picture of `rw` by `rh` lies in a canvas of `w` by `h`: as large as it can be in its own
/// proportions, in the middle.
pub fn fitted(rw: usize, rh: usize, w: usize, h: usize) -> (p: Place)
    requires
        0 < rw,
        0 < rh,
        0 < w,
        0 < h,
    ensures
        (p.x as int, p.y as int, p.width as int, p.height as int) == place_of(
            rw as int,
            rh as int,
            w as int,
            h as int,
        ),
        p.x + p.width <= w,
        p.y + p.height <= h,
{
    proof {
        lemma_product(rw, h);
        lemma_product(rh, w);
    }
    let a: u128 = rw as u128 * h as u128;
    let b: u128 = rh as u128 * w as u128;
    assert(a == rw * h && b == rh * w);
    let (fw, fh): (usize, usize) = if a > b {
        assert(b as int / rw as int <= h) by (nonlinear_arith)
            requires
                b == rh * w,
                rw * h > b,
                rw > 0,
        ;
        let n: usize = (b / rw as u128) as usize;
        (w, n - n % 2)
    } else {
        assert(a as int / rh as int <= w) by (nonlinear_arith)
            requires
                a == rw * h,
                a <= rh * w,
                rh > 0,
        ;
        let n: usize = (a / rh as u128) as usize;
        (n - n % 2, h)
    };
    let x: usize = (w - fw) / 2;
    let y: usize = (h - fh) / 2;
    Place { x: x - x % 2, y: y - y % 2, width: fw, height: fh }
}

/// The point of a picture of `w` by `h` that comes to stand at `x`, `y` when it is turned upright by `rotation` quarter
/// turns clockwise.
pub open spec fn turned(w: int, h: int, rotation: u8, x: int, y: int) -> (int, int) {
    if rotation % 4 == 0 {
        (x, y)
    } else if rotation % 4 == 1 {
        (y, h - 1 - x)
    } else if rotation % 4 == 2 {
        (w - 1 - x, h - 1 - y)
    } else {
        (w - 1 - y, x)
    }
}

/// Where the point `x`, `y` of a canvas comes from in a picture that lies at `at`: nothing outside of it.
pub open spec fn source_of(p: Picture, rotation: u8, at: Place, x: int, y: int) -> Option<(int, int)> {
    let (rw, rh) = upright_size(p.width, p.height, rotation);
    if at.x <= x < at.x + at.width && at.y <= y < at.y + at.height {
        Some(
            turned(
                p.width as int,
                p.height as int,
                rotation,
                (x - at.x) * rw / at.width as int,
                (y - at.y) * rh / at.height as int,
            ),
        )
    } else {
        None
    }
}

fn source(p: &Picture, rotation: u8, at: &Place, x: usize, y: usize) -> (r: Option<(usize, usize)>)
    requires
        usable(*p),
        at.x + at.width <= usize::MAX,
        at.y + at.height <= usize::MAX,
    ensures
        r is Some <==> source_of(*p, rotation, *at, x as int, y as int) is Some,
        r matches Some((sx, sy)) ==> sx < p.width && sy < p.height && source_of(
            *p,
            rotation,
            *at,
            x as int,
            y as int,
        ) == Some((sx as int, sy as int)),
{
    if x < at.x || x >= at.x + at.width || y < at.y || y >= at.y + at.height {
        return None;
    }
    let quarter = rotation % 2 == 1;
    let (rw, rh): (usize, usize) = if quarter {
        (p.height, p.width)
    } else {
        (p.width, p.height)
    };
    let dx: usize = x - at.x;
    let dy: usize = y - at.y;
    proof {
        lemma_product(dx, rw);
        lemma_product(dy, rh);
    }
    let nx: u128 = dx as u128 * rw as u128;
    let ny: u128 = dy as u128 * rh as u128;
    assert(nx == dx * rw && ny == dy * rh);
    assert(nx as int / at.width as int <= rw - 1) by (nonlinear_arith)
        requires
            nx == dx * rw,
            dx < at.width,
            rw > 0,
    ;
    assert(ny as int / at.height as int <= rh - 1) by (nonlinear_arith)
        requires
            ny == dy * rh,
            dy < at.height,
            rh > 0,
    ;
    let ux: usize = (nx / at.width as u128) as usize;
    let uy: usize = (ny / at.height as u128) as usize;
    let turn: u8 = rotation % 4;
    if turn == 0 {
        Some((ux, uy))
    } else if turn == 1 {
        Some((uy, p.height - 1 - ux))
    } else if turn == 2 {
        Some((p.width - 1 - ux, p.height - 1 - uy))
    } else {
        Some((p.width - 1 - uy, ux))
    }
}

/// The brightness at `x`, `y` of the canvas.
pub open spec fn luma_of(p: Picture, rotation: u8, at: Place, x: int, y: int) -> u8 {
    match source_of(p, rotation, at, x, y) {
        Some((sx, sy)) => p.y@[sy * p.y_stride + sx],
        None => BLACK_Y,
    }
}

/// The colour at `x`, `y` of a plane of colour of the canvas: that of the first of the four points which share it.
pub open spec fn chroma_of(p: Picture, plane: Seq<u8>, rotation: u8, at: Place, x: int, y: int) -> u8 {
    match source_of(p, rotation, at, 2 * x, 2 * y) {
        Some((sx, sy)) => plane[sy / 2 * p.uv_stride + sx / 2],
        None => GREY_UV,
    }
}

/// The canvas: `w * h` bytes of brightness, then two planes of a quarter of that.
pub open spec fn composed(p: Picture, rotation: u8, at: Place, w: int, h: int) -> Seq<u8> {
    let n = w * h;
    Seq::new(
        i420_len(w, h) as nat,
        |i: int|
            if i < n {
                luma_of(p, rotation, at, i % w, i / w)
            } else if i < n + n / 4 {
                chroma_of(p, p.u@, rotation, at, (i - n) % (w / 2), (i - n) / (w / 2))
            } else {
                chroma_of(p, p.v@, rotation, at, (i - n - n / 4) % (w / 2), (i - n - n / 4) / (w / 2))
            },
    )
}

/// A canvas of `w` by `h` with the picture turned upright and fitted in.
pub open spec fn canvas_of(p: Picture, rotation: u8, w: int, h: int) -> Seq<u8> {
    let (rw, rh) = upright_size(p.width, p.height, rotation);
    let at = place_of(rw as int, rh as int, w, h);
    composed(
        p,
        rotation,
        Place { x: at.0 as usize, y: at.1 as usize, width: at.2 as usize, height: at.3 as usize },
        w,
        h,
    )
}

proof fn lemma_row(rows: int, stride: int, row: int, col: int)
    requires
        0 <= row < rows,
        0 <= col < stride,
    ensures
        0 <= row * stride + col < rows * stride,
        0 <= row * stride,
{
    assert(0 <= row * stride + col < rows * stride) by (nonlinear_arith)
        requires
            0 <= row,
            row + 1 <= rows,
            0 <= col < stride,
    ;
    assert(0 <= row * stride) by (nonlinear_arith)
        requires
            0 <= row,
            0 < stride,
    ;
}

/// No row begins behind the last one.
proof fn lemma_point(last: int, stride: int, row: int)
    requires
        0 <= row <= last,
        0 <= stride,
    ensures
        0 <= row * stride <= last * stride,
{
    assert(0 <= row * stride <= last * stride) by (nonlinear_arith)
        requires
            0 <= row <= last,
            0 <= stride,
    ;
}

fn luma(p: &Picture, rotation: u8, at: &Place, x: usize, y: usize) -> (b: u8)
    requires
        usable(*p),
        at.x + at.width <= usize::MAX,
        at.y + at.height <= usize::MAX,
    ensures
        b == luma_of(*p, rotation, *at, x as int, y as int),
{
    match source(p, rotation, at, x, y) {
        Some((sx, sy)) => {
            proof {
                lemma_point(p.height - 1, p.y_stride as int, sy as int);
            }
            let len: usize = p.y.len();
            assert(sy * p.y_stride + sx < len);
            p.y[sy * p.y_stride + sx]
        },
        None => BLACK_Y,
    }
}

fn chroma(p: &Picture, second: bool, rotation: u8, at: &Place, x: usize, y: usize) -> (b: u8)
    requires
        usable(*p),
        at.x + at.width <= usize::MAX,
        at.y + at.height <= usize::MAX,
        2 * x <= usize::MAX,
        2 * y <= usize::MAX,
    ensures
        b == chroma_of(
            *p,
            if second {
                p.v@
            } else {
                p.u@
            },
            rotation,
            *at,
            x as int,
            y as int,
        ),
{
    match source(p, rotation, at, 2 * x, 2 * y) {
        Some((sx, sy)) => {
            proof {
                lemma_point((p.height - 1) / 2, p.uv_stride as int, sy as int / 2);
            }
            let row: usize = sy / 2;
            if second {
                let len: usize = p.v.len();
                assert(row * p.uv_stride + sx / 2 < len);
                p.v[row * p.uv_stride + sx / 2]
            } else {
                let len: usize = p.u.len();
                assert(row * p.uv_stride + sx / 2 < len);
                p.u[row * p.uv_stride + sx / 2]
            }
        },
        None => GREY_UV,
    }
}

/// A canvas of `w` by `h` with the picture turned upright, fitted in, and black around it.
pub fn compose_i420(p: &Picture, rotation: u8, w: usize, h: usize) -> (out: Vec<u8>)
    requires
        usable(*p),
        0 < w,
        0 < h,
        w % 2 == 0,
        h % 2 == 0,
        w * h * 3 <= usize::MAX,
    ensures
        out@ == canvas_of(*p, rotation, w as int, h as int),
{
    let (rw, rh): (usize, usize) = if rotation % 2 == 1 {
        (p.height, p.width)
    } else {
        (p.width, p.height)
    };
    let at = fitted(rw, rh, w, h);
    assert(0 < w * h <= w * h * 3) by (nonlinear_arith)
        requires
            w > 0,
            h > 0,
    ;
    let n: usize = w * h;
    let cw: usize = w / 2;
    let ghost want = composed(*p, rotation, at, w as int, h as int);
    proof {
        let ch = h / 2;
        assert(w * h == 4 * (cw * ch)) by (nonlinear_arith)
            requires
                w == 2 * cw,
                h == 2 * ch,
        ;
    }
    let quarter: usize = n / 4;
    let total: usize = n * 3 / 2;
    let mut out: Vec<u8> = Vec::new();
    let mut i: usize = 0;
    while i < total
        invariant
            i <= total,
            n == w * h,
            cw == w / 2,
            0 < cw,
            quarter == n / 4,
            n == 4 * quarter,
            quarter == cw * (h / 2),
            total == n * 3 / 2,
            n * 3 <= usize::MAX,
            0 < w,
            0 < h,
            usable(*p),
            at.x + at.width <= w,
            at.y + at.height <= h,
            want == composed(*p, rotation, at, w as int, h as int),
            want.len() == total,
            out@ == want.take(i as int),
        decreases total - i,
    {
        let b: u8 = if i < n {
            luma(p, rotation, &at, i % w, i / w)
        } else {
            let second = i >= n + quarter;
            let k: usize = if second {
                i - n - quarter
            } else {
                i - n
            };
            assert(k as int / cw as int <= h / 2) by (nonlinear_arith)
                requires
                    k < cw * (h / 2),
                    cw > 0,
            ;
            chroma(p, second, rotation, &at, k % cw, k / cw)
        };
        assert(b == want[i as int]);
        out.push(b);
        assert(want.take(i as int + 1) =~= want.take(i as int).push(want[i as int]));
        i = i + 1;
    }
    assert(want.take(total as int) =~= want);
    out
}

/// A fitted picture never leaves the canvas, and fills it in one direction.
pub proof fn law_a_picture_fills_the_canvas_one_way(rw: int, rh: int, w: int, h: int)
    requires
        rw > 0,
        rh > 0,
        w > 0,
        h > 0,
    ensures
        place_of(rw, rh, w, h).2 == w || place_of(rw, rh, w, h).3 == h,
{
}

/// A number within a byte.
pub open spec fn clamped(v: int) -> u8 {
    if v < 0 {
        0
    } else if v > 255 {
        255
    } else {
        v as u8
    }
}

/// The colour of a point: BT.601, limited range, in 256ths.
pub open spec fn rgb_of(y: u8, u: u8, v: u8) -> (u8, u8, u8) {
    let c = 298 * (y - 16) + 128;
    let d = u - 128;
    let e = v - 128;
    (
        clamped((c + 409 * e) / 256),
        clamped((c - 100 * d - 208 * e) / 256),
        clamped((c + 516 * d) / 256),
    )
}

fn byte_of(v: i32) -> (b: u8)
    requires
        -1_000_000 <= v <= 1_000_000,
    ensures
        b == clamped(v as int / 256),
{
    if v < 0 {
        0
    } else if v / 256 > 255 {
        255
    } else {
        (v / 256) as u8
    }
}

/// Four bytes of each point of an I420 picture.
pub open spec fn rgba_of(i420: Seq<u8>, w: int, h: int) -> Seq<u8> {
    let n = w * h;
    Seq::new(
        (4 * n) as nat,
        |i: int|
            {
                let k = i / 4;
                let c = k / w / 2 * (w / 2) + k % w / 2;
                let rgb = rgb_of(i420[k], i420[n + c], i420[n + n / 4 + c]);
                if i % 4 == 0 {
                    rgb.0
                } else if i % 4 == 1 {
                    rgb.1
                } else if i % 4 == 2 {
                    rgb.2
                } else {
                    255
                }
            },
    )
}

/// An I420 picture as opaque RGBA.
pub fn i420_to_rgba(i420: &[u8], w: usize, h: usize) -> (out: Vec<u8>)
    requires
        0 < w,
        w % 2 == 0,
        h % 2 == 0,
        w * h * 4 <= usize::MAX,
        i420@.len() == i420_len(w as int, h as int),
    ensures
        out@ == rgba_of(i420@, w as int, h as int),
{
    assert(0 <= w * h <= w * h * 4) by (nonlinear_arith)
        requires
            w > 0,
            h >= 0,
    ;
    let n: usize = w * h;
    let cw: usize = w / 2;
    proof {
        let ch = h / 2;
        assert(w * h == 4 * (cw * ch)) by (nonlinear_arith)
            requires
                w == 2 * cw,
                h == 2 * ch,
        ;
    }
    let quarter: usize = n / 4;
    let ghost want = rgba_of(i420@, w as int, h as int);
    let mut out: Vec<u8> = Vec::new();
    let mut k: usize = 0;
    while k < n
        invariant
            k <= n,
            n == w * h,
            n * 4 <= usize::MAX,
            0 < w,
            cw == w / 2,
            w == 2 * cw,
            h % 2 == 0,
            quarter == n / 4,
            quarter == cw * (h / 2),
            i420@.len() == n * 3 / 2,
            n == 4 * quarter,
            want == rgba_of(i420@, w as int, h as int),
            want.len() == 4 * n,
            out@ == want.take(4 * k as int),
        decreases n - k,
    {
        let row: usize = k / w / 2;
        let col: usize = k % w / 2;
        proof {
            assert(k / w < h) by (nonlinear_arith)
                requires
                    k < w * h,
                    w > 0,
            ;
            lemma_row(h as int / 2, cw as int, row as int, col as int);
            assert(h as int / 2 * cw == cw * (h / 2)) by (nonlinear_arith);
        }
        assert(row * cw + col < quarter);
        let c: usize = row * cw + col;
        let y: i32 = i420[k] as i32;
        let u: i32 = i420[n + c] as i32;
        let v: i32 = i420[n + quarter + c] as i32;
        let base: i32 = 298 * (y - 16) + 128;
        let (r, g, b): (u8, u8, u8) = (
            byte_of(base + 409 * (v - 128)),
            byte_of(base - 100 * (u - 128) - 208 * (v - 128)),
            byte_of(base + 516 * (u - 128)),
        );
        let ghost i = 4 * k;
        assert((r, g, b) == rgb_of(i420@[k as int], i420@[n + c], i420@[n + n / 4 + c]));
        assert(i / 4 == k && (i + 1) / 4 == k && (i + 2) / 4 == k && (i + 3) / 4 == k);
        assert(want[i] == r && want[i + 1] == g && want[i + 2] == b && want[i + 3] == 255);
        out.push(r);
        out.push(g);
        out.push(b);
        out.push(255);
        assert(want.take(i + 4) =~= want.take(i).push(r).push(g).push(b).push(255));
        k = k + 1;
    }
    assert(want.take(4 * n as int) =~= want);
    out
}

/// The page that stands in for a picture: dark, with a dot at every crossing of a grid, and the words in its middle.
pub open spec fn page_of(w: int, h: int, text: Seq<char>) -> Seq<u8> {
    let n = w * h;
    Seq::new(
        i420_len(w, h) as nat,
        |i: int|
            if i < n {
                if is_ink(text, w, h, i % w, i / w) {
                    INK_Y
                } else if i % w % 24 < 3 && i / w % 24 < 3 {
                    64u8
                } else {
                    44u8
                }
            } else if i < n + n / 4 {
                138u8
            } else {
                124u8
            },
    )
}

/// The page that stands in for a picture, with a few words on what is going on.
pub fn placeholder_i420(w: usize, h: usize, text: &str) -> (out: Vec<u8>)
    requires
        0 < w,
        w * h * 3 <= usize::MAX,
    ensures
        out@ == page_of(w as int, h as int, text@),
{
    assert(0 <= w * h <= w * h * 3) by (nonlinear_arith)
        requires
            w > 0,
            h >= 0,
    ;
    let n: usize = w * h;
    let total: usize = n * 3 / 2;
    let ghost want = page_of(w as int, h as int, text@);
    let chars = chars_of(text);
    let words = line(w, h, chars.len());
    let mut out: Vec<u8> = Vec::new();
    let mut i: usize = 0;
    while i < total
        invariant
            i <= total,
            0 < w,
            n == w * h,
            n * 3 <= usize::MAX,
            total == n * 3 / 2,
            want == page_of(w as int, h as int, chars@),
            is_line(words, w as int, h as int, chars@.len() as int),
            want.len() == total,
            out@ == want.take(i as int),
        decreases total - i,
    {
        let b: u8 = if i < n {
            if words.covers(chars.as_slice(), i % w, i / w, Ghost(w as int), Ghost(h as int)) {
                INK_Y
            } else if i % w % 24 < 3 && i / w % 24 < 3 {
                64
            } else {
                44
            }
        } else if i < n + n / 4 {
            138
        } else {
            124
        };
        out.push(b);
        assert(want.take(i as int + 1) =~= want.take(i as int).push(want[i as int]));
        i = i + 1;
    }
    assert(want.take(total as int) =~= want);
    out
}

} // verus!
