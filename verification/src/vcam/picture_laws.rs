//! What holds of composed pictures, point by point: where each point of the canvas comes from, and which colour each
//! point of the preview has.
use vstd::arithmetic::div_mod::lemma_fundamental_div_mod_converse;
use vstd::prelude::*;

use crate::receiver::video::Picture;
use crate::vcam::frame::{canvas_of, place_of, rgba_of, usable};

verus! {

/// The sides of a picture once it was turned upright.
pub open spec fn sides(p: Picture, rotation: u8) -> (int, int) {
    if rotation % 4 == 1 || rotation % 4 == 3 {
        (p.height as int, p.width as int)
    } else {
        (p.width as int, p.height as int)
    }
}

/// A picture of `rw` by `rh` fits into a canvas of `w` by `h` like this: it fills one direction, keeps its proportions
/// in the other up to less than two points, and stands in the middle, up to less than four points.
pub proof fn law_a_fitted_picture_keeps_its_proportions(rw: int, rh: int, w: int, h: int)
    requires
        0 < rw,
        0 < rh,
        0 < w,
        0 < h,
    ensures
        ({
            let (x, y, fw, fh) = place_of(rw, rh, w, h);
            &&& 0 <= x && 0 <= y && 0 <= fw && 0 <= fh
            &&& x + fw <= w && y + fh <= h
            &&& x % 2 == 0 && y % 2 == 0
            &&& rw * h > rh * w ==> fw == w && fh % 2 == 0 && fh * rw <= rh * w < (fh + 2) * rw
            &&& rw * h <= rh * w ==> fh == h && fw % 2 == 0 && fw * rh <= rw * h < (fw + 2) * rh
            &&& 2 * x <= w - fw < 2 * x + 4
            &&& 2 * y <= h - fh < 2 * y + 4
        }),
{
    let (x, y, fw, fh) = place_of(rw, rh, w, h);
    assert(0 <= rh * w && 0 <= rw * h) by (nonlinear_arith)
        requires
            0 < rw,
            0 < rh,
            0 < w,
            0 < h,
    ;
    if rw * h > rh * w {
        lemma_even_quotient(rh * w, rw, fh);
        assert(fh <= h) by (nonlinear_arith)
            requires
                fh * rw <= rh * w,
                rh * w < rw * h,
                0 < rw,
        ;
    } else {
        lemma_even_quotient(rw * h, rh, fw);
        assert(fw <= w) by (nonlinear_arith)
            requires
                fw * rh <= rw * h,
                rw * h <= rh * w,
                0 < rh,
        ;
    }
}

/// The even number nearest below a quotient.
proof fn lemma_even_quotient(n: int, d: int, e: int)
    requires
        0 <= n,
        0 < d,
        e == n / d - n / d % 2,
    ensures
        0 <= e,
        e % 2 == 0,
        e * d <= n < (e + 2) * d,
{
    let q = n / d;
    assert(q * d <= n < (q + 1) * d && 0 <= q) by (nonlinear_arith)
        requires
            0 <= n,
            0 < d,
            q == n / d,
    ;
    assert(e * d <= q * d && (q + 1) * d <= (e + 2) * d) by (nonlinear_arith)
        requires
            e <= q < e + 2,
            0 < d,
    ;
}

/// The point at column `x`, row `y` of a picture that stands upright is this one of the picture as it came: turned by
/// no, one, two or three quarters, clockwise.
pub open spec fn came_from(p: Picture, rotation: u8, x: int, y: int) -> (int, int) {
    let (w, h) = (p.width as int, p.height as int);
    match rotation % 4 {
        0 => (x, y),
        1 => (y, h - 1 - x),
        2 => (w - 1 - x, h - 1 - y),
        _ => (w - 1 - y, x),
    }
}

proof fn lemma_index(w: int, h: int, x: int, y: int)
    requires
        0 <= x < w,
        0 <= y < h,
    ensures
        0 <= y * w + x < w * h,
        (y * w + x) / w == y,
        (y * w + x) % w == x,
{
    lemma_fundamental_div_mod_converse(y * w + x, w, y, x);
    assert(0 <= y * w + x < w * h) by (nonlinear_arith)
        requires
            0 <= x < w,
            0 <= y,
            y + 1 <= h,
    ;
}

proof fn lemma_quarter(w: int, h: int)
    requires
        0 < w,
        0 < h,
        w % 2 == 0,
        h % 2 == 0,
    ensures
        w * h == 4 * ((w / 2) * (h / 2)),
        w * h * 3 / 2 == 6 * ((w / 2) * (h / 2)),
        0 < (w / 2) * (h / 2),
{
    let (a, b) = (w / 2, h / 2);
    assert(w * h == 4 * (a * b)) by (nonlinear_arith)
        requires
            w == 2 * a,
            h == 2 * b,
    ;
    assert(0 < a * b) by (nonlinear_arith)
        requires
            0 < a,
            0 < b,
    ;
}

/// `s` is where the point `d` of `f` lies when `f` points show `r`: the one whose share it stands in.
pub open spec fn shares(d: int, f: int, r: int, s: int) -> bool {
    0 <= d < f && s * f <= d * r < (s + 1) * f
}

proof fn lemma_shares(d: int, f: int, r: int, s: int)
    requires
        shares(d, f, r, s),
        0 < r,
    ensures
        d * r / f == s,
        0 <= s < r,
{
    assert(s == d * r / f) by {
        let m = d * r - s * f;
        assert((s + 1) * f == s * f + f) by (nonlinear_arith);
        lemma_fundamental_div_mod_converse(d * r, f, s, m);
    }
    assert(0 <= s < r) by (nonlinear_arith)
        requires
            s * f <= d * r < (s + 1) * f,
            0 <= d < f,
            0 < r,
    ;
}

/// Each point of the canvas that the picture covers shows the point of the picture whose share it stands in, turned
/// upright: `sx`, `sy` are its column and row once the picture stands. Every other point is black.
pub proof fn law_the_canvas_shows_the_picture(
    p: Picture,
    rotation: u8,
    w: usize,
    h: usize,
    x: int,
    y: int,
    sx: int,
    sy: int,
)
    requires
        usable(p),
        0 < w,
        0 < h,
        w % 2 == 0,
        h % 2 == 0,
        0 <= x < w,
        0 <= y < h,
    ensures
        canvas_of(p, rotation, w as int, h as int).len() == w * h + 2 * ((w as int / 2) * (h as int / 2)),
        ({
            let (rw, rh) = sides(p, rotation);
            let (px, py, fw, fh) = place_of(rw, rh, w as int, h as int);
            let shown = canvas_of(p, rotation, w as int, h as int)[y * w + x];
            let (cx, cy) = came_from(p, rotation, sx, sy);
            &&& shares(x - px, fw, rw, sx) && shares(y - py, fh, rh, sy) ==> 0 <= cx < p.width && 0 <= cy < p.height
                && shown == p.y@[cy * p.y_stride + cx]
            &&& x < px || x >= px + fw || y < py || y >= py + fh ==> shown == 16
        }),
{
    let (rw, rh) = sides(p, rotation);
    let (px, py, fw, fh) = place_of(rw, rh, w as int, h as int);
    law_a_fitted_picture_keeps_its_proportions(rw, rh, w as int, h as int);
    lemma_index(w as int, h as int, x, y);
    lemma_quarter(w as int, h as int);
    if shares(x - px, fw, rw, sx) && shares(y - py, fh, rh, sy) {
        lemma_shares(x - px, fw, rw, sx);
        lemma_shares(y - py, fh, rh, sy);
    }
}

/// The same of the colours: the colour at column `x`, row `y` of a plane of the canvas is that of the point at twice
/// the column and row, taken from the picture's plane, where four points share one colour. `second` is the plane
/// behind, V.
pub proof fn law_the_canvas_shows_the_colours(
    p: Picture,
    rotation: u8,
    w: usize,
    h: usize,
    second: bool,
    x: int,
    y: int,
    sx: int,
    sy: int,
)
    requires
        usable(p),
        0 < w,
        0 < h,
        w % 2 == 0,
        h % 2 == 0,
        0 <= x < w / 2,
        0 <= y < h / 2,
    ensures
        ({
            let (rw, rh) = sides(p, rotation);
            let (px, py, fw, fh) = place_of(rw, rh, w as int, h as int);
            let quarter = (w as int / 2) * (h as int / 2);
            let first = if second {
                w * h + quarter
            } else {
                (w * h) as int
            };
            let plane = if second {
                p.v@
            } else {
                p.u@
            };
            let shown = canvas_of(p, rotation, w as int, h as int)[first + y * (w as int / 2) + x];
            let (cx, cy) = came_from(p, rotation, sx, sy);
            &&& shares(2 * x - px, fw, rw, sx) && shares(2 * y - py, fh, rh, sy) ==> 0 <= cx < p.width && 0 <= cy
                < p.height && shown == plane[cy / 2 * p.uv_stride + cx / 2]
            &&& 2 * x < px || 2 * x >= px + fw || 2 * y < py || 2 * y >= py + fh ==> shown == 128
        }),
{
    let (rw, rh) = sides(p, rotation);
    let (px, py, fw, fh) = place_of(rw, rh, w as int, h as int);
    law_a_fitted_picture_keeps_its_proportions(rw, rh, w as int, h as int);
    lemma_index(w as int / 2, h as int / 2, x, y);
    lemma_quarter(w as int, h as int);
    if shares(2 * x - px, fw, rw, sx) && shares(2 * y - py, fh, rh, sy) {
        lemma_shares(2 * x - px, fw, rw, sx);
        lemma_shares(2 * y - py, fh, rh, sy);
    }
}

/// A picture as large as the canvas, upright and without padding, is composed to its own bytes.
pub proof fn law_a_picture_of_the_canvas_size_stays_as_it_is(p: Picture, rotation: u8)
    requires
        usable(p),
        rotation % 4 == 0,
        p.width % 2 == 0,
        p.height % 2 == 0,
        p.y_stride == p.width,
        p.uv_stride == p.width / 2,
        p.y@.len() == p.width * p.height,
        p.u@.len() == (p.width as int / 2) * (p.height as int / 2),
        p.v@.len() == (p.width as int / 2) * (p.height as int / 2),
    ensures
        canvas_of(p, rotation, p.width as int, p.height as int) == p.y@ + p.u@ + p.v@,
{
    let (w, h) = (p.width as int, p.height as int);
    let c = canvas_of(p, rotation, w, h);
    let own = p.y@ + p.u@ + p.v@;
    let (cw, ch) = (w / 2, h / 2);
    lemma_quarter(w, h);
    law_a_fitted_picture_keeps_its_proportions(w, h, w, h);
    let (px, py, fw, fh) = place_of(w, h, w, h);
    assert(fw == w) by (nonlinear_arith)
        requires
            fw * h <= w * h < (fw + 2) * h,
            fw % 2 == 0,
            w % 2 == 0,
            0 < h,
    ;
    law_the_canvas_shows_the_picture(p, rotation, p.width, p.height, 0, 0, 0, 0);
    assert forall|i: int| 0 <= i < own.len() implies c[i] == own[i] by {
        if i < w * h {
            let (x, y) = (i % w, i / w);
            lemma_split(i, w, h);
            lemma_own_share(x, w);
            lemma_own_share(y, h);
            law_the_canvas_shows_the_picture(p, rotation, p.width, p.height, x, y, x, y);
        } else {
            let second = i >= w * h + cw * ch;
            let k = if second {
                i - w * h - cw * ch
            } else {
                i - w * h
            };
            lemma_split(k, cw, ch);
            let (x, y) = (k % cw, k / cw);
            lemma_own_share(2 * x, w);
            lemma_own_share(2 * y, h);
            law_the_canvas_shows_the_colours(p, rotation, p.width, p.height, second, x, y, 2 * x, 2 * y);
        }
    }
    assert(c =~= own);
}

proof fn lemma_split(i: int, w: int, h: int)
    requires
        0 < w,
        0 <= i < w * h,
    ensures
        i == i / w * w + i % w,
        0 <= i % w < w,
        0 <= i / w < h,
{
    assert(i == i / w * w + i % w && 0 <= i % w < w && 0 <= i / w < h) by (nonlinear_arith)
        requires
            0 < w,
            0 <= i < w * h,
    ;
}

proof fn lemma_own_share(d: int, f: int)
    requires
        0 <= d < f,
    ensures
        shares(d, f, f, d),
{
    assert(d * f <= d * f < (d + 1) * f) by (nonlinear_arith)
        requires
            0 < f,
    ;
}

// ---- The preview -------------------------------------------------------------------------------

/// A byte of colour comes within three quarters of `thousandths`, or is the end of the range that this lies beyond.
pub open spec fn near(byte: u8, thousandths: int) -> bool {
    ||| -750 <= 1000 * byte - thousandths <= 750
    ||| byte == 0 && thousandths <= 750
    ||| byte == 255 && thousandths >= 254250
}

/// The point at column `x`, row `y` of the preview has the colour of that very point of the picture: its brightness
/// stands at the same place, its colour at half the column and row, and it is turned from limited-range BT.601, in
/// which 16 is black and 235 white, into red, green and blue, and opaque.
pub proof fn law_the_preview_has_the_pictures_colours(i420: Seq<u8>, w: int, h: int, x: int, y: int)
    requires
        0 < w,
        0 < h,
        w % 2 == 0,
        h % 2 == 0,
        i420.len() == w * h + 2 * ((w / 2) * (h / 2)),
        0 <= x < w,
        0 <= y < h,
    ensures
        rgba_of(i420, w, h).len() == 4 * (w * h),
        ({
            let quarter = (w / 2) * (h / 2);
            let at = 4 * (y * w + x);
            let out = rgba_of(i420, w, h);
            let c = y / 2 * (w / 2) + x / 2;
            let l = i420[y * w + x] - 16;
            let u = i420[w * h + c] - 128;
            let v = i420[w * h + quarter + c] - 128;
            &&& near(out[at], 1164 * l + 1596 * v)
            &&& near(out[at + 1], 1164 * l - 391 * u - 813 * v)
            &&& near(out[at + 2], 1164 * l + 2016 * u)
            &&& out[at + 3] == 255
        }),
{
    lemma_quarter(w, h);
    lemma_index(w, h, x, y);
    lemma_index(w / 2, h / 2, x / 2, y / 2);
    let k = y * w + x;
    let at = 4 * k;
    assert(at / 4 == k && (at + 1) / 4 == k && (at + 2) / 4 == k && (at + 3) / 4 == k);
    assert(at % 4 == 0 && (at + 1) % 4 == 1 && (at + 2) % 4 == 2 && (at + 3) % 4 == 3);
}

/// Of a picture without colour each point is as bright as the byte of that very point says: black at 16 or below, white
/// at 235 or above, and grey in between, the same in red, green and blue.
pub proof fn law_a_picture_without_colour_is_grey(i420: Seq<u8>, w: int, h: int, x: int, y: int)
    requires
        0 < w,
        0 < h,
        w % 2 == 0,
        h % 2 == 0,
        i420.len() == w * h + 2 * ((w / 2) * (h / 2)),
        forall|i: int| w * h <= i < i420.len() ==> #[trigger] i420[i] == 128,
        0 <= x < w,
        0 <= y < h,
    ensures
        ({
            let at = 4 * (y * w + x);
            let out = rgba_of(i420, w, h);
            let l = i420[y * w + x];
            &&& out[at] == out[at + 1] && out[at + 1] == out[at + 2] && out[at + 3] == 255
            &&& l <= 16 ==> out[at] == 0
            &&& l >= 235 ==> out[at] == 255
            &&& 16 <= l <= 235 ==> -130 <= 219 * out[at] - 255 * (l - 16) <= 130
        }),
{
    lemma_quarter(w, h);
    lemma_index(w, h, x, y);
    lemma_index(w / 2, h / 2, x / 2, y / 2);
    let k = y * w + x;
    let at = 4 * k;
    let c = y / 2 * (w / 2) + x / 2;
    assert(i420[w * h + c] == 128 && i420[w * h + w * h / 4 + c] == 128);
    assert(at / 4 == k && (at + 1) / 4 == k && (at + 2) / 4 == k && (at + 3) / 4 == k);
    assert(at % 4 == 0 && (at + 1) % 4 == 1 && (at + 2) % 4 == 2 && (at + 3) % 4 == 3);
}

/// A picture can be used where it is not empty and every one of its points, and the colour of each block, lies in its
/// plane.
pub proof fn law_which_pictures_can_be_used(p: Picture, x: int, y: int)
    ensures
        p.width == 0 || p.height == 0 ==> !usable(p),
        usable(p) && 0 <= x < p.width && 0 <= y < p.height ==> 0 <= y * p.y_stride + x < p.y@.len() && 0 <= y / 2
            * p.uv_stride + x / 2 < p.u@.len() && y / 2 * p.uv_stride + x / 2 < p.v@.len(),
        p.width > 0 && p.height > 0 && (p.height - 1) * p.y_stride + (p.width - 1) < p.y@.len() && (p.height - 1) / 2
            * p.uv_stride + (p.width - 1) / 2 < p.u@.len() && (p.height - 1) / 2 * p.uv_stride + (p.width - 1) / 2
            < p.v@.len() ==> usable(p),
{
    if usable(p) && 0 <= x < p.width && 0 <= y < p.height {
        let (last, stride) = (p.height - 1, p.y_stride as int);
        assert(0 <= y * stride <= last * stride) by (nonlinear_arith)
            requires
                0 <= y <= last,
                0 <= stride,
        ;
        let (row, end, step) = (y / 2, (p.height - 1) / 2, p.uv_stride as int);
        assert(0 <= row * step <= end * step) by (nonlinear_arith)
            requires
                0 <= row <= end,
                0 <= step,
        ;
    }
}

} // verus!
