//! The receiver's pick among what a sender offers.
use vstd::prelude::*;
use crate::abi::{LENNY_CODEC_H264, lenny_mode, lenny_stream_settings};
use crate::wire::caps::{Caps, CapsView, Codec, Lens, LensView, lenses_view};

verus! {

pub const DEFAULT_BITRATE_KBPS: u32 = 8000;

pub open spec fn abs(x: int) -> int {
    if x < 0 {
        -x
    } else {
        x
    }
}

/// How far the picture of a mode is from the preferred one, in pixels.
pub open spec fn area_gap(m: lenny_mode, pref: lenny_mode) -> int {
    abs(m.width * m.height - pref.width * pref.height)
}

/// Numerator of the frame rate. A mode without a frame rate counts as 0 per second.
pub open spec fn rate_num(m: lenny_mode) -> int {
    if m.fps_den != 0 {
        m.fps_num as int
    } else {
        0
    }
}

pub open spec fn rate_den(m: lenny_mode) -> int {
    if m.fps_den != 0 {
        m.fps_den as int
    } else {
        1
    }
}

/// How far the frame rate of a mode is from the preferred one, times both denominators.
pub open spec fn rate_gap(m: lenny_mode, pref: lenny_mode) -> int {
    abs(rate_num(m) * rate_den(pref) - rate_num(pref) * rate_den(m))
}

/// Whether `a` is closer to the preferred mode than `b`: area first, then frame rate.
pub open spec fn closer(a: lenny_mode, b: lenny_mode, pref: lenny_mode) -> bool {
    ||| area_gap(a, pref) < area_gap(b, pref)
    ||| area_gap(a, pref) == area_gap(b, pref) && rate_gap(a, pref) * rate_den(b) < rate_gap(
        b,
        pref,
    ) * rate_den(a)
}

/// The closest mode, the first of several. Without modes, the preferred one.
pub open spec fn best_mode(modes: Seq<lenny_mode>, pref: lenny_mode) -> lenny_mode
    decreases modes.len(),
{
    if modes.len() == 0 {
        pref
    } else if modes.len() == 1 {
        modes[0]
    } else {
        let b = best_mode(modes.drop_last(), pref);
        if closer(modes.last(), b, pref) {
            modes.last()
        } else {
            b
        }
    }
}

/// The wanted codec, H.264 if none is named; the first one offered if that one is not.
pub open spec fn best_codec(codecs: Seq<Codec>, wanted: u8) -> u8 {
    let c = if wanted == 0 {
        LENNY_CODEC_H264
    } else {
        wanted
    };
    if codecs.len() > 0 && !(exists|i: int| 0 <= i < codecs.len() && #[trigger] codecs[i].id == c) {
        codecs[0].id
    } else {
        c
    }
}

/// The wanted bitrate, `DEFAULT_BITRATE_KBPS` if none is named, within the maximum if there is one.
pub open spec fn best_bitrate(wanted: u32, max: u32) -> u32 {
    let b = if wanted == 0 {
        DEFAULT_BITRATE_KBPS
    } else {
        wanted
    };
    if max != 0 && max < b {
        max
    } else {
        b
    }
}

/// Whether one of the lenses has this id.
pub open spec fn has_lens(lenses: Seq<LensView>, id: u8) -> bool {
    exists|i: int| 0 <= i < lenses.len() && #[trigger] lenses[i].id == id
}

/// What a receiver picks.
pub open spec fn chosen(caps: CapsView, pref: lenny_stream_settings) -> lenny_stream_settings {
    lenny_stream_settings {
        codec: best_codec(caps.codecs, pref.codec),
        mode: best_mode(caps.modes, pref.mode),
        bitrate_kbps: best_bitrate(pref.bitrate_kbps, caps.max_bitrate_kbps),
        has_lens: if pref.has_lens != 0 && !has_lens(caps.lenses, pref.lens_id) {
            0
        } else {
            pref.has_lens
        },
        lens_id: pref.lens_id,
    }
}

fn mul16(a: u16, b: u16) -> (r: u64)
    ensures
        r == a * b,
        r <= 0xFFFE_0001,
{
    assert(a * b <= 0xFFFE_0001) by (nonlinear_arith)
        requires
            a <= 0xFFFF,
            b <= 0xFFFF,
    ;
    a as u64 * b as u64
}

fn gap(a: u64, b: u64) -> (r: u64)
    ensures
        r == abs(a - b),
{
    if a < b {
        b - a
    } else {
        a - b
    }
}

fn num_of(m: &lenny_mode) -> (r: u16)
    ensures
        r == rate_num(*m),
{
    if m.fps_den != 0 {
        m.fps_num
    } else {
        0
    }
}

fn den_of(m: &lenny_mode) -> (r: u16)
    ensures
        r == rate_den(*m),
        r > 0,
{
    if m.fps_den != 0 {
        m.fps_den
    } else {
        1
    }
}

fn area_gap_of(m: &lenny_mode, pref: &lenny_mode) -> (r: u64)
    ensures
        r == area_gap(*m, *pref),
{
    gap(mul16(m.width, m.height), mul16(pref.width, pref.height))
}

fn rate_gap_of(m: &lenny_mode, pref: &lenny_mode) -> (r: u64)
    ensures
        r == rate_gap(*m, *pref),
        r <= 0xFFFE_0001,
{
    gap(mul16(num_of(m), den_of(pref)), mul16(num_of(pref), den_of(m)))
}

fn is_closer(a: &lenny_mode, b: &lenny_mode, pref: &lenny_mode) -> (r: bool)
    ensures
        r == closer(*a, *b, *pref),
{
    let area_a: u64 = area_gap_of(a, pref);
    let area_b: u64 = area_gap_of(b, pref);
    if area_a != area_b {
        return area_a < area_b;
    }
    let ra: u64 = rate_gap_of(a, pref);
    let rb: u64 = rate_gap_of(b, pref);
    let da: u64 = den_of(a) as u64;
    let db: u64 = den_of(b) as u64;
    assert(ra * db <= 0xFFFE_0001 * 0xFFFF && rb * da <= 0xFFFE_0001 * 0xFFFF)
        by (nonlinear_arith)
        requires
            ra <= 0xFFFE_0001,
            rb <= 0xFFFE_0001,
            da <= 0xFFFF,
            db <= 0xFFFF,
    ;
    ra * db < rb * da
}

fn pick_mode(modes: &Vec<lenny_mode>, pref: &lenny_mode) -> (r: lenny_mode)
    ensures
        r == best_mode(modes@, *pref),
{
    if modes.len() == 0 {
        return *pref;
    }
    let mut best = modes[0];
    let mut i: usize = 1;
    assert(modes@.take(1)[0] == modes@[0]);
    while i < modes.len()
        invariant
            1 <= i <= modes@.len(),
            best == best_mode(modes@.take(i as int), *pref),
        decreases modes.len() - i,
    {
        assert(modes@.take(i + 1).drop_last() =~= modes@.take(i as int));
        if is_closer(&modes[i], &best, pref) {
            best = modes[i];
        }
        i = i + 1;
    }
    assert(modes@.take(modes@.len() as int) =~= modes@);
    best
}

fn offers_codec(codecs: &Vec<Codec>, id: u8) -> (r: bool)
    ensures
        r == (exists|i: int| 0 <= i < codecs@.len() && #[trigger] codecs@[i].id == id),
{
    let mut i: usize = 0;
    while i < codecs.len()
        invariant
            i <= codecs@.len(),
            forall|j: int| 0 <= j < i ==> #[trigger] codecs@[j].id != id,
        decreases codecs.len() - i,
    {
        if codecs[i].id == id {
            return true;
        }
        i = i + 1;
    }
    false
}

fn offers_lens(lenses: &Vec<Lens>, id: u8) -> (r: bool)
    ensures
        r == has_lens(lenses_view(lenses@), id),
{
    let mut i: usize = 0;
    while i < lenses.len()
        invariant
            i <= lenses@.len(),
            forall|j: int| 0 <= j < i ==> #[trigger] lenses_view(lenses@)[j].id != id,
        decreases lenses.len() - i,
    {
        assert(lenses_view(lenses@)[i as int].id == lenses@[i as int].id);
        if lenses[i].id == id {
            return true;
        }
        i = i + 1;
    }
    false
}

/// Receiver's pick: the sender mode closest to the preferred one (area first, then fps).
pub fn choose_settings(caps: &Caps, pref: lenny_stream_settings) -> (r: lenny_stream_settings)
    ensures
        r == chosen(caps@, pref),
{
    let mut s = pref;
    if s.codec == 0 {
        s.codec = LENNY_CODEC_H264;
    }
    if caps.codecs.len() > 0 && !offers_codec(&caps.codecs, s.codec) {
        s.codec = caps.codecs[0].id;
    }
    s.mode = pick_mode(&caps.modes, &pref.mode);
    if s.bitrate_kbps == 0 {
        s.bitrate_kbps = DEFAULT_BITRATE_KBPS;
    }
    if caps.max_bitrate_kbps != 0 && caps.max_bitrate_kbps < s.bitrate_kbps {
        s.bitrate_kbps = caps.max_bitrate_kbps;
    }
    if s.has_lens != 0 && !offers_lens(&caps.lenses, s.lens_id) {
        s.has_lens = 0;
    }
    s
}

// ---- Laws --------------------------------------------------------------------------------------

proof fn lemma_fractions(xa: int, da: int, xb: int, db: int, xc: int, dc: int)
    requires
        da > 0,
        db > 0,
        dc > 0,
        xa * db < xb * da,
        xb * dc < xc * db,
    ensures
        xa * dc < xc * da,
{
    assert((xa * db) * dc < (xb * da) * dc) by (nonlinear_arith)
        requires
            xa * db < xb * da,
            dc > 0,
    ;
    assert((xb * dc) * da < (xc * db) * da) by (nonlinear_arith)
        requires
            xb * dc < xc * db,
            da > 0,
    ;
    assert((xa * dc) * db < (xc * da) * db) by (nonlinear_arith)
        requires
            (xa * db) * dc < (xb * da) * dc,
            (xb * dc) * da < (xc * db) * da,
    ;
    assert(xa * dc < xc * da) by (nonlinear_arith)
        requires
            (xa * dc) * db < (xc * da) * db,
            db > 0,
    ;
}

/// Being closer is transitive.
pub proof fn law_closer_is_transitive(
    a: lenny_mode,
    b: lenny_mode,
    c: lenny_mode,
    pref: lenny_mode,
)
    requires
        closer(a, b, pref),
        closer(b, c, pref),
    ensures
        closer(a, c, pref),
{
    if area_gap(a, pref) == area_gap(b, pref) && area_gap(b, pref) == area_gap(c, pref) {
        lemma_fractions(
            rate_gap(a, pref),
            rate_den(a),
            rate_gap(b, pref),
            rate_den(b),
            rate_gap(c, pref),
            rate_den(c),
        );
    }
}

/// The picked mode is one that the sender offers, and no offered mode is closer.
pub proof fn law_picked_mode_is_offered_and_closest(modes: Seq<lenny_mode>, pref: lenny_mode)
    requires
        modes.len() > 0,
    ensures
        modes.contains(best_mode(modes, pref)),
        forall|i: int|
            0 <= i < modes.len() ==> !closer(#[trigger] modes[i], best_mode(modes, pref), pref),
    decreases modes.len(),
{
    let best = best_mode(modes, pref);
    if modes.len() == 1 {
        assert(modes[0] == best);
    } else {
        let init = modes.drop_last();
        let b = best_mode(init, pref);
        law_picked_mode_is_offered_and_closest(init, pref);
        let k = choose|k: int| 0 <= k < init.len() && init[k] == b;
        assert(modes[k] == b);
        assert(modes[modes.len() - 1] == modes.last());
        assert forall|i: int| 0 <= i < modes.len() implies !closer(
            #[trigger] modes[i],
            best,
            pref,
        ) by {
            if i < init.len() {
                assert(init[i] == modes[i]);
                if closer(modes.last(), b, pref) && closer(modes[i], modes.last(), pref) {
                    law_closer_is_transitive(modes[i], modes.last(), b, pref);
                }
            }
        }
    }
}

/// If the preferred size and rate are offered, the picked mode has that area and that rate.
pub proof fn law_offered_preference_is_met(modes: Seq<lenny_mode>, pref: lenny_mode)
    requires
        modes.contains(pref),
    ensures
        area_gap(best_mode(modes, pref), pref) == 0,
        rate_gap(best_mode(modes, pref), pref) == 0,
{
    law_picked_mode_is_offered_and_closest(modes, pref);
    let k = choose|k: int| 0 <= k < modes.len() && modes[k] == pref;
    let best = best_mode(modes, pref);
    assert(!closer(modes[k], best, pref));
    assert(rate_gap(pref, pref) == 0);
    assert(0 * rate_den(best) == 0) by (nonlinear_arith);
    let g = rate_gap(best, pref);
    let d = rate_den(pref);
    assert(g == 0) by (nonlinear_arith)
        requires
            g >= 0,
            d > 0,
            !(0 < g * d),
    ;
}

/// The picked bitrate is positive and exceeds neither what the sender can do nor what was asked
/// for.
pub proof fn law_picked_bitrate_is_within_the_maximum(
    caps: CapsView,
    pref: lenny_stream_settings,
)
    ensures
        chosen(caps, pref).bitrate_kbps > 0,
        caps.max_bitrate_kbps != 0 ==> chosen(caps, pref).bitrate_kbps <= caps.max_bitrate_kbps,
        pref.bitrate_kbps != 0 ==> chosen(caps, pref).bitrate_kbps <= pref.bitrate_kbps,
{
}

/// The picked mode is strictly closer than every mode before it.
proof fn lemma_picked_mode_is_the_first(modes: Seq<lenny_mode>, pref: lenny_mode) -> (k: int)
    requires
        modes.len() > 0,
    ensures
        0 <= k < modes.len(),
        modes[k] == best_mode(modes, pref),
        forall|j: int| 0 <= j < k ==> closer(modes[k], #[trigger] modes[j], pref),
    decreases modes.len(),
{
    let last = modes.len() - 1;
    if last == 0 {
        0
    } else {
        let init = modes.drop_last();
        let k = lemma_picked_mode_is_the_first(init, pref);
        if closer(modes.last(), init[k], pref) {
            law_picked_mode_is_offered_and_closest(init, pref);
            assert forall|j: int| 0 <= j < last implies closer(modes[last], #[trigger] modes[j], pref) by {
                assert(init[j] == modes[j]);
                assert(!closer(init[j], init[k], pref));
                lemma_closer_than_no_closer(modes[last], init[k], modes[j], pref);
            }
            last
        } else {
            assert forall|j: int| 0 <= j < k implies closer(modes[k], #[trigger] modes[j], pref) by {
                assert(init[j] == modes[j]);
            }
            k
        }
    }
}

/// A mode that is closer than another is closer than all that are no closer than that one.
proof fn lemma_closer_than_no_closer(a: lenny_mode, b: lenny_mode, c: lenny_mode, pref: lenny_mode)
    requires
        closer(a, b, pref),
        !closer(c, b, pref),
    ensures
        closer(a, c, pref),
{
    if area_gap(a, pref) == area_gap(b, pref) && area_gap(b, pref) == area_gap(c, pref) {
        let (xa, da) = (rate_gap(a, pref), rate_den(a));
        let (xb, db) = (rate_gap(b, pref), rate_den(b));
        let (xc, dc) = (rate_gap(c, pref), rate_den(c));
        assert((xa * db) * dc < (xb * da) * dc) by (nonlinear_arith)
            requires
                xa * db < xb * da,
                dc > 0,
        ;
        assert((xb * dc) * da <= (xc * db) * da) by (nonlinear_arith)
            requires
                xb * dc <= xc * db,
                da > 0,
        ;
        assert((xa * dc) * db < (xc * da) * db) by (nonlinear_arith)
            requires
                (xa * db) * dc < (xb * da) * dc,
                (xb * dc) * da <= (xc * db) * da,
        ;
        assert(xa * dc < xc * da) by (nonlinear_arith)
            requires
                (xa * dc) * db < (xc * da) * db,
                db > 0,
        ;
    }
}

/// Of two modes with one rate, neither is closer by it.
proof fn lemma_one_rate(a: lenny_mode, b: lenny_mode, pref: lenny_mode)
    requires
        rate_gap(a, b) == 0,
    ensures
        rate_gap(a, pref) * rate_den(b) == rate_gap(b, pref) * rate_den(a),
{
    let (na, da) = (rate_num(a), rate_den(a));
    let (nb, db) = (rate_num(b), rate_den(b));
    let (np, dp) = (rate_num(pref), rate_den(pref));
    let x = na * dp - np * da;
    let y = nb * dp - np * db;
    assert(x * db == y * da) by (nonlinear_arith)
        requires
            x == na * dp - np * da,
            y == nb * dp - np * db,
            na * db == nb * da,
    ;
    assert(abs(x) * db == abs(y) * da) by (nonlinear_arith)
        requires
            x * db == y * da,
            da > 0,
            db > 0,
            abs(x) == x || abs(x) == -x,
            abs(y) == y || abs(y) == -y,
            abs(x) >= 0,
            abs(y) >= 0,
    ;
}

/// Picking among the same modes again, with the picked one preferred, changes nothing.
pub proof fn law_picking_a_mode_twice_changes_nothing(modes: Seq<lenny_mode>, pref: lenny_mode)
    ensures
        best_mode(modes, best_mode(modes, pref)) == best_mode(modes, pref),
{
    if modes.len() > 0 {
        let b = best_mode(modes, pref);
        let again = best_mode(modes, b);
        let i = lemma_picked_mode_is_the_first(modes, pref);
        let j = lemma_picked_mode_is_the_first(modes, b);
        assert(modes.contains(b));
        law_offered_preference_is_met(modes, b);
        if i < j {
            assert(closer(modes[j], modes[i], b));
            assert(rate_gap(b, b) == 0);
            let (g, d) = (rate_gap(again, b), rate_den(b));
            assert(g * d >= 0 && 0 * rate_den(again) == 0) by (nonlinear_arith)
                requires
                    g >= 0,
                    d > 0,
            ;
        } else if j < i {
            assert(closer(modes[i], modes[j], pref));
            lemma_one_rate(again, b, pref);
        }
    }
}

/// A receiver that is told to prefer what it picked picks the same again. Codec 0 names no codec: where it is the
/// first on offer and was picked for that, and H.264 is on offer behind it, H.264 is picked the second time.
pub proof fn law_choosing_twice_changes_nothing(caps: CapsView, pref: lenny_stream_settings)
    requires
        chosen(caps, pref).codec == 0 ==> best_codec(caps.codecs, 0) == 0,
    ensures
        chosen(caps, chosen(caps, pref)) == chosen(caps, pref),
{
    law_picking_a_mode_twice_changes_nothing(caps.modes, pref.mode);
}

/// `m` at place `k` is what to pick: of all modes on offer it has the number of pixels nearest to the preferred one,
/// and of those with that distance the nearest frame rate. Before it no mode is as near in both.
pub open spec fn is_right_mode(modes: Seq<lenny_mode>, pref: lenny_mode, k: int) -> bool {
    let m = modes[k];
    let size = |x: int|
        if x < 0 {
            -x
        } else {
            x
        };
    let pixels = |a: lenny_mode| size(a.width * a.height - pref.width * pref.height);
    // The distance of two rates, n / d from p / q, is |n q - p d| / (d q); both denominators are multiplied out.
    let apart = |a: lenny_mode| size(a.fps_num * pref.fps_den - pref.fps_num * a.fps_den);
    &&& 0 <= k < modes.len()
    &&& forall|i: int| 0 <= i < modes.len() ==> pixels(m) <= pixels(#[trigger] modes[i])
    &&& forall|i: int|
        0 <= i < modes.len() && pixels(#[trigger] modes[i]) == pixels(m) ==> apart(m) * modes[i].fps_den <= apart(
            modes[i],
        ) * m.fps_den
    &&& forall|i: int|
        0 <= i < k && pixels(#[trigger] modes[i]) == pixels(m) ==> apart(m) * modes[i].fps_den < apart(modes[i])
            * m.fps_den
}

/// The mode that is picked is the nearest one on offer: first by the number of pixels, then by the frame rate, and of
/// several the first. All modes have frame rates, as all do that come in.
pub proof fn law_the_nearest_mode_is_picked(caps: CapsView, pref: lenny_stream_settings)
    requires
        caps.modes.len() > 0,
        pref.mode.fps_den != 0,
        forall|i: int| 0 <= i < caps.modes.len() ==> (#[trigger] caps.modes[i]).fps_den != 0,
    ensures
        exists|k: int| #[trigger] is_right_mode(caps.modes, pref.mode, k) && chosen(caps, pref).mode == caps.modes[k],
        caps.modes.contains(pref.mode) ==> {
            let m = chosen(caps, pref).mode;
            &&& m.width * m.height == pref.mode.width * pref.mode.height
            &&& m.fps_num * pref.mode.fps_den == pref.mode.fps_num * m.fps_den
        },
{
    let modes = caps.modes;
    let p = pref.mode;
    let k = lemma_picked_mode_is_the_first(modes, p);
    let m = modes[k];
    law_picked_mode_is_offered_and_closest(modes, p);
    let pixels = |a: lenny_mode| abs(a.width * a.height - p.width * p.height);
    let apart = |a: lenny_mode| abs(a.fps_num * p.fps_den - p.fps_num * a.fps_den);
    assert forall|i: int| 0 <= i < modes.len() implies pixels(m) <= pixels(#[trigger] modes[i]) by {
        assert(!closer(modes[i], best_mode(modes, p), p));
    }
    assert forall|i: int| 0 <= i < modes.len() && pixels(#[trigger] modes[i]) == pixels(m) implies apart(m)
        * modes[i].fps_den <= apart(modes[i]) * m.fps_den by {
        assert(!closer(modes[i], best_mode(modes, p), p));
    }
    assert forall|i: int| 0 <= i < k && pixels(#[trigger] modes[i]) == pixels(m) implies apart(m) * modes[i].fps_den
        < apart(modes[i]) * m.fps_den by {
        assert(closer(modes[k], modes[i], p));
    }
    assert(is_right_mode(modes, p, k));
    if modes.contains(p) {
        let i = choose|i: int| 0 <= i < modes.len() && modes[i] == p;
        assert(pixels(modes[i]) == 0);
        assert(apart(modes[i]) == 0);
        let g = apart(m);
        assert(g == 0) by (nonlinear_arith)
            requires
                g >= 0,
                g * p.fps_den <= 0 * m.fps_den,
                p.fps_den > 0,
        ;
    }
}

/// Without modes on offer the preferred one is asked for.
pub proof fn law_without_modes_the_preferred_one_is_asked_for(caps: CapsView, pref: lenny_stream_settings)
    requires
        caps.modes.len() == 0,
    ensures
        chosen(caps, pref).mode == pref.mode,
{
}

/// A codec on offer that was asked for is picked, H.264 (1) where none was named; else the first on offer, if there is
/// any.
pub proof fn law_the_wanted_codec_is_picked(caps: CapsView, pref: lenny_stream_settings, i: int)
    ensures
        ({
            let want = if pref.codec == 0 {
                1u8
            } else {
                pref.codec
            };
            let got = chosen(caps, pref).codec;
            &&& 0 <= i < caps.codecs.len() && caps.codecs[i].id == want ==> got == want
            &&& caps.codecs.len() == 0 ==> got == want
            &&& got == want || (caps.codecs.len() > 0 && got == caps.codecs[0].id)
        }),
{
}

/// The bitrate that was asked for, 8000 where none was named, is picked as far as the phone can do it. A phone that
/// names no maximum can do any.
pub proof fn law_the_wanted_bitrate_is_picked(caps: CapsView, pref: lenny_stream_settings)
    ensures
        ({
            let want = if pref.bitrate_kbps == 0 {
                8000u32
            } else {
                pref.bitrate_kbps
            };
            let got = chosen(caps, pref).bitrate_kbps;
            &&& caps.max_bitrate_kbps == 0 || want <= caps.max_bitrate_kbps ==> got == want
            &&& 0 < caps.max_bitrate_kbps < want ==> got == caps.max_bitrate_kbps
        }),
{
}

/// A lens is asked for only where it was chosen and the phone has it, under its own number.
pub proof fn law_only_a_lens_that_is_there_is_picked(caps: CapsView, pref: lenny_stream_settings, i: int)
    ensures
        chosen(caps, pref).lens_id == pref.lens_id,
        pref.has_lens == 0 ==> chosen(caps, pref).has_lens == 0,
        pref.has_lens != 0 && 0 <= i < caps.lenses.len() && caps.lenses[i].id == pref.lens_id ==> chosen(
            caps,
            pref,
        ).has_lens != 0,
        chosen(caps, pref).has_lens != 0 ==> exists|j: int|
            0 <= j < caps.lenses.len() && #[trigger] caps.lenses[j].id == pref.lens_id,
{
}

} // verus!
