//! What holds of the window: what is offered, what a choice comes to, and what is shown.
use vstd::prelude::*;

use crate::abi::{lenny_control_cmd, lenny_control_state, lenny_mode};
use crate::fake_phone::{after_control, Camera};
use crate::text::decimal;
use crate::ui::modes::{
    aspect_of, aspect_words, distance, fps_of, gcd_of, height_words, is_nearest, is_pick,
    law_gcd_is_the_greatest_common_divisor, modes_on_offer, nearer, picks, rising, wanted, Aspect, Choices, Clicks,
    Wish,
};
use crate::ui::panel::{
    after_try, all_auto, base_zoom, battery_words, centre_request, edge_of, frozen_words, left_after, lens_request,
    mode_request, pans, shown_of, status_of, switch_request, u16_of, wheel_range_of, zoom_of, After, Edge, Shown,
    Tone,
};
use crate::ui::pictures::{is_code_picture, CodePicture};
use crate::wire::caps::Lens;

verus! {

// ---- Modes -------------------------------------------------------------------------------------

/// A mode's ratio has the proportions of its sides, in numbers that have no common divisor.
pub proof fn law_a_ratio_is_in_lowest_terms(m: lenny_mode)
    requires
        m.width > 0,
        m.height > 0,
    ensures
        ({
            let a = aspect_of(m);
            &&& a.width > 0 && a.height > 0
            &&& a.width * m.height == a.height * m.width
            &&& forall|d: nat|
                d > 1 ==> !(#[trigger] (a.width as nat % d) == 0 && a.height as nat % d == 0)
        }),
{
    let (w, h) = (m.width as nat, m.height as nat);
    let g = gcd_of(w, h);
    law_gcd_is_the_greatest_common_divisor(w, h);
    let (p, q) = (w / g, h / g);
    assert(w == p * g && h == q * g && p > 0 && q > 0 && p <= w && q <= h) by (nonlinear_arith)
        requires
            g > 0,
            w % g == 0,
            h % g == 0,
            p == w / g,
            q == h / g,
            w > 0,
            h > 0,
    ;
    assert(p * h == q * w) by (nonlinear_arith)
        requires
            w == p * g,
            h == q * g,
    ;
    let a = aspect_of(m);
    assert(g == 1 ==> p == w && q == h) by (nonlinear_arith)
        requires
            p == w / g,
            q == h / g,
            g > 0,
    ;
    assert(a.width == p && a.height == q);
    assert forall|d: nat| d > 1 implies !(#[trigger] (a.width as nat % d) == 0 && a.height as nat % d == 0) by {
        if a.width as nat % d == 0 && a.height as nat % d == 0 {
            let (x, y) = (p / d, q / d);
            let e = d * g;
            vstd::arithmetic::div_mod::lemma_fundamental_div_mod(p as int, d as int);
            vstd::arithmetic::div_mod::lemma_fundamental_div_mod(q as int, d as int);
            assert(p == x * d && q == y * d) by (nonlinear_arith)
                requires
                    p == d * x + 0,
                    q == d * y + 0,
            ;
            assert(w == x * e && h == y * e && e > g) by (nonlinear_arith)
                requires
                    w == p * g,
                    h == q * g,
                    p == x * d,
                    q == y * d,
                    e == d * g,
                    d > 1,
                    g > 0,
            ;
            vstd::arithmetic::div_mod::lemma_fundamental_div_mod_converse(w as int, e as int, x as int, 0);
            vstd::arithmetic::div_mod::lemma_fundamental_div_mod_converse(h as int, e as int, y as int, 0);
            assert(g % e == 0);
            vstd::arithmetic::div_mod::lemma_small_mod(g, e);
        }
    }
}

/// The whole pictures a second of a mode.
pub proof fn law_whole_pictures_a_second(m: lenny_mode)
    requires
        m.fps_den > 0,
    ensures
        fps_of(m) * m.fps_den <= m.fps_num < (fps_of(m) + 1) * m.fps_den,
{
    let (n, d) = (m.fps_num as int, m.fps_den as int);
    let q = n / d;
    assert(q * d <= n < (q + 1) * d) by (nonlinear_arith)
        requires
            0 <= n,
            0 < d,
            q == n / d,
    ;
}

/// The nearest mode has the wanted ratio where any has; among those that match it or not alike, its lines are nearest;
/// and among those as near in lines, its rate. Of several the first.
pub proof fn law_the_nearest_mode(modes: Seq<lenny_mode>, i: int, a: Aspect, h: u32, f: u32, j: int)
    requires
        is_nearest(modes, i, a, h, f),
        0 <= j < modes.len(),
    ensures
        ({
            let away = |x: int, y: int|
                if x < y {
                    y - x
                } else {
                    x - y
                };
            let (m, o) = (modes[i], modes[j]);
            let (mine, its) = (aspect_of(m) == a, aspect_of(o) == a);
            let (lines, other_lines) = (away(m.height as int, h as int), away(o.height as int, h as int));
            let (rate, other_rate) = (away(fps_of(m) as int, f as int), away(fps_of(o) as int, f as int));
            &&& its ==> mine
            &&& mine == its ==> lines <= other_lines
            &&& mine == its && lines == other_lines ==> rate <= other_rate
            &&& mine == its && lines == other_lines && rate == other_rate ==> i <= j
        }),
{
    assert(!nearer(distance(modes[j], a, h, f), distance(modes[i], a, h, f)));
    if j < i {
        assert(nearer(distance(modes[i], a, h, f), distance(modes[j], a, h, f)));
    }
}

/// A click changes what it is on and leaves the rest as it is: a rate the rate alone, lines the lines alone, a ratio
/// the ratio alone. Without a click nothing is wanted, and nothing asked for.
pub proof fn law_a_click_changes_one_thing(modes: Seq<lenny_mode>, c: Choices, cur: lenny_mode, k: Clicks)
    ensures
        k.rate matches Some(i) ==> wanted(c, cur, k) == Some(
            Wish { aspect: aspect_of(cur), height: cur.height as u32, rate: c.rates@[i as int] },
        ),
        k.rate is None && k.height is Some ==> wanted(c, cur, k) == Some(
            Wish { aspect: aspect_of(cur), height: c.heights@[k.height->0 as int], rate: fps_of(cur) },
        ),
        k.rate is None && k.height is None && k.aspect is Some ==> wanted(c, cur, k) == Some(
            Wish { aspect: c.aspects@[k.aspect->0 as int], height: cur.height as u32, rate: fps_of(cur) },
        ),
        k.rate is None && k.height is None && k.aspect is None ==> wanted(c, cur, k) is None,
        is_pick(modes, cur, None, None),
{
}

/// What is asked for is on offer, the nearest to what is wanted, and not what is streamed already.
pub proof fn law_what_is_asked_for_is_on_offer(modes: Seq<lenny_mode>, cur: lenny_mode, w: Wish, m: lenny_mode)
    requires
        is_pick(modes, cur, Some(w), Some(m)),
    ensures
        modes.contains(m),
        m != cur,
        exists|i: int| #[trigger] is_nearest(modes, i, w.aspect, w.height, w.rate) && modes[i] == m,
{
    let i = choose|i: int| #[trigger] picks(modes, i, cur, w, Some(m));
    assert(is_nearest(modes, i, w.aspect, w.height, w.rate));
    assert(modes[i] == m);
}

/// A lens with modes of its own offers those, any other the phone's.
pub proof fn law_a_lens_offers_its_own_modes(lens_modes: Seq<Seq<lenny_mode>>, modes: Seq<lenny_mode>, lens_id: u8)
    ensures
        lens_id < lens_modes.len() && lens_modes[lens_id as int].len() > 0 ==> modes_on_offer(
            lens_modes,
            modes,
            lens_id,
        ) == lens_modes[lens_id as int],
        lens_id >= lens_modes.len() ==> modes_on_offer(lens_modes, modes, lens_id) == modes,
        lens_id < lens_modes.len() && lens_modes[lens_id as int].len() == 0 ==> modes_on_offer(
            lens_modes,
            modes,
            lens_id,
        ) == modes,
{
}

// ---- What is shown -----------------------------------------------------------------------------

/// The chip: 4 is streaming, 3 a question, 2 a handshake, 6 the end.
pub proof fn law_the_chip_fits_the_state(state: i32, paused: bool)
    ensures
        state == 4 && !paused ==> status_of(state, paused) == (Tone::Green, "Streaming"@),
        state == 4 && paused ==> status_of(state, paused) == (Tone::Lilac, "Phone paused"@),
        state == 3 ==> status_of(state, paused) == (Tone::Lilac, "Allow the phone?"@),
        state == 2 ==> status_of(state, paused) == (Tone::Lilac, "Connecting…"@),
        state == 6 ==> status_of(state, paused) == (Tone::Coral, "Stopped"@),
        state < 2 || state == 5 || state > 6 ==> status_of(state, paused) == (Tone::Lilac, "Waiting for a phone"@),
{
}

/// A picture is shown while its stream runs and a frame came in the last second; an older one is shown as frozen.
pub proof fn law_only_a_live_picture_is_shown_as_one(has_video: bool, streaming: bool, frame_at: Option<i64>, now: i64)
    ensures
        ({
            let s = shown_of(has_video, streaming, frame_at, now);
            &&& s == Shown::Picture <==> streaming && has_video && (frame_at matches Some(t) && now - t < 1_000_000)
            &&& s == Shown::NoPhone <==> !streaming
            &&& s == Shown::Waiting <==> streaming && !has_video
        }),
{
}

/// A frozen picture bears the phone's reason, where it gave one.
pub proof fn law_a_frozen_picture_bears_the_reason(reason: Option<Seq<char>>)
    ensures
        reason matches Some(r) ==> r.len() > 0 ==> frozen_words(reason) == r,
        reason matches Some(r) ==> r.len() == 0 ==> frozen_words(reason) == "Waiting for video…"@,
        reason is None ==> frozen_words(reason) == "Waiting for video…"@,
{
}

/// The edge under the pointer: the corner of two sides, else the one side.
pub proof fn law_corners_and_sides(left: bool, right: bool, top: bool, bottom: bool)
    requires
        !(left && right),
        !(top && bottom),
    ensures
        ({
            let e = edge_of(left, right, top, bottom);
            &&& e == Some(Edge::NorthWest) <==> top && left
            &&& e == Some(Edge::NorthEast) <==> top && right
            &&& e == Some(Edge::SouthWest) <==> bottom && left
            &&& e == Some(Edge::SouthEast) <==> bottom && right
            &&& e == Some(Edge::West) <==> left && !top && !bottom
            &&& e == Some(Edge::East) <==> right && !top && !bottom
            &&& e == Some(Edge::North) <==> top && !left && !right
            &&& e == Some(Edge::South) <==> bottom && !left && !right
            &&& e is None <==> !left && !right && !top && !bottom
        }),
{
}

/// A click on "Auto" sets a phone to auto that is not, whatever was set by hand; one on "Manual" asks for nothing.
pub proof fn law_auto_undoes_what_was_set_by_hand(cam: Camera)
    ensures
        mode_request(true, cam.state) is None,
        mode_request(false, cam.state) matches Some(c) ==> ({
            let s = after_control(cam, c).state;
            s.af_mode == 0 && s.exposure_comp == 0 && s.exposure_lock == 0 && s.wb_lock == 0
        }),
        mode_request(false, cam.state) is None ==> cam.state.af_mode == 0 && cam.state.exposure_comp == 0
            && cam.state.exposure_lock == 0 && cam.state.wb_lock == 0,
{
}

/// A click on a switch turns it over.
pub proof fn law_a_switch_is_turned_over(cam: Camera)
    ensures
        ({
            let t = after_control(cam, switch_request(lenny_control_cmd::LENNY_CTL_TORCH, cam.state.torch)).state;
            t.torch <= 1 && (t.torch == 0 <==> cam.state.torch != 0)
        }),
        ({
            let c = switch_request(lenny_control_cmd::LENNY_CTL_EXPOSURE_LOCK, cam.state.exposure_lock);
            let t = after_control(cam, c).state;
            t.exposure_lock <= 1 && (t.exposure_lock == 0 <==> cam.state.exposure_lock != 0)
        }),
{
}

/// A click on a lens selects that lens, and one on "Centre" centres a picture that is off centre.
pub proof fn law_lenses_and_the_centre(cam: Camera, id: u8)
    ensures
        after_control(cam, lens_request(id)).state.lens_id == id,
        centre_request(cam.state) is None <==> cam.state.pan_x == 32768 && cam.state.pan_y == 32768,
        centre_request(cam.state) matches Some(c) ==> after_control(cam, c).state.pan_x == 32768 && after_control(
            cam,
            c,
        ).state.pan_y == 32768,
{
}

/// Dragging moves the picture where the phone can pan (256) and the zoom, with the lens's own, is over 1.01 times.
pub proof fn law_where_dragging_pans(controls: u32, base: int, zoom: u16)
    requires
        base > 0,
        zoom > 0,
    ensures
        pans(controls, base, zoom) <==> controls & 256 != 0 && base * zoom > 10100,
{
}

/// The phone is at auto where its focus, its exposure and its white balance are.
pub proof fn law_auto_is_all_auto(cs: lenny_control_state)
    ensures
        all_auto(cs) <==> cs.af_mode == 0 && cs.exposure_comp == 0 && cs.exposure_lock == 0 && cs.wb_lock == 0,
{
}

/// The wheel's range is the lens's own, from 1 at least; once to four times where the lens does not tell.
pub proof fn law_the_wheel_stays_within_the_lens(lo: u16, hi: u16)
    ensures
        wheel_range_of(None) == (100u16, 400u16),
        hi == 0 ==> wheel_range_of(Some((lo, hi))) == (100u16, 400u16),
        hi > 0 ==> wheel_range_of(Some((lo, hi))).1 == hi,
        hi > 0 && lo >= 1 ==> wheel_range_of(Some((lo, hi))).0 == lo,
        hi > 0 && lo == 0 ==> wheel_range_of(Some((lo, hi))).0 == 1,
{
}

/// The battery's level is told in percent, with a flash while it charges; a level above 100 is not known.
pub proof fn law_the_battery_in_words(cs: lenny_control_state)
    ensures
        cs.battery > 100 ==> battery_words(cs) is None,
        cs.battery <= 100 ==> battery_words(cs) is Some && ({
            let t = battery_words(cs)->0;
            let n = decimal(cs.battery as nat).len() as int;
            &&& t.take(n) == decimal(cs.battery as nat)
            &&& t[n] == '%'
            &&& t.len() == (if cs.charging == 0 {
                n + 1
            } else {
                n + 3
            })
        }),
{
    reveal_strlit("%");
    reveal_strlit(" ⚡");
    if cs.battery <= 100 {
        let n = decimal(cs.battery as nat).len() as int;
        let t = battery_words(cs)->0;
        assert(t.take(n) =~= decimal(cs.battery as nat));
    }
}

/// A port reads back from its decimal digits, with or without a plus sign, and nothing else is a port.
pub proof fn law_a_port_reads_back(n: u16, text: Seq<char>)
    ensures
        u16_of(decimal(n as nat)) == Some(n),
        u16_of(seq!['+'] + decimal(n as nat)) == Some(n),
        u16_of(Seq::empty()) is None,
        (exists|i: int| 0 < i < text.len() && !('0' <= #[trigger] text[i] <= '9')) ==> u16_of(text) is None,
{
    crate::text::law_decimal_reads_back(n as nat);
    let d = decimal(n as nat);
    assert(crate::ui::panel::all_digits(d));
    assert(d[0] != '+');
    assert((seq!['+'] + d).skip(1) =~= d);
    if exists|i: int| 0 < i < text.len() && !('0' <= #[trigger] text[i] <= '9') {
        let i = choose|i: int| 0 < i < text.len() && !('0' <= #[trigger] text[i] <= '9');
        let w = crate::ui::panel::without_plus(text);
        if text[0] == '+' {
            assert(w[i - 1] == text[i]);
        } else {
            assert(w[i] == text[i]);
        }
    }
}

/// Every module of a code stands in the picture where it stands in the code, row by row, with a margin of four light
/// modules on all sides.
pub proof fn law_a_code_stands_in_its_margin(n: int, dark: Seq<bool>, p: CodePicture, x: int, y: int)
    requires
        0 < n,
        dark.len() == n * n,
        is_code_picture(n, dark, p),
    ensures
        ({
            let q = (p.side - n) / 2;
            &&& p.side == n + 2 * q && q == 4
            &&& 0 <= x < n && 0 <= y < n ==> p.dark@[(y + q) * p.side + (x + q)] == dark[y * n + x]
            &&& 0 <= x < p.side && 0 <= y < p.side && (x < q || y < q || x >= n + q || y >= n + q) ==> !p.dark@[y
                * p.side + x]
        }),
{
    let q = 4int;
    if 0 <= x < n && 0 <= y < n {
        assert(p.dark@[(y + q) * p.side + (x + q)] == crate::ui::pictures::module_at(n, dark, x + q, y + q));
    }
    if 0 <= x < p.side && 0 <= y < p.side {
        assert(p.dark@[y * p.side + x] == crate::ui::pictures::module_at(n, dark, x, y));
    }
}

/// A ratio is its two numbers with a colon between them; lines are their number with a `p` behind it, but 2160 are
/// `4K`.
pub proof fn law_ratios_and_lines_in_words(a: Aspect, h: u32)
    ensures
        aspect_words(a) == decimal(a.width as nat).push(':') + decimal(a.height as nat),
        h != 2160 ==> height_words(h) == decimal(h as nat).push('p'),
        height_words(2160) == seq!['4', 'K'],
{
    reveal_strlit(":");
    reveal_strlit("p");
    reveal_strlit("4K");
    assert(aspect_words(a) =~= decimal(a.width as nat).push(':') + decimal(a.height as nat));
    assert(height_words(2160) =~= seq!['4', 'K']);
    if h != 2160 {
        assert(height_words(h) =~= decimal(h as nat).push('p'));
    }
}

/// What can be picked is told from the least to the greatest.
pub proof fn law_choices_rise(s: Seq<u32>, i: int, j: int)
    requires
        rising(s),
        0 <= i < j < s.len(),
    ensures
        s[i] < s[j],
{
}

/// A lens that does not tell its own zoom has once.
pub proof fn law_a_lens_has_once_by_itself(l: &Lens)
    ensures
        base_zoom(None) == 100,
        l.zoom_base == 0 ==> base_zoom(Some(l)) == 100,
        l.zoom_base != 0 ==> base_zoom(Some(l)) == l.zoom_base,
        zoom_of(Some(l)) == Some((l.zoom_min, l.zoom_max)),
        zoom_of(None) is None,
{
}

/// How many tries are left after `k` of them.
pub open spec fn left_after_tries(left: int, k: nat) -> int
    decreases k,
{
    if k == 0 {
        left
    } else {
        left_after(left_after_tries(left, (k - 1) as nat))
    }
}

/// Listening is tried sixty times: each of the first fifty-nine that fails is followed by another, the sixtieth by
/// none. One that succeeds is the last.
pub proof fn law_listening_is_tried_sixty_times(k: nat)
    requires
        k < 60,
    ensures
        left_after_tries(60, k) == 60 - k,
        after_try(left_after_tries(60, k), false) == (if k < 59 {
            After::Again
        } else {
            After::GiveUp
        }),
        after_try(left_after_tries(60, k), true) == After::Done,
    decreases k,
{
    if k > 0 {
        law_listening_is_tried_sixty_times((k - 1) as nat);
    }
}

} // verus!
