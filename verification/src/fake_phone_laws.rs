//! What holds of the phone without a phone: what its camera does for a control, and which parameter sets it finds.
use vstd::prelude::*;

use crate::abi::{lenny_control, lenny_stream_settings};
use crate::fake_phone::{
    ack_of, after_control, asked_for, back_modes, first_state, front_modes, granted, is_encoded, lemma_next_start,
    lens_views, made_of, next_start, parameter_sets_of, sets_from, starts_at, step_of, unit_end, Camera, Encoded,
    Made, Step,
};

verus! {

/// A control changes what it is about and nothing else, under its number: 19 the zoom, from 100 to 400, 21 the pan, 11
/// the focus, 14 the compensation, 15 the exposure's lock, 17 the torch, 18 the lens, 20 back to auto, and 10 asks for
/// a keyframe. Others are answered 1 and change nothing.
pub proof fn law_a_control_does_what_it_says(cam: Camera, c: lenny_control)
    ensures
        ({
            let after = after_control(cam, c);
            let (s, t) = (cam.state, after.state);
            let known = c.cmd == 10 || c.cmd == 11 || c.cmd == 14 || c.cmd == 15 || 17 <= c.cmd <= 21;
            &&& known <==> ack_of(c) == 0
            &&& !known <==> ack_of(c) == 1
            &&& !known ==> after == cam
            &&& known ==> after.changed && after.size == cam.size
            &&& after.want_key == (cam.want_key || c.cmd == 10)
            &&& t.zoom == (if c.cmd != 19 {
                s.zoom as int
            } else if c.value < 100 {
                100
            } else if c.value > 400 {
                400
            } else {
                c.value as int
            })
            &&& (t.pan_x, t.pan_y) == (if c.cmd == 21 {
                (c.x, c.y)
            } else {
                (s.pan_x, s.pan_y)
            })
            &&& t.af_mode == (if c.cmd == 11 {
                1
            } else if c.cmd == 20 {
                0
            } else {
                s.af_mode
            })
            &&& t.exposure_comp == (if c.cmd == 14 {
                c.value
            } else if c.cmd == 20 {
                0
            } else {
                s.exposure_comp
            })
            &&& t.exposure_lock == (if c.cmd == 15 {
                (c.value as int % 256) as u8
            } else if c.cmd == 20 {
                0
            } else {
                s.exposure_lock
            })
            &&& t.wb_lock == (if c.cmd == 20 {
                0
            } else {
                s.wb_lock
            })
            &&& t.torch == (if c.cmd == 17 {
                (c.value as int % 256) as u8
            } else {
                s.torch
            })
            &&& t.lens_id == (if c.cmd == 18 {
                (c.value as int % 256) as u8
            } else {
                s.lens_id
            })
            &&& t.battery == s.battery && t.charging == s.charging
        }),
{
}

/// The camera streams what it is asked for, at 4000 kbit/s at most, with as many whole pictures a second as the rate
/// has, and tells of the change.
pub proof fn law_the_camera_streams_what_it_is_asked_for(cam: Camera, req: lenny_stream_settings)
    ensures
        ({
            let c = asked_for(cam, req);
            let g = granted(req);
            &&& c.changed && c.state == cam.state && c.want_key == cam.want_key
            &&& c.size matches Some((w, h, fps)) && w == req.mode.width && h == req.mode.height && (req.mode.fps_den > 0
                ==> fps * req.mode.fps_den <= req.mode.fps_num < (fps + 1) * req.mode.fps_den)
            &&& g.mode == req.mode && g.codec == req.codec && g.has_lens == req.has_lens && g.lens_id == req.lens_id
            &&& g.bitrate_kbps <= 4000 && g.bitrate_kbps <= req.bitrate_kbps
            &&& g.bitrate_kbps == 4000 || g.bitrate_kbps == req.bitrate_kbps
        }),
{
    let (n, d) = (req.mode.fps_num as int, req.mode.fps_den as int);
    if d > 0 {
        let q = n / d;
        assert(q * d <= n < (q + 1) * d) by (nonlinear_arith)
            requires
                0 <= n,
                0 < d,
                q == n / d,
        ;
    }
}

/// A picture that can be decoded without others, and only such a one, has its parameter sets sent first and is marked
/// as a keyframe. Its bytes are sent as they are; one without bytes is not sent.
pub proof fn law_a_keyframe_is_marked(made: Made, data: Seq<u8>, e: Encoded)
    requires
        is_encoded(made, data, e),
    ensures
        e.config is Some <==> made == Made::Idr || made == Made::I,
        e.frame is Some <==> data.len() > 0,
        e.frame matches Some((d, flags)) ==> d@ == data && (flags == 1 <==> e.config is Some) && flags <= 1,
        e.config matches Some(c) ==> c@ == parameter_sets_of(data),
{
}

// ---- Parameter sets ----------------------------------------------------------------------------

/// A unit as an encoder makes it: not empty, without a start code in it, and with no zero byte at its end.
pub open spec fn is_unit(u: Seq<u8>) -> bool {
    &&& u.len() > 0
    &&& u.last() != 0
    &&& forall|i: int| 0 <= i && i + 2 < u.len() ==> !(#[trigger] u[i] == 0 && u[i + 1] == 0 && u[i + 2] == 1)
}

/// Units one after the other, each behind a start code of three bytes or, where its flag says so, of four.
pub open spec fn stream_of(units: Seq<(bool, Seq<u8>)>) -> Seq<u8>
    decreases units.len(),
{
    if units.len() == 0 {
        Seq::empty()
    } else {
        let (long, u) = units[0];
        (if long {
            seq![0u8, 0, 0, 1]
        } else {
            seq![0u8, 0, 1]
        }) + u + stream_of(units.skip(1))
    }
}

/// Those of the units whose first byte ends in 7 or 8, each behind four bytes of start code.
pub open spec fn sets_of(units: Seq<(bool, Seq<u8>)>) -> Seq<u8>
    decreases units.len(),
{
    if units.len() == 0 {
        Seq::empty()
    } else {
        let u = units[0].1;
        (if u[0] % 32 == 7 || u[0] % 32 == 8 {
            seq![0u8, 0, 0, 1] + u
        } else {
            Seq::empty()
        }) + sets_of(units.skip(1))
    }
}

proof fn lemma_shift_next(a: Seq<u8>, x: Seq<u8>, i: int)
    requires
        0 <= i <= x.len(),
    ensures
        next_start(a + x, a.len() + i) == a.len() + next_start(x, i),
    decreases x.len() - i,
{
    if i + 3 < x.len() {
        assert(starts_at(a + x, a.len() + i) == starts_at(x, i));
        if !starts_at(x, i) {
            lemma_shift_next(a, x, i + 1);
        }
    }
}

proof fn lemma_shift_sets(a: Seq<u8>, x: Seq<u8>, s: int)
    requires
        0 <= s <= x.len(),
        s < x.len() ==> starts_at(x, s),
    ensures
        sets_from(a + x, a.len() + s) == sets_from(x, s),
    decreases x.len() - s,
{
    if s + 3 < x.len() {
        lemma_next_start(x, s + 1);
        lemma_shift_next(a, x, s + 1);
        let next = next_start(x, s + 1);
        lemma_shift_sets(a, x, next);
        assert(unit_end(a + x, a.len() + next) == a.len() + unit_end(x, next));
        assert((a + x).subrange(a.len() + s + 3, a.len() + unit_end(x, next)) =~= x.subrange(
            s + 3,
            unit_end(x, next),
        ));
    }
}

/// The next start code is the first place that has one.
proof fn lemma_next_is(au: Seq<u8>, i: int, n: int)
    requires
        0 <= i <= n <= au.len(),
        n < au.len() ==> starts_at(au, n),
        forall|k: int| i <= k < n ==> !starts_at(au, k),
    ensures
        next_start(au, i) == n,
{
    lemma_next_start(au, i);
    let m = next_start(au, i);
    if m < n {
        assert(starts_at(au, m));
    } else if n < m {
        assert(starts_at(au, n));
    }
}

/// Where the first start code of a stream of units stands.
spec fn lead(units: Seq<(bool, Seq<u8>)>) -> int {
    if units.len() > 0 && units[0].0 {
        1
    } else {
        0
    }
}

proof fn lemma_first_start(units: Seq<(bool, Seq<u8>)>)
    requires
        forall|i: int| 0 <= i < units.len() ==> is_unit((#[trigger] units[i]).1),
    ensures
        units.len() > 0 ==> starts_at(stream_of(units), lead(units)) && next_start(stream_of(units), 0) == lead(units)
            && stream_of(units)[0] == 0 && stream_of(units)[1] == 0,
        units.len() == 0 ==> stream_of(units).len() == 0,
{
    if units.len() > 0 {
        let (long, u) = units[0];
        assert(is_unit(units[0].1));
        let x = stream_of(units);
        assert(starts_at(x, lead(units)));
        if long {
            assert(x[2] == 0);
            assert(!starts_at(x, 0));
        }
        lemma_next_is(x, 0, lead(units));
    }
}

/// The parameter sets of an access unit are those among its units that are SPS or PPS, whole and in order, whether
/// their start codes are short or long, each behind a long one.
pub proof fn law_parameter_sets_are_found(units: Seq<(bool, Seq<u8>)>)
    requires
        forall|i: int| 0 <= i < units.len() ==> is_unit((#[trigger] units[i]).1),
    ensures
        parameter_sets_of(stream_of(units)) == sets_of(units),
    decreases units.len(),
{
    let x = stream_of(units);
    lemma_first_start(units);
    if units.len() == 0 {
        assert(parameter_sets_of(x) =~= Seq::empty());
    } else {
        let (long, u) = units[0];
        assert(is_unit(units[0].1));
        let rest = units.skip(1);
        assert forall|i: int| 0 <= i < rest.len() implies is_unit((#[trigger] rest[i]).1) by {
            assert(rest[i] == units[i + 1]);
        }
        law_parameter_sets_are_found(rest);
        lemma_first_start(rest);
        let y = stream_of(rest);
        let code = if long {
            seq![0u8, 0, 0, 1]
        } else {
            seq![0u8, 0, 1]
        };
        let head = code + u;
        assert(x =~= head + y);
        let s = lead(units);
        let n = head.len() as int;
        let next = if rest.len() > 0 {
            n + lead(rest)
        } else {
            n
        };
        assert forall|k: int| s + 1 <= k < next implies !starts_at(x, k) by {
            if k < s + 3 {
                assert(x[s + 2] == 1);
            } else if k + 2 < n {
                let j = k - (s + 3);
                assert(x[k] == u[j] && x[k + 1] == u[j + 1] && x[k + 2] == u[j + 2]);
                assert(!(u[j] == 0 && u[j + 1] == 0 && u[j + 2] == 1));
            } else if k < n {
                assert(x[n - 1] == u.last());
            } else {
                assert(x[k] == y[0] && x[k + 2] == y[2]);
                assert(y[2] == 0);
            }
        }
        if rest.len() > 0 {
            assert(starts_at(y, lead(rest)));
            assert(starts_at(x, next));
        }
        lemma_next_is(x, s + 1, next);
        assert(x[n - 1] == u.last());
        if rest.len() > 0 && lead(rest) == 1 {
            assert(x[n] == y[0]);
        }
        assert(unit_end(x, next) == n);
        assert(x.subrange(s + 3, n) =~= u);
        assert(x[s + 3] == u[0]);
        let b = u[0];
        assert((b & 0x1f == 7) == (b % 32 == 7) && (b & 0x1f == 8) == (b % 32 == 8)) by (bit_vector);
        lemma_shift_sets(head, y, next - n);
        assert(sets_from(x, next) == sets_from(y, next - n));
        assert(sets_from(y, next - n) == parameter_sets_of(y));
        assert(parameter_sets_of(x) =~= sets_of(units));
    }
}

/// The camera starts not zoomed and in the middle, at auto, on the back lens.
pub proof fn law_how_the_camera_starts()
    ensures
        ({
            let s = first_state();
            &&& s.zoom == 100 && s.pan_x == 32768 && s.pan_y == 32768 && s.lens_id == 0
            &&& s.af_mode == 0 && s.exposure_comp == 0 && s.exposure_lock == 0 && s.wb_lock == 0 && s.torch == 0
            &&& s.battery == 76 && s.charging == 0
        }),
{
}

/// The phone has two lenses, each under the number of its place, that stream whole pictures a second only; all modes of
/// the one in front are also modes of the one on the back.
pub proof fn law_what_the_phone_has(i: int)
    ensures
        lens_views().len() == 2,
        lens_views()[0].id == 0 && lens_views()[0].facing == 0 && lens_views()[0].zoom_max == 400,
        lens_views()[1].id == 1 && lens_views()[1].facing == 1 && lens_views()[1].zoom_max == 200,
        lens_views()[0].modes == back_modes() && lens_views()[1].modes == front_modes(),
        0 <= i < back_modes().len() ==> back_modes()[i].fps_den == 1,
        0 <= i < front_modes().len() ==> back_modes().contains(front_modes()[i]),
        back_modes().len() == 5 && front_modes().len() == 2,
        back_modes()[0].width == 1920 && back_modes()[0].height == 1080 && back_modes()[0].fps_num == 30,
{
    assert(back_modes()[1] == front_modes()[0]);
    assert(back_modes()[4] == front_modes()[1]);
}

/// What came of a picture is what the encoder gave back: its kind and its bytes, or nothing.
pub proof fn law_what_the_encoder_gives_back_counts(r: Result<(Made, Vec<u8>), openh264::Error>)
    ensures
        r matches Ok((made, data)) ==> made_of(r) == Some((made, data@)),
        r is Err ==> made_of(r) is None,
{
}

/// Pictures are made while the session streams, in the size and at the rate that were asked for, and a change is told
/// with the first of them.
pub proof fn law_pictures_have_the_size_that_was_asked_for(cam: Camera, req: lenny_stream_settings)
    requires
        req.mode.width > 0,
        req.mode.fps_den == 1,
    ensures
        step_of(asked_for(cam, req), true) == (Step::Picture {
            width: req.mode.width,
            height: req.mode.height,
            fps: req.mode.fps_num,
            tell: true,
        }),
        step_of(asked_for(cam, req), false) is Wait,
        cam.size is None ==> step_of(cam, true) is Wait,
        step_of(Camera { changed: false, ..asked_for(cam, req) }, true) matches Step::Picture { tell, .. } && !tell,
{
}

} // verus!
