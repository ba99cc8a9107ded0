//! The words for the session's state, and what a click asks of the phone.
use vstd::prelude::*;

use crate::abi::{
    lenny_control, lenny_control_cmd, lenny_control_state, lenny_state, LENNY_CAP_FOCUS, LENNY_CAP_PAN, LENNY_CAP_ZOOM,
};
use crate::receiver::engine::control;
use crate::receiver::link::text_view;
use crate::text::{chars_of, decimal, decimal_value, push_decimal};
use crate::timing::more_than;
use crate::wire::caps::Lens;
use crate::wire::simple::PAN_CENTER;

verus! {

/// Kinds of buttons.
#[derive(Clone, Copy, Debug, PartialEq, Eq, Structural)]
pub enum Kind {
    Primary,
    Destructive,
    Neutral,
}

/// The colour that goes with a state.
#[derive(Clone, Copy, Debug, PartialEq, Eq, Structural)]
pub enum Tone {
    Green,
    Lilac,
    Coral,
}

/// The chip in the title bar for a session in `state`, where `paused` tells that the phone said its stream is not
/// live.
pub open spec fn status_of(state: i32, paused: bool) -> (Tone, Seq<char>) {
    if state == lenny_state::LENNY_STATE_STREAMING.code() {
        if paused {
            (Tone::Lilac, "Phone paused"@)
        } else {
            (Tone::Green, "Streaming"@)
        }
    } else if state == lenny_state::LENNY_STATE_AWAITING_APPROVAL.code() {
        (Tone::Lilac, "Allow the phone?"@)
    } else if state == lenny_state::LENNY_STATE_HANDSHAKE.code() {
        (Tone::Lilac, "Connecting…"@)
    } else if state == lenny_state::LENNY_STATE_CLOSED.code() {
        (Tone::Coral, "Stopped"@)
    } else {
        (Tone::Lilac, "Waiting for a phone"@)
    }
}

pub fn status(state: i32, paused: bool) -> (r: (Tone, &'static str))
    ensures
        (r.0, r.1@) == status_of(state, paused),
{
    if state == lenny_state::LENNY_STATE_STREAMING.code() {
        if paused {
            (Tone::Lilac, "Phone paused")
        } else {
            (Tone::Green, "Streaming")
        }
    } else if state == lenny_state::LENNY_STATE_AWAITING_APPROVAL.code() {
        (Tone::Lilac, "Allow the phone?")
    } else if state == lenny_state::LENNY_STATE_HANDSHAKE.code() {
        (Tone::Lilac, "Connecting…")
    } else if state == lenny_state::LENNY_STATE_CLOSED.code() {
        (Tone::Coral, "Stopped")
    } else {
        (Tone::Lilac, "Waiting for a phone")
    }
}

/// The part of the window's frame under the pointer.
#[derive(Clone, Copy, Debug, PartialEq, Eq, Structural)]
pub enum Edge {
    NorthWest,
    NorthEast,
    SouthWest,
    SouthEast,
    West,
    East,
    North,
    South,
}

/// The edge for a pointer that is near the given sides: corners before sides, left and top before right and bottom.
pub open spec fn edge_of(left: bool, right: bool, top: bool, bottom: bool) -> Option<Edge> {
    if top && left {
        Some(Edge::NorthWest)
    } else if top && right {
        Some(Edge::NorthEast)
    } else if bottom && left {
        Some(Edge::SouthWest)
    } else if bottom && right {
        Some(Edge::SouthEast)
    } else if left {
        Some(Edge::West)
    } else if right {
        Some(Edge::East)
    } else if top {
        Some(Edge::North)
    } else if bottom {
        Some(Edge::South)
    } else {
        None
    }
}

pub fn resize_edge(left: bool, right: bool, top: bool, bottom: bool) -> (e: Option<Edge>)
    ensures
        e == edge_of(left, right, top, bottom),
{
    match (left, right, top, bottom) {
        (true, _, true, _) => Some(Edge::NorthWest),
        (_, true, true, _) => Some(Edge::NorthEast),
        (true, _, _, true) => Some(Edge::SouthWest),
        (_, true, _, true) => Some(Edge::SouthEast),
        (true, _, _, _) => Some(Edge::West),
        (_, true, _, _) => Some(Edge::East),
        (_, _, true, _) => Some(Edge::North),
        (_, _, _, true) => Some(Edge::South),
        _ => None,
    }
}

/// What the preview shows.
#[derive(Clone, Copy, Debug, PartialEq, Eq, Structural)]
pub enum Shown {
    /// The picture.
    Picture,
    /// The last picture, greyed out, with a word on why it stands still.
    Frozen,
    /// No picture yet.
    Waiting,
    NoPhone,
}

/// A picture that is this old stands still, in microseconds.
pub const FRESH_US: i64 = 1_000_000;

/// What the preview shows: a picture only while streaming, and never a frozen one without saying so. `frame_at` is when
/// the last frame came.
pub open spec fn shown_of(has_video: bool, streaming: bool, frame_at: Option<i64>, now: i64) -> Shown {
    if !streaming {
        Shown::NoPhone
    } else if !has_video {
        Shown::Waiting
    } else if frame_at matches Some(at) && now - at < FRESH_US {
        Shown::Picture
    } else {
        Shown::Frozen
    }
}

pub fn shown(has_video: bool, streaming: bool, frame_at: Option<i64>, now: i64) -> (s: Shown)
    ensures
        s == shown_of(has_video, streaming, frame_at, now),
{
    let fresh = match frame_at {
        Some(at) => !more_than(now, at, FRESH_US - 1),
        None => false,
    };
    if !streaming {
        Shown::NoPhone
    } else if !has_video {
        Shown::Waiting
    } else if fresh {
        Shown::Picture
    } else {
        Shown::Frozen
    }
}

/// The words over a picture that stands still: the phone's reason, or that video is awaited.
pub open spec fn frozen_words(reason: Option<Seq<char>>) -> Seq<char> {
    match reason {
        Some(r) => if r.len() > 0 {
            r
        } else {
            "Waiting for video…"@
        },
        None => "Waiting for video…"@,
    }
}

pub fn frozen_text(reason: Option<String>) -> (text: String)
    ensures
        text@ == frozen_words(text_view(reason)),
{
    if let Some(r) = reason {
        if r.as_str().unicode_len() > 0 {
            return r;
        }
    }
    let mut text = String::new();
    text.append("Waiting for video…");
    assert(text@ =~= "Waiting for video…"@);
    text
}

/// After a disconnect the session starts to listen again, once its old thread has finished: up to sixty tries.
#[derive(Clone, Copy, Debug, PartialEq, Eq, Structural)]
pub struct Relisten {
    pub left: u32,
}

/// What to do after a try.
#[derive(Clone, Copy, Debug, PartialEq, Eq, Structural)]
pub enum After {
    Done,
    Again,
    GiveUp,
}

/// The pause before each try, in milliseconds.
pub const RELISTEN_MS: u64 = 50;

/// What to do after a try, with so many left before it.
pub open spec fn after_try(left: int, listening: bool) -> After {
    if listening {
        After::Done
    } else if left > 1 {
        After::Again
    } else {
        After::GiveUp
    }
}

/// How many tries are left after one.
pub open spec fn left_after(left: int) -> int {
    if left > 0 {
        left - 1
    } else {
        0
    }
}

impl Relisten {
    pub fn new() -> (r: Relisten)
        ensures
            r.left == 60,
    {
        Relisten { left: 60 }
    }

    /// A try succeeded or failed.
    pub fn tried(&mut self, listening: bool) -> (a: After)
        ensures
            a == after_try(old(self).left as int, listening),
            final(self).left == left_after(old(self).left as int),
    {
        if self.left > 0 {
            self.left = self.left - 1;
        }
        if listening {
            After::Done
        } else if self.left > 0 {
            After::Again
        } else {
            After::GiveUp
        }
    }
}

/// Whether focus, exposure and white balance are all left to the phone.
pub open spec fn all_auto(cs: lenny_control_state) -> bool {
    cs.af_mode == 0 && cs.exposure_comp == 0 && cs.exposure_lock == 0 && cs.wb_lock == 0
}

pub fn is_auto(cs: &lenny_control_state) -> (r: bool)
    ensures
        r == all_auto(*cs),
{
    cs.af_mode == 0 && cs.exposure_comp == 0 && cs.exposure_lock == 0 && cs.wb_lock == 0
}

/// A control without a position.
pub open spec fn request(cmd: lenny_control_cmd, value: i32) -> lenny_control {
    lenny_control { req_id: 0, cmd: cmd.code(), x: 0, y: 0, value }
}

/// What a click on "Auto" or "Manual" asks of the phone.
pub open spec fn mode_request(manual: bool, cs: lenny_control_state) -> Option<lenny_control> {
    if !manual && !all_auto(cs) {
        Some(request(lenny_control_cmd::LENNY_CTL_RESET_AUTO, 0))
    } else {
        None
    }
}

/// What a click on a switch that is at `now` asks of the phone.
pub open spec fn switch_request(cmd: lenny_control_cmd, now: u8) -> lenny_control {
    request(
        cmd,
        if now == 0 {
            1
        } else {
            0
        },
    )
}

/// What a click on a lens asks of the phone.
pub open spec fn lens_request(id: u8) -> lenny_control {
    request(lenny_control_cmd::LENNY_CTL_SELECT_LENS, id as i32)
}

/// What a click on "Centre" asks of the phone.
pub open spec fn centre_request(cs: lenny_control_state) -> Option<lenny_control> {
    if cs.pan_x != PAN_CENTER || cs.pan_y != PAN_CENTER {
        Some(
            lenny_control {
                x: PAN_CENTER,
                y: PAN_CENTER,
                ..request(lenny_control_cmd::LENNY_CTL_PAN, 0)
            },
        )
    } else {
        None
    }
}

/// A click on "Auto" or "Manual": whether the card is in manual mode from now on, and what to send. Going back to
/// "Auto" resets the phone where it is not at auto.
pub fn mode_clicked(manual: bool, cs: &lenny_control_state) -> (r: (bool, Option<lenny_control>))
    ensures
        r.0 == manual,
        r.1 == mode_request(manual, *cs),
{
    if !manual && !is_auto(cs) {
        (manual, Some(control(lenny_control_cmd::LENNY_CTL_RESET_AUTO, 0, 0, 0)))
    } else {
        (manual, None)
    }
}

/// A click on a switch that is at `now`: the command with the other value.
pub fn switched(cmd: lenny_control_cmd, now: u8) -> (c: lenny_control)
    ensures
        c == switch_request(cmd, now),
{
    let value: i32 = if now == 0 {
        1
    } else {
        0
    };
    control(cmd, 0, 0, value)
}

/// A click on the lens at `i` in the list of lenses.
pub fn lens_clicked(lenses: &Vec<Lens>, i: usize) -> (c: Option<lenny_control>)
    ensures
        c is Some <==> i < lenses@.len(),
        c matches Some(c) ==> c == lens_request(lenses@[i as int].id),
{
    if i < lenses.len() {
        let id: i32 = lenses[i].id as i32;
        Some(control(lenny_control_cmd::LENNY_CTL_SELECT_LENS, 0, 0, id))
    } else {
        None
    }
}

/// A click on "Centre", if the picture is off centre.
pub fn centre_clicked(cs: &lenny_control_state) -> (c: Option<lenny_control>)
    ensures
        c == centre_request(*cs),
{
    if cs.pan_x != PAN_CENTER || cs.pan_y != PAN_CENTER {
        Some(control(lenny_control_cmd::LENNY_CTL_PAN, PAN_CENTER, PAN_CENTER, 0))
    } else {
        None
    }
}

/// Whether `controls` has the control `cap`, one bit of it.
pub fn has(controls: u32, cap: u32) -> (r: bool)
    ensures
        r == (controls & cap != 0),
{
    controls & cap != 0
}

/// The zoom that the wheel can reach, times a hundred: the lens's own range, or once to four times where the lens
/// does not tell.
pub open spec fn wheel_range_of(zoom: Option<(u16, u16)>) -> (u16, u16) {
    match zoom {
        Some((lo, hi)) => if hi > 0 {
            (
                if lo > 1 {
                    lo
                } else {
                    1
                },
                hi,
            )
        } else {
            (100, 400)
        },
        None => (100, 400),
    }
}

/// The zoom range of a lens, smallest and largest.
pub open spec fn zoom_of(lens: Option<&Lens>) -> Option<(u16, u16)> {
    match lens {
        Some(l) => Some((l.zoom_min, l.zoom_max)),
        None => None,
    }
}

pub fn wheel_range(lens: Option<&Lens>) -> (r: (u16, u16))
    ensures
        r == wheel_range_of(zoom_of(lens)),
{
    match lens {
        Some(l) => if l.zoom_max > 0 {
            (
                if l.zoom_min > 1 {
                    l.zoom_min
                } else {
                    1
                },
                l.zoom_max,
            )
        } else {
            (100, 400)
        },
        None => (100, 400),
    }
}

/// The zoom that a lens has by itself, times a hundred; a lens that does not tell has none.
pub open spec fn base_zoom(lens: Option<&Lens>) -> int {
    match lens {
        Some(l) => if l.zoom_base == 0 {
            100
        } else {
            l.zoom_base as int
        },
        None => 100,
    }
}

/// Whether dragging moves the picture, for a lens with this zoom of its own, times a hundred.
pub open spec fn pans(controls: u32, base: int, zoom: u16) -> bool {
    controls & LENNY_CAP_PAN != 0 && base * (if zoom > 1 {
        zoom as int
    } else {
        1
    }) > 10100
}

/// Dragging moves the picture where the phone can pan and the zoom on the camera's field of view, the lens's own
/// included, is over 1.01.
pub fn can_pan(controls: u32, lens: Option<&Lens>, zoom: u16) -> (r: bool)
    ensures
        r == pans(controls, base_zoom(lens), zoom),
{
    let base: u64 = match lens {
        Some(l) => if l.zoom_base == 0 {
            100
        } else {
            l.zoom_base as u64
        },
        None => 100,
    };
    let z: u64 = if zoom > 1 {
        zoom as u64
    } else {
        1
    };
    assert(0 <= base * z <= 65535 * 65535) by (nonlinear_arith)
        requires
            base <= 65535,
            z <= 65535,
    ;
    let product: u64 = base * z;
    has(controls, LENNY_CAP_PAN) && product > 10100
}

/// What hovering over the preview offers.
#[derive(Clone, Copy, Debug, PartialEq, Eq, Structural)]
pub enum Pointer {
    Crosshair,
    Grab,
    Plain,
}

/// The pointer over the preview: a crosshair where a click focuses, a hand where dragging pans.
pub fn pointer(manual: bool, controls: u32, pans: bool) -> (p: Pointer)
    ensures
        p == (if manual && controls & LENNY_CAP_FOCUS != 0 {
            Pointer::Crosshair
        } else if pans {
            Pointer::Grab
        } else {
            Pointer::Plain
        }),
{
    if manual && has(controls, LENNY_CAP_FOCUS) {
        Pointer::Crosshair
    } else if pans {
        Pointer::Grab
    } else {
        Pointer::Plain
    }
}

/// Whether the zoom slider is there: for a lens that zooms beyond one, on a phone that takes the command.
pub fn shows_zoom(controls: u32, lens: Option<&Lens>) -> (r: bool)
    ensures
        r == (controls & LENNY_CAP_ZOOM != 0 && (lens matches Some(l) && l.zoom_max > 100)),
{
    match lens {
        Some(l) => l.zoom_max > 100 && has(controls, LENNY_CAP_ZOOM),
        None => false,
    }
}

/// The battery in words, `87% ⚡`, or nothing where the phone does not tell.
pub open spec fn battery_words(cs: lenny_control_state) -> Option<Seq<char>> {
    if cs.battery <= 100 {
        Some(
            decimal(cs.battery as nat) + "%"@ + (if cs.charging != 0 {
                " ⚡"@
            } else {
                Seq::empty()
            }),
        )
    } else {
        None
    }
}

pub fn battery(cs: &lenny_control_state) -> (r: Option<String>)
    ensures
        r is Some <==> battery_words(*cs) is Some,
        r matches Some(t) ==> battery_words(*cs) == Some(t@),
{
    if cs.battery > 100 {
        return None;
    }
    let mut t = String::new();
    push_decimal(&mut t, cs.battery as u32);
    t.append("%");
    if cs.charging != 0 {
        t.append(" ⚡");
    }
    assert(t@ =~= battery_words(*cs)->0);
    Some(t)
}

// ---- the command line ----

/// Where `name` stands first among the arguments.
pub open spec fn arg_at(args: Seq<String>, name: Seq<char>, i: int) -> bool {
    &&& 0 <= i < args.len()
    &&& args[i]@ == name
    &&& forall|j: int| 0 <= j < i ==> (#[trigger] args[j])@ != name
}

/// The argument behind the first `name`.
pub fn arg<'a>(args: &'a [String], name: &String) -> (r: Option<&'a String>)
    ensures
        r is Some <==> exists|i: int| #[trigger] arg_at(args@, name@, i) && i + 1 < args@.len(),
        r matches Some(v) ==> exists|i: int| #[trigger]
            arg_at(args@, name@, i) && i + 1 < args@.len() && *v == args@[i + 1],
{
    let mut i: usize = 0;
    while i < args.len()
        invariant
            i <= args@.len(),
            forall|j: int| 0 <= j < i ==> (#[trigger] args@[j])@ != name@,
        decreases args.len() - i,
    {
        if args[i] == *name {
            assert(arg_at(args@, name@, i as int));
            if i + 1 < args.len() {
                return Some(&args[i + 1]);
            }
            assert forall|k: int| #[trigger] arg_at(args@, name@, k) implies k == i by {
                if k < i {
                    assert(args@[k]@ != name@);
                } else if i < k {
                    assert(args@[i as int]@ != name@);
                }
            }
            return None;
        }
        i = i + 1;
    }
    None
}

/// Decimal digits only.
pub open spec fn all_digits(s: Seq<char>) -> bool {
    forall|i: int| 0 <= i < s.len() ==> is_digit(#[trigger] s[i])
}

pub open spec fn is_digit(c: char) -> bool {
    '0' <= c <= '9'
}

/// A text without a plus sign in front of it.
pub open spec fn without_plus(text: Seq<char>) -> Seq<char> {
    if text.len() > 0 && text[0] == '+' {
        text.skip(1)
    } else {
        text
    }
}

/// A number as `u16` reads it: digits, at least one and none of them too many; a plus sign may stand before them.
pub open spec fn u16_of(text: Seq<char>) -> Option<u16> {
    let digits = without_plus(text);
    if digits.len() > 0 && all_digits(digits) && decimal_value(digits) <= u16::MAX {
        Some(decimal_value(digits) as u16)
    } else {
        None
    }
}

/// The value of a decimal digit.
fn digit_value(c: char) -> (v: Option<u32>)
    ensures
        v == (if is_digit(c) {
            Some((c as u32 - 48) as u32)
        } else {
            None
        }),
{
    let n: u32 = c as u32;
    if 48 <= n && n <= 57 {
        Some(n - 48)
    } else {
        None
    }
}

/// A decimal number is no smaller than its front.
proof fn lemma_front_is_smaller(text: Seq<char>, n: int)
    requires
        0 <= n <= text.len(),
    ensures
        decimal_value(text.take(n)) <= decimal_value(text),
    decreases text.len() - n,
{
    if n < text.len() {
        lemma_front_is_smaller(text, n + 1);
        assert(text.take(n + 1).drop_last() =~= text.take(n));
    } else {
        assert(text.take(n) =~= text);
    }
}

/// A port number from the command line.
pub fn parse_port(text: &str) -> (r: Option<u16>)
    ensures
        r == u16_of(text@),
{
    let chars = chars_of(text);
    let from: usize = if chars.len() > 0 && chars[0] == '+' {
        1
    } else {
        0
    };
    let ghost digits = without_plus(text@);
    assert(digits =~= chars@.skip(from as int));
    if from == chars.len() {
        return None;
    }
    let mut n: u32 = 0;
    let mut i: usize = from;
    assert(digits.take(0) =~= Seq::<char>::empty());
    while i < chars.len()
        invariant
            from <= i <= chars@.len(),
            digits == chars@.skip(from as int),
            digits == without_plus(text@),
            n <= u16::MAX,
            n == decimal_value(digits.take(i - from)),
            all_digits(digits.take(i - from)),
        decreases chars.len() - i,
    {
        let ghost k = i - from;
        let ghost upto = digits.take(k + 1);
        assert(digits[k] == chars@[i as int]);
        let v: u32 = match digit_value(chars[i]) {
            Some(v) => v,
            None => {
                assert(!is_digit(digits[k]));
                return None;
            },
        };
        assert(upto.drop_last() =~= digits.take(k));
        assert(upto.last() == digits[k]);
        assert forall|j: int| 0 <= j < upto.len() implies is_digit(#[trigger] upto[j]) by {
            if j < k {
                assert(upto[j] == digits.take(k)[j]);
            }
        }
        n = 10 * n + v;
        assert(n == decimal_value(upto));
        if n > 65535 {
            proof {
                lemma_front_is_smaller(digits, k + 1);
            }
            return None;
        }
        i = i + 1;
    }
    assert(digits.take(i - from) =~= digits);
    Some(n as u16)
}

} // verus!
