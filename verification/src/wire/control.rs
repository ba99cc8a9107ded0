//! CONTROL, and the stream settings of CAPS_SELECT and STREAM_START.
use vstd::prelude::*;
use crate::abi::{CTL_FIRST, CTL_LAST, lenny_control, lenny_control_cmd, lenny_mode, lenny_stream_settings};
use crate::le::Le;
use crate::wire::lookup::{Slot, lemma_absent, number, number_of};
use crate::wire::message::{Message, decoded};
use crate::wire::msg;
use crate::wire::tlv::{
    Field, RawField, TlvWriter, all_fit, blob, fields, fields_view, law_written_fields_read_back, lemma_list, num,
    push_if, tlv_bytes, tlv_fields,
};

verus! {

// ---- Stream settings ---------------------------------------------------------------------------

pub open spec fn settings_fields(s: lenny_stream_settings) -> Seq<Field> {
    let fs = Seq::empty().push(num(1, s.codec)).push(num(2, s.mode.width)).push(
        num(3, s.mode.height),
    ).push(num(4, s.mode.fps_num)).push(num(5, s.mode.fps_den)).push(num(6, s.bitrate_kbps));
    push_if(fs, s.has_lens != 0, num(7, s.lens_id))
}

pub open spec fn settings_of(fs: Seq<Field>) -> Option<lenny_stream_settings> {
    match (
        number_of::<u8>(fs, 1),
        number_of::<u16>(fs, 2),
        number_of::<u16>(fs, 3),
        number_of::<u16>(fs, 4),
        number_of::<u16>(fs, 5),
        number_of::<u32>(fs, 6).or(0),
        number_of::<u8>(fs, 7),
    ) {
        (
            Slot::Is(codec),
            Slot::Is(width),
            Slot::Is(height),
            Slot::Is(fps_num),
            Slot::Is(fps_den),
            Some(bitrate_kbps),
            lens,
        ) => {
            let s = lenny_stream_settings {
                codec,
                mode: lenny_mode { width, height, fps_num, fps_den },
                bitrate_kbps,
                has_lens: 0,
                lens_id: 0,
            };
            match lens {
                _ if fps_den == 0 => None,
                Slot::Malformed => None,
                Slot::Absent => Some(s),
                Slot::Is(lens_id) => Some(lenny_stream_settings { has_lens: 1, lens_id, ..s }),
            }
        },
        _ => None,
    }
}

/// Writes stream settings.
pub fn encode_settings(w: &mut TlvWriter<'_>, s: &lenny_stream_settings)
    ensures
        final(w).0@ == old(w).0@ + tlv_bytes(settings_fields(*s)),
        *final(final(w).0) == *final(old(w).0),
{
    broadcast use crate::wire::tlv::lemma_append;

    assert(w.0@ =~= old(w).0@ + tlv_bytes(Seq::empty()));
    w.u8(1, s.codec);
    w.u16(2, s.mode.width);
    w.u16(3, s.mode.height);
    w.u16(4, s.mode.fps_num);
    w.u16(5, s.mode.fps_den);
    w.u32(6, s.bitrate_kbps);
    if s.has_lens != 0 {
        w.u8(7, s.lens_id);
    }
}

/// The stream settings that a payload holds: none where its fields are cut short or do not make settings.
pub open spec fn settings_in(v: Seq<u8>) -> Option<lenny_stream_settings> {
    match tlv_fields(v) {
        Some(fs) => settings_of(fs),
        None => None,
    }
}

/// Reads stream settings.
pub fn decode_settings(v: &[u8]) -> (r: Option<lenny_stream_settings>)
    ensures
        r == settings_in(v@),
{
    let fs = fields(v)?;
    let codec: u8 = number::<u8>(&fs, 1).required()?;
    let width: u16 = number::<u16>(&fs, 2).required()?;
    let height: u16 = number::<u16>(&fs, 3).required()?;
    let fps_num: u16 = number::<u16>(&fs, 4).required()?;
    let fps_den: u16 = number::<u16>(&fs, 5).required()?;
    let bitrate_kbps: u32 = number::<u32>(&fs, 6).or(0)?;
    if fps_den == 0 {
        return None;
    }
    let (has_lens, lens_id): (u8, u8) = match number::<u8>(&fs, 7) {
        Slot::Malformed => {
            return None;
        },
        Slot::Absent => (0, 0),
        Slot::Is(id) => (1, id),
    };
    Some(
        lenny_stream_settings {
            codec,
            mode: lenny_mode { width, height, fps_num, fps_den },
            bitrate_kbps,
            has_lens,
            lens_id,
        },
    )
}

/// What is left of settings on the wire: a lens is either chosen or not.
pub open spec fn settings_on_wire(s: lenny_stream_settings) -> lenny_stream_settings {
    if s.has_lens != 0 {
        lenny_stream_settings { has_lens: 1, ..s }
    } else {
        lenny_stream_settings { lens_id: 0, ..s }
    }
}

proof fn lemma_settings_round_trip(s: lenny_stream_settings)
    ensures
        tlv_fields(tlv_bytes(settings_fields(s))) == Some(settings_fields(s)),
        settings_of(settings_fields(s)) == (if s.mode.fps_den == 0 {
            None
        } else {
            Some(settings_on_wire(s))
        }),
{
    broadcast use {
        crate::le::lemma_le,
        crate::wire::lookup::group_push,
        crate::wire::tlv::lemma_all_fit_push,
    };

    law_written_fields_read_back(settings_fields(s));
}

#[derive(Clone, Copy, Debug, PartialEq, Eq, Structural)]
pub struct CapsSelect(pub lenny_stream_settings);

impl View for CapsSelect {
    type V = lenny_stream_settings;

    open spec fn view(&self) -> lenny_stream_settings {
        self.0
    }
}

impl Message for CapsSelect {
    const TYPE: u16 = msg::CAPS_SELECT;

    open spec fn type_id() -> u16 {
        msg::CAPS_SELECT
    }

    fn message_type() -> (r: u16) {
        Self::TYPE
    }

    open spec fn fields(m: lenny_stream_settings, _minor: u8) -> Seq<Field> {
        settings_fields(m)
    }

    open spec fn from_fields(fs: Seq<Field>) -> Option<lenny_stream_settings> {
        settings_of(fs)
    }

    open spec fn knows(tag: u16) -> bool {
        1 <= tag <= 7
    }

    proof fn law_unknown_fields_are_skipped(a: Seq<Field>, f: Field, b: Seq<Field>) {
        broadcast use crate::wire::lookup::group_skips;

    }

    fn encode(&self, w: &mut TlvWriter<'_>, _minor: u8) {
        encode_settings(w, &self.0)
    }

    fn decode(v: &[u8]) -> (r: Option<Self>) {
        match decode_settings(v) {
            Some(s) => Some(CapsSelect(s)),
            None => None,
        }
    }
}

#[derive(Clone, Copy, Debug, PartialEq, Eq, Structural)]
pub struct StreamStart(pub lenny_stream_settings);

impl View for StreamStart {
    type V = lenny_stream_settings;

    open spec fn view(&self) -> lenny_stream_settings {
        self.0
    }
}

impl Message for StreamStart {
    const TYPE: u16 = msg::STREAM_START;

    open spec fn type_id() -> u16 {
        msg::STREAM_START
    }

    fn message_type() -> (r: u16) {
        Self::TYPE
    }

    open spec fn fields(m: lenny_stream_settings, _minor: u8) -> Seq<Field> {
        settings_fields(m)
    }

    open spec fn from_fields(fs: Seq<Field>) -> Option<lenny_stream_settings> {
        settings_of(fs)
    }

    open spec fn knows(tag: u16) -> bool {
        1 <= tag <= 7
    }

    proof fn law_unknown_fields_are_skipped(a: Seq<Field>, f: Field, b: Seq<Field>) {
        broadcast use crate::wire::lookup::group_skips;

    }

    fn encode(&self, w: &mut TlvWriter<'_>, _minor: u8) {
        encode_settings(w, &self.0)
    }

    fn decode(v: &[u8]) -> (r: Option<Self>) {
        match decode_settings(v) {
            Some(s) => Some(StreamStart(s)),
            None => None,
        }
    }
}

/// Stream settings come back as they were sent, in a CAPS_SELECT and in a STREAM_START, but for a lens that is not
/// chosen, which is not sent. Settings whose frame rate has no denominator are refused.
pub proof fn law_settings_round_trip(s: lenny_stream_settings, minor: u8)
    ensures
        settings_in(tlv_bytes(settings_fields(s))) == (if s.mode.fps_den == 0 {
            None
        } else {
            Some(settings_on_wire(s))
        }),
        decoded::<CapsSelect>(tlv_bytes(CapsSelect::fields(s, minor))) == (if s.mode.fps_den == 0 {
            None
        } else {
            Some(settings_on_wire(s))
        }),
        decoded::<StreamStart>(tlv_bytes(StreamStart::fields(s, minor))) == (if s.mode.fps_den == 0 {
            None
        } else {
            Some(settings_on_wire(s))
        }),
{
    lemma_settings_round_trip(s);
}

/// Settings that lack one of their first five fields are refused.
pub proof fn law_settings_need_their_first_fields(fs: Seq<Field>, tag: u16)
    requires
        all_fit(fs),
        1 <= tag <= 5,
        forall|i: int| 0 <= i < fs.len() ==> (#[trigger] fs[i]).tag != tag,
    ensures
        settings_in(tlv_bytes(fs)) is None,
        decoded::<CapsSelect>(tlv_bytes(fs)) is None,
        decoded::<StreamStart>(tlv_bytes(fs)) is None,
{
    law_written_fields_read_back(fs);
    lemma_absent(fs, tag);
}

/// Settings that are accepted have a frame rate, and a lens is either chosen or left at 0.
pub proof fn law_accepted_settings_have_a_frame_rate(v: Seq<u8>)
    ensures
        decoded::<CapsSelect>(v) == settings_in(v),
        decoded::<StreamStart>(v) == settings_in(v),
        settings_in(v) matches Some(s) ==> s.mode.fps_den != 0 && s == settings_on_wire(s) && s.has_lens <= 1,
{
}

// ---- CONTROL -----------------------------------------------------------------------------------

#[derive(Clone, Copy, Debug, PartialEq, Eq, Structural)]
pub struct Control(pub lenny_control);

impl View for Control {
    type V = lenny_control;

    open spec fn view(&self) -> lenny_control {
        self.0
    }
}

/// The fields of a position.
pub open spec fn point_fields(x: u16, y: u16) -> Seq<Field> {
    Seq::empty().push(num(1, x)).push(num(2, y))
}

/// The field that says what to do. Its tag is the control's number, and the value has the form
/// that the control asks for.
pub open spec fn command_field(c: lenny_control) -> Field {
    match lenny_control_cmd::of(c.cmd) {
        Some(lenny_control_cmd::LENNY_CTL_FOCUS_AT) | Some(lenny_control_cmd::LENNY_CTL_PAN) => {
            blob(c.cmd, tlv_bytes(point_fields(c.x, c.y)))
        },
        Some(lenny_control_cmd::LENNY_CTL_FOCUS_LOCK)
        | Some(lenny_control_cmd::LENNY_CTL_EXPOSURE_LOCK)
        | Some(lenny_control_cmd::LENNY_CTL_WB_LOCK)
        | Some(lenny_control_cmd::LENNY_CTL_TORCH) => num(
            c.cmd,
            if c.value != 0 {
                1u8
            } else {
                0u8
            },
        ),
        Some(lenny_control_cmd::LENNY_CTL_SELECT_LENS) => num(c.cmd, (c.value as int % 256) as u8),
        Some(lenny_control_cmd::LENNY_CTL_ZOOM) => num(c.cmd, (c.value as int % 65536) as u16),
        Some(lenny_control_cmd::LENNY_CTL_EXPOSURE_COMP) => num(c.cmd, c.value),
        _ => blob(c.cmd, Seq::empty()),
    }
}

/// Whether a control is newer than the protocol's `minor` version: the pan came with 1.1.
pub open spec fn is_newer(c: lenny_control, minor: u8) -> bool {
    minor < 1 && lenny_control_cmd::of(c.cmd) == Some(lenny_control_cmd::LENNY_CTL_PAN)
}

/// The first field that is a control, if there is one.
pub open spec fn first_command(fs: Seq<Field>) -> Option<Field>
    decreases fs.len(),
{
    if fs.len() == 0 {
        None
    } else if CTL_FIRST <= fs[0].tag <= CTL_LAST {
        Some(fs[0])
    } else {
        first_command(fs.skip(1))
    }
}

/// What a control field asks for, or `None` if its value has the wrong form.
pub open spec fn command_of(req_id: u32, f: Field) -> Option<lenny_control> {
    let c = lenny_control { req_id, cmd: f.tag, x: 0, y: 0, value: 0 };
    match lenny_control_cmd::of(f.tag) {
        Some(lenny_control_cmd::LENNY_CTL_FOCUS_AT) | Some(lenny_control_cmd::LENNY_CTL_PAN) => {
            match tlv_fields(f.val) {
                Some(at) => match (number_of::<u16>(at, 1).or(0), number_of::<u16>(at, 2).or(0)) {
                    (Some(x), Some(y)) => Some(lenny_control { x, y, ..c }),
                    _ => None,
                },
                None => None,
            }
        },
        Some(lenny_control_cmd::LENNY_CTL_FOCUS_LOCK)
        | Some(lenny_control_cmd::LENNY_CTL_EXPOSURE_LOCK)
        | Some(lenny_control_cmd::LENNY_CTL_WB_LOCK)
        | Some(lenny_control_cmd::LENNY_CTL_TORCH)
        | Some(lenny_control_cmd::LENNY_CTL_SELECT_LENS) => {
            if f.val.len() == 1 {
                Some(lenny_control { value: u8::of_bytes(f.val) as i32, ..c })
            } else {
                None
            }
        },
        Some(lenny_control_cmd::LENNY_CTL_ZOOM) => {
            if f.val.len() == 2 {
                Some(lenny_control { value: u16::of_bytes(f.val) as i32, ..c })
            } else {
                None
            }
        },
        Some(lenny_control_cmd::LENNY_CTL_EXPOSURE_COMP) => {
            if f.val.len() == 4 {
                Some(lenny_control { value: i32::of_bytes(f.val), ..c })
            } else {
                None
            }
        },
        _ => Some(c),
    }
}

impl Message for Control {
    const TYPE: u16 = msg::CONTROL;

    open spec fn type_id() -> u16 {
        msg::CONTROL
    }

    fn message_type() -> (r: u16) {
        Self::TYPE
    }

    open spec fn fields(c: lenny_control, minor: u8) -> Seq<Field> {
        let id = Seq::empty().push(num(1, c.req_id));
        if is_newer(c, minor) {
            id
        } else {
            id.push(command_field(c))
        }
    }

    /// The request id and the first control count; further controls are ignored.
    open spec fn from_fields(fs: Seq<Field>) -> Option<lenny_control> {
        match (number_of::<u32>(fs, 1), first_command(fs)) {
            (Slot::Is(req_id), Some(f)) => command_of(req_id, f),
            _ => None,
        }
    }

    open spec fn knows(tag: u16) -> bool {
        tag == 1 || CTL_FIRST <= tag <= CTL_LAST
    }

    proof fn law_unknown_fields_are_skipped(a: Seq<Field>, f: Field, b: Seq<Field>) {
        broadcast use crate::wire::lookup::group_skips;

        lemma_first_command_skips(a, f, b);

    }

    fn encode(&self, w: &mut TlvWriter<'_>, minor: u8) {
        broadcast use crate::wire::tlv::lemma_append;

        let c = &self.0;
        assert(w.0@ =~= old(w).0@ + tlv_bytes(Seq::empty()));
        w.u32(1, c.req_id);
        let ghost before = w.0@;
        let cmd = lenny_control_cmd::from_code(c.cmd);
        if minor < 1 && matches!(cmd, Some(lenny_control_cmd::LENNY_CTL_PAN)) {
            return;
        }
        match cmd {
            Some(lenny_control_cmd::LENNY_CTL_FOCUS_AT) | Some(
                lenny_control_cmd::LENNY_CTL_PAN,
            ) => {
                let l: usize = w.begin_list(c.cmd);
                let ghost open = w.0@;
                assert(w.0@ =~= open + tlv_bytes(Seq::empty()));
                w.u16(1, c.x);
                w.u16(2, c.y);
                w.end_list(l);
                proof {
                    lemma_list(before, c.cmd, tlv_bytes(point_fields(c.x, c.y)));
                }
            },
            Some(lenny_control_cmd::LENNY_CTL_FOCUS_LOCK)
            | Some(lenny_control_cmd::LENNY_CTL_EXPOSURE_LOCK)
            | Some(lenny_control_cmd::LENNY_CTL_WB_LOCK)
            | Some(lenny_control_cmd::LENNY_CTL_TORCH) => {
                w.u8(
                    c.cmd,
                    if c.value != 0 {
                        1
                    } else {
                        0
                    },
                );
            },
            Some(lenny_control_cmd::LENNY_CTL_SELECT_LENS) => {
                w.u8(c.cmd, low_byte(c.value));
            },
            Some(lenny_control_cmd::LENNY_CTL_ZOOM) => {
                w.u16(c.cmd, low_half(c.value));
            },
            Some(lenny_control_cmd::LENNY_CTL_EXPOSURE_COMP) => {
                w.i32(c.cmd, c.value);
            },
            _ => {
                w.empty(c.cmd);
            },
        }
        assert(w.0@ == before + crate::wire::tlv::field_bytes(command_field(*c)));
    }

    fn decode(v: &[u8]) -> (r: Option<Self>) {
        let fs = fields(v)?;
        let req_id: u32 = number::<u32>(&fs, 1).required()?;
        match find_command(&fs) {
            Some(i) => {
                match decode_command(req_id, &fs[i]) {
                    Some(c) => Some(Control(c)),
                    None => None,
                }
            },
            None => None,
        }
    }
}

/// The lowest eight bits of `v`.
pub fn low_byte(v: i32) -> (r: u8)
    ensures
        r == (v as int % 256) as u8,
{
    let u: u64 = (v as i64 + 0x1_0000_0000) as u64;
    (u % 256) as u8
}

/// The lowest sixteen bits of `v`.
fn low_half(v: i32) -> (r: u16)
    ensures
        r == (v as int % 65536) as u16,
{
    let u: u64 = (v as i64 + 0x1_0000_0000) as u64;
    (u % 65536) as u16
}

/// Where the first control stands among the fields.
fn find_command(fs: &Vec<RawField<'_>>) -> (r: Option<usize>)
    ensures
        match r {
            Some(i) => i < fs@.len() && first_command(fields_view(fs@)) == Some(fs@[i as int]@),
            None => first_command(fields_view(fs@)) is None,
        },
{
    let ghost all = fields_view(fs@);
    let mut i: usize = 0;
    assert(all.skip(0) =~= all);
    while i < fs.len()
        invariant
            i <= fs@.len(),
            all == fields_view(fs@),
            first_command(all) == first_command(all.skip(i as int)),
        decreases fs.len() - i,
    {
        if CTL_FIRST <= fs[i].tag && fs[i].tag <= CTL_LAST {
            return Some(i);
        }
        assert(all.skip(i as int).skip(1) =~= all.skip(i + 1));
        i = i + 1;
    }
    None
}

fn decode_command(req_id: u32, f: &RawField<'_>) -> (r: Option<lenny_control>)
    ensures
        r == command_of(req_id, f@),
{
    let mut c = lenny_control { req_id, cmd: f.tag, x: 0, y: 0, value: 0 };
    match lenny_control_cmd::from_code(f.tag) {
        Some(lenny_control_cmd::LENNY_CTL_FOCUS_AT) | Some(lenny_control_cmd::LENNY_CTL_PAN) => {
            let at = fields(f.val)?;
            c.x = number::<u16>(&at, 1).or(0)?;
            c.y = number::<u16>(&at, 2).or(0)?;
        },
        Some(lenny_control_cmd::LENNY_CTL_FOCUS_LOCK)
        | Some(lenny_control_cmd::LENNY_CTL_EXPOSURE_LOCK)
        | Some(lenny_control_cmd::LENNY_CTL_WB_LOCK)
        | Some(lenny_control_cmd::LENNY_CTL_TORCH)
        | Some(lenny_control_cmd::LENNY_CTL_SELECT_LENS) => {
            let b: u8 = <u8 as Le>::get(f.val)?;
            c.value = b as i32;
        },
        Some(lenny_control_cmd::LENNY_CTL_ZOOM) => {
            let z: u16 = <u16 as Le>::get(f.val)?;
            c.value = z as i32;
        },
        Some(lenny_control_cmd::LENNY_CTL_EXPOSURE_COMP) => {
            c.value = <i32 as Le>::get(f.val)?;
        },
        _ => {},
    }
    Some(c)
}

proof fn lemma_first_command_skips(a: Seq<Field>, f: Field, b: Seq<Field>)
    requires
        f.tag < CTL_FIRST || f.tag > CTL_LAST,
    ensures
        first_command(a.push(f) + b) == first_command(a + b),
    decreases a.len(),
{
    let with = a.push(f) + b;
    let without = a + b;
    if a.len() == 0 {
        assert(with.skip(1) =~= b);
        assert(without =~= b);
    } else {
        assert(with.skip(1) =~= a.skip(1).push(f) + b);
        assert(without.skip(1) =~= a.skip(1) + b);
        lemma_first_command_skips(a.skip(1), f, b);
    }
}

/// Whether a control says nothing that its form on the wire cannot carry: a position only where
/// the control has one, and a value only where it has one, in the range of that value.
pub open spec fn control_is_plain(c: lenny_control) -> bool {
    match lenny_control_cmd::of(c.cmd) {
        Some(lenny_control_cmd::LENNY_CTL_FOCUS_AT) | Some(lenny_control_cmd::LENNY_CTL_PAN) => {
            c.value == 0
        },
        Some(lenny_control_cmd::LENNY_CTL_FOCUS_LOCK)
        | Some(lenny_control_cmd::LENNY_CTL_EXPOSURE_LOCK)
        | Some(lenny_control_cmd::LENNY_CTL_WB_LOCK)
        | Some(lenny_control_cmd::LENNY_CTL_TORCH) => c.x == 0 && c.y == 0 && 0 <= c.value <= 1,
        Some(lenny_control_cmd::LENNY_CTL_SELECT_LENS) => c.x == 0 && c.y == 0 && 0 <= c.value
            < 256,
        Some(lenny_control_cmd::LENNY_CTL_ZOOM) => c.x == 0 && c.y == 0 && 0 <= c.value < 65536,
        Some(lenny_control_cmd::LENNY_CTL_EXPOSURE_COMP) => c.x == 0 && c.y == 0,
        Some(_) => c.x == 0 && c.y == 0 && c.value == 0,
        None => false,
    }
}

/// A control that is newer than the negotiated version is left out: no field of the message is a control, so that the
/// other side ignores it.
pub proof fn law_newer_controls_are_left_out(c: lenny_control, minor: u8)
    requires
        is_newer(c, minor),
    ensures
        Control::fields(c, minor) == seq![num(1, c.req_id)],
        decoded::<Control>(tlv_bytes(Control::fields(c, minor))) is None,
{
    broadcast use {
        crate::le::lemma_le,
        crate::wire::lookup::group_push,
        crate::wire::tlv::lemma_all_fit_push,
    };

    let fs = Control::fields(c, minor);
    law_written_fields_read_back(fs);
    assert(fs =~= seq![num(1, c.req_id)]);
    assert(first_command(fs.skip(1)) is None);
    assert(first_command(fs) is None);
}

/// What is left of a control on the wire: its position only where the control has one, and its value only where it has
/// one, as much of it as the field can carry. Nothing is left of a control that the negotiated version does not know.
pub open spec fn control_on_wire(c: lenny_control, minor: u8) -> Option<lenny_control> {
    let bare = lenny_control { x: 0, y: 0, value: 0, ..c };
    match lenny_control_cmd::of(c.cmd) {
        None => None,
        Some(lenny_control_cmd::LENNY_CTL_PAN) => if minor < 1 {
            None
        } else {
            Some(lenny_control { value: 0, ..c })
        },
        Some(lenny_control_cmd::LENNY_CTL_FOCUS_AT) => Some(lenny_control { value: 0, ..c }),
        Some(lenny_control_cmd::LENNY_CTL_FOCUS_LOCK)
        | Some(lenny_control_cmd::LENNY_CTL_EXPOSURE_LOCK)
        | Some(lenny_control_cmd::LENNY_CTL_WB_LOCK)
        | Some(lenny_control_cmd::LENNY_CTL_TORCH) => Some(
            lenny_control {
                value: if c.value != 0 {
                    1
                } else {
                    0
                },
                ..bare
            },
        ),
        Some(lenny_control_cmd::LENNY_CTL_SELECT_LENS) => Some(
            lenny_control { value: (c.value as int % 256) as i32, ..bare },
        ),
        Some(lenny_control_cmd::LENNY_CTL_ZOOM) => Some(
            lenny_control { value: (c.value as int % 65536) as i32, ..bare },
        ),
        Some(lenny_control_cmd::LENNY_CTL_EXPOSURE_COMP) => Some(lenny_control { value: c.value, ..bare }),
        Some(_) => Some(bare),
    }
}

/// A CONTROL comes back as its form on the wire can carry it: as it was sent where it is plain. One with a number that
/// stands for no control is refused.
pub proof fn law_control_round_trip(c: lenny_control, minor: u8)
    ensures
        decoded::<Control>(tlv_bytes(Control::fields(c, minor))) == control_on_wire(c, minor),
        control_is_plain(c) && !is_newer(c, minor) ==> control_on_wire(c, minor) == Some(c),
{
    if is_newer(c, minor) {
        law_newer_controls_are_left_out(c, minor);
    } else {
        lemma_written_control(c, minor);
    }
}

proof fn lemma_written_control(c: lenny_control, minor: u8)
    requires
        !is_newer(c, minor),
    ensures
        decoded::<Control>(tlv_bytes(Control::fields(c, minor))) == control_on_wire(c, minor),
{
    broadcast use {
        crate::le::lemma_le,
        crate::wire::lookup::group_push,
        crate::wire::tlv::lemma_all_fit_push,
    };

    let at = point_fields(c.x, c.y);
    law_written_fields_read_back(at);
    assert(tlv_bytes(at).len() == 12) by {
        crate::wire::tlv::lemma_tlv_bytes_push(Seq::empty().push(num(1, c.x)), num(2, c.y));
        crate::wire::tlv::lemma_tlv_bytes_push(Seq::empty(), num(1, c.x));
    }
    let fs = Control::fields(c, minor);
    law_written_fields_read_back(fs);
    assert(fs[0] == num(1, c.req_id));
    assert(fs.skip(1)[0] == command_field(c));
    if lenny_control_cmd::of(c.cmd) is None {
        assert(first_command(fs.skip(1).skip(1)) is None);
        assert(first_command(fs.skip(1)) is None);
        assert(first_command(fs) is None);
    } else {
        assert(first_command(fs.skip(1)) == Some(command_field(c)));
        assert(first_command(fs) == Some(command_field(c)));
    }
}

} // verus!
