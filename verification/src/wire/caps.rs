//! CAPS: what a sender can stream and how its camera can be controlled.
use vstd::prelude::*;
use crate::abi::{LENNY_CODEC_H264, lenny_mode};
use crate::wire::list::{
    decode_all, lemma_decode_all_fails, lemma_decode_all_is, lemma_decode_all_none, lemma_decode_all_push,
    lemma_list_all_fit, lemma_list_onto_push, lemma_nested_push, list_onto, nested, nested_fields, values, values_view,
};
use crate::wire::lookup::{Slot, all_of, last_value, number, number_of};
use crate::wire::message::{Message, Str, decoded};
use crate::wire::msg;
use crate::wire::simple::{text, text_of};
use crate::wire::tlv::{
    Field, TlvWriter, all_fit, blob, clipped, field_bytes, fields, law_written_fields_read_back,
    lemma_append, lemma_list, lemma_tlv_bytes_empty, num, push_if, tlv_bytes, tlv_fields, MAX_FIELD,
};

verus! {

// ---- Codec -------------------------------------------------------------------------------------

#[derive(Clone, Copy, Debug, PartialEq, Eq, Structural)]
pub struct Codec {
    pub id: u8,
    pub profile: u8,
    pub level: u8,
}

impl Default for Codec {
    fn default() -> (c: Self)
        ensures
            c == (Codec { id: LENNY_CODEC_H264, profile: 0, level: 0 }),
    {
        Codec { id: LENNY_CODEC_H264, profile: 0, level: 0 }
    }
}

pub open spec fn codec_fields(c: Codec) -> Seq<Field> {
    Seq::empty().push(num(1, c.id)).push(num(2, c.profile)).push(num(3, c.level))
}

pub open spec fn codec_bytes(c: Codec) -> Seq<u8> {
    tlv_bytes(codec_fields(c))
}

/// The codec that a value stands for. What is left out has its default.
pub open spec fn codec_of(v: Seq<u8>) -> Option<Codec> {
    match tlv_fields(v) {
        Some(fs) => match (
            number_of::<u8>(fs, 1).or(LENNY_CODEC_H264),
            number_of::<u8>(fs, 2).or(0),
            number_of::<u8>(fs, 3).or(0),
        ) {
            (Some(id), Some(profile), Some(level)) => Some(Codec { id, profile, level }),
            _ => None,
        },
        None => None,
    }
}

fn encode_codec(w: &mut TlvWriter<'_>, tag: u16, c: &Codec)
    ensures
        final(w).0@ == old(w).0@ + field_bytes(blob(tag, codec_bytes(*c))),
        *final(final(w).0) == *final(old(w).0),
{
    broadcast use crate::wire::tlv::lemma_append;

    let l: usize = w.begin_list(tag);
    let ghost open = w.0@;
    assert(w.0@ =~= open + tlv_bytes(Seq::empty()));
    w.u8(1, c.id);
    w.u8(2, c.profile);
    w.u8(3, c.level);
    w.end_list(l);
    proof {
        lemma_list(old(w).0@, tag, codec_bytes(*c));
    }
}

fn decode_codec(v: &[u8]) -> (r: Option<Codec>)
    ensures
        r == codec_of(v@),
{
    let fs = fields(v)?;
    let id: u8 = number::<u8>(&fs, 1).or(LENNY_CODEC_H264)?;
    let profile: u8 = number::<u8>(&fs, 2).or(0)?;
    let level: u8 = number::<u8>(&fs, 3).or(0)?;
    Some(Codec { id, profile, level })
}

// ---- Mode --------------------------------------------------------------------------------------

pub open spec fn mode_fields(md: lenny_mode) -> Seq<Field> {
    Seq::empty().push(num(1, md.width)).push(num(2, md.height)).push(num(3, md.fps_num)).push(
        num(4, md.fps_den),
    )
}

pub open spec fn mode_bytes(md: lenny_mode) -> Seq<u8> {
    tlv_bytes(mode_fields(md))
}

/// The mode that a value stands for. It must be complete and have a frame rate.
pub open spec fn mode_of(v: Seq<u8>) -> Option<lenny_mode> {
    match tlv_fields(v) {
        Some(fs) => match (
            number_of::<u16>(fs, 1),
            number_of::<u16>(fs, 2),
            number_of::<u16>(fs, 3),
            number_of::<u16>(fs, 4),
        ) {
            (Slot::Is(width), Slot::Is(height), Slot::Is(fps_num), Slot::Is(fps_den)) => {
                if fps_den != 0 {
                    Some(lenny_mode { width, height, fps_num, fps_den })
                } else {
                    None
                }
            },
            _ => None,
        },
        None => None,
    }
}

fn encode_mode(w: &mut TlvWriter<'_>, tag: u16, md: &lenny_mode)
    ensures
        final(w).0@ == old(w).0@ + field_bytes(blob(tag, mode_bytes(*md))),
        *final(final(w).0) == *final(old(w).0),
{
    broadcast use crate::wire::tlv::lemma_append;

    let l: usize = w.begin_list(tag);
    let ghost open = w.0@;
    assert(w.0@ =~= open + tlv_bytes(Seq::empty()));
    w.u16(1, md.width);
    w.u16(2, md.height);
    w.u16(3, md.fps_num);
    w.u16(4, md.fps_den);
    w.end_list(l);
    proof {
        lemma_list(old(w).0@, tag, mode_bytes(*md));
    }
}

fn decode_mode(v: &[u8]) -> (r: Option<lenny_mode>)
    ensures
        r == mode_of(v@),
{
    let fs = fields(v)?;
    let width: u16 = number::<u16>(&fs, 1).required()?;
    let height: u16 = number::<u16>(&fs, 2).required()?;
    let fps_num: u16 = number::<u16>(&fs, 3).required()?;
    let fps_den: u16 = number::<u16>(&fs, 4).required()?;
    if fps_den == 0 {
        return None;
    }
    Some(lenny_mode { width, height, fps_num, fps_den })
}

/// The values that modes are written as.
pub open spec fn modes_vals(modes: Seq<lenny_mode>) -> Seq<Seq<u8>> {
    modes.map_values(|md: lenny_mode| mode_bytes(md))
}

/// The modes that values stand for.
pub open spec fn modes_of(vals: Seq<Seq<u8>>) -> Option<Seq<lenny_mode>> {
    decode_all(vals, |v: Seq<u8>| mode_of(v))
}

fn encode_modes(
    w: &mut TlvWriter<'_>,
    tag: u16,
    modes: &Vec<lenny_mode>,
    Ghost(base): Ghost<Seq<u8>>,
    Ghost(fs): Ghost<Seq<Field>>,
)
    requires
        old(w).0@ == base + tlv_bytes(fs),
    ensures
        final(w).0@ == base + tlv_bytes(list_onto(fs, tag, modes_vals(modes@))),
        *final(final(w).0) == *final(old(w).0),
{
    broadcast use crate::wire::tlv::lemma_append;

    let ghost vals = modes_vals(modes@);
    let ghost fin = *final(w.0);
    let mut i: usize = 0;
    assert(vals.take(0) =~= Seq::empty());
    while i < modes.len()
        invariant
            i <= modes@.len(),
            vals == modes_vals(modes@),
            w.0@ == base + tlv_bytes(list_onto(fs, tag, vals.take(i as int))),
            *final(w.0) == fin,
        decreases modes.len() - i,
    {
        proof {
            assert(vals.take(i + 1) =~= vals.take(i as int).push(vals[i as int]));
            lemma_list_onto_push(fs, tag, vals.take(i as int), vals[i as int]);
            lemma_append(
                base,
                list_onto(fs, tag, vals.take(i as int)),
                blob(tag, vals[i as int]),
            );
        }
        encode_mode(w, tag, &modes[i]);
        i = i + 1;
    }
    assert(vals.take(vals.len() as int) =~= vals);
}

fn decode_modes(vals: &Vec<&[u8]>) -> (r: Option<Vec<lenny_mode>>)
    ensures
        match r {
            Some(modes) => modes_of(values_view(vals@)) == Some(modes@),
            None => modes_of(values_view(vals@)) is None,
        },
{
    let mut out: Vec<lenny_mode> = Vec::new();
    let mut i: usize = 0;
    let ghost all = values_view(vals@);
    let ghost one = |v: Seq<u8>| mode_of(v);
    assert(all.take(0) =~= Seq::empty());
    while i < vals.len()
        invariant
            i <= vals@.len(),
            all == values_view(vals@),
            one == (|v: Seq<u8>| mode_of(v)),
            decode_all(all.take(i as int), one) == Some(out@),
        decreases vals.len() - i,
    {
        proof {
            assert(all.take(i + 1) =~= all.take(i as int).push(all[i as int]));
            lemma_decode_all_push(all.take(i as int), all[i as int], one);
        }
        match decode_mode(vals[i]) {
            Some(md) => {
                out.push(md);
            },
            None => {
                proof {
                    lemma_decode_all_none(all, one, i + 1);
                }
                return None;
            },
        }
        i = i + 1;
    }
    assert(all.take(all.len() as int) =~= all);
    Some(out)
}

// ---- Lens --------------------------------------------------------------------------------------

#[derive(Clone, Debug, PartialEq, Eq)]
pub struct Lens {
    pub id: u8,
    pub facing: u8,
    pub label: Str,
    /// 1.1: modes this lens can stream (empty = the CAPS-level modes).
    pub modes: Vec<lenny_mode>,
    /// 1.1: CONTROL zoom range for this lens, ratio x100 relative to the lens (0/0 = unknown).
    pub zoom_min: u16,
    pub zoom_max: u16,
    /// 1.1: the lens's own zoom ratio x100 on its camera (60 for a 0.6x sensor of a logical
    /// camera; 0 = 100). Pan works over the camera's field of view at ratio 1, so this is what a
    /// receiver needs to map a drag.
    pub zoom_base: u16,
}

#[verifier::ext_equal]
pub struct LensView {
    pub id: u8,
    pub facing: u8,
    pub label: Seq<u8>,
    pub modes: Seq<lenny_mode>,
    pub zoom_min: u16,
    pub zoom_max: u16,
    pub zoom_base: u16,
}

impl View for Lens {
    type V = LensView;

    open spec fn view(&self) -> LensView {
        LensView {
            id: self.id,
            facing: self.facing,
            label: self.label@,
            modes: self.modes@,
            zoom_min: self.zoom_min,
            zoom_max: self.zoom_max,
            zoom_base: self.zoom_base,
        }
    }
}

impl Default for Lens {
    fn default() -> (l: Self)
        ensures
            l@ == (LensView {
                id: 0,
                facing: 0,
                label: Seq::empty(),
                modes: Seq::empty(),
                zoom_min: 0,
                zoom_max: 0,
                zoom_base: 0,
            }),
    {
        Lens {
            id: 0,
            facing: 0,
            label: Vec::new(),
            modes: Vec::new(),
            zoom_min: 0,
            zoom_max: 0,
            zoom_base: 0,
        }
    }
}

pub open spec fn zoom_fields(l: LensView) -> Seq<Field> {
    push_if(
        Seq::empty().push(num(1, l.zoom_min)).push(num(2, l.zoom_max)),
        l.zoom_base != 0,
        num(3, l.zoom_base),
    )
}

/// Modes and zoom range are new in 1.1.
pub open spec fn lens_fields(l: LensView, minor: u8) -> Seq<Field> {
    let fs = Seq::empty().push(num(1, l.id)).push(num(2, l.facing)).push(
        blob(3, clipped(l.label)),
    );
    if minor >= 1 {
        push_if(
            list_onto(fs, 4, modes_vals(l.modes)),
            l.zoom_max != 0,
            blob(5, tlv_bytes(zoom_fields(l))),
        )
    } else {
        fs
    }
}

pub open spec fn lens_bytes(l: LensView, minor: u8) -> Seq<u8> {
    tlv_bytes(lens_fields(l, minor))
}

/// The lens that a value stands for. What is left out is 0 or empty.
pub open spec fn lens_of(v: Seq<u8>) -> Option<LensView> {
    match tlv_fields(v) {
        Some(fs) => match (
            number_of::<u8>(fs, 1).or(0),
            number_of::<u8>(fs, 2).or(0),
            modes_of(all_of(fs, 4)),
            nested(all_of(fs, 5)),
        ) {
            (Some(id), Some(facing), Some(modes), Some(zoom)) => match (
                number_of::<u16>(zoom, 1).or(0),
                number_of::<u16>(zoom, 2).or(0),
                number_of::<u16>(zoom, 3).or(0),
            ) {
                (Some(zoom_min), Some(zoom_max), Some(zoom_base)) => Some(
                    LensView {
                        id,
                        facing,
                        label: text_of(fs, 3),
                        modes,
                        zoom_min,
                        zoom_max,
                        zoom_base,
                    },
                ),
                _ => None,
            },
            _ => None,
        },
        None => None,
    }
}

#[verifier::spinoff_prover]
fn encode_lens(w: &mut TlvWriter<'_>, tag: u16, lens: &Lens, minor: u8)
    ensures
        final(w).0@ == old(w).0@ + field_bytes(blob(tag, lens_bytes(lens@, minor))),
        *final(final(w).0) == *final(old(w).0),
{
    broadcast use crate::wire::tlv::lemma_append;

    let l: usize = w.begin_list(tag);
    let ghost open = w.0@;
    assert(w.0@ =~= open + tlv_bytes(Seq::empty()));
    w.u8(1, lens.id);
    w.u8(2, lens.facing);
    w.str(3, lens.label.as_slice());
    if minor >= 1 {
        let ghost fs = Seq::empty().push(num(1, lens.id)).push(num(2, lens.facing)).push(
            blob(3, clipped(lens.label@)),
        );
        encode_modes(w, 4, &lens.modes, Ghost(open), Ghost(fs));
        if lens.zoom_max != 0 {
            let ghost before = w.0@;
            let z: usize = w.begin_list(5);
            let ghost inner = w.0@;
            assert(w.0@ =~= inner + tlv_bytes(Seq::empty()));
            w.u16(1, lens.zoom_min);
            w.u16(2, lens.zoom_max);
            if lens.zoom_base != 0 {
                w.u16(3, lens.zoom_base);
            }
            w.end_list(z);
            proof {
                lemma_list(before, 5, tlv_bytes(zoom_fields(lens@)));
            }
        }
    }
    assert(w.0@ == open + lens_bytes(lens@, minor));
    w.end_list(l);
    proof {
        lemma_list(old(w).0@, tag, lens_bytes(lens@, minor));
    }
}

fn decode_lens(v: &[u8]) -> (r: Option<Lens>)
    ensures
        match r {
            Some(l) => lens_of(v@) == Some(l@),
            None => lens_of(v@) is None,
        },
{
    let fs = fields(v)?;
    let id: u8 = number::<u8>(&fs, 1).or(0)?;
    let facing: u8 = number::<u8>(&fs, 2).or(0)?;
    let modes = decode_modes(&values(&fs, 4))?;
    let zoom = nested_fields(&values(&fs, 5))?;
    let zoom_min: u16 = number::<u16>(&zoom, 1).or(0)?;
    let zoom_max: u16 = number::<u16>(&zoom, 2).or(0)?;
    let zoom_base: u16 = number::<u16>(&zoom, 3).or(0)?;
    Some(
        Lens {
            id,
            facing,
            label: text(last_value(&fs, 3)),
            modes,
            zoom_min,
            zoom_max,
            zoom_base,
        },
    )
}

// ---- CAPS --------------------------------------------------------------------------------------

#[derive(Clone, Debug, PartialEq, Eq)]
pub struct Caps {
    pub codecs: Vec<Codec>,
    pub modes: Vec<lenny_mode>,
    pub max_bitrate_kbps: u32,
    pub controls: u64,
    pub lenses: Vec<Lens>,
    pub has_exposure_range: bool,
    pub exposure_min: i32,
    pub exposure_max: i32,
    pub exposure_step_milli: u32,
}

#[verifier::ext_equal]
pub struct CapsView {
    pub codecs: Seq<Codec>,
    pub modes: Seq<lenny_mode>,
    pub max_bitrate_kbps: u32,
    pub controls: u64,
    pub lenses: Seq<LensView>,
    pub has_exposure_range: bool,
    pub exposure_min: i32,
    pub exposure_max: i32,
    pub exposure_step_milli: u32,
}

/// What a list of lenses stands for.
pub open spec fn lenses_view(ls: Seq<Lens>) -> Seq<LensView> {
    ls.map_values(|l: Lens| l@)
}

impl View for Caps {
    type V = CapsView;

    open spec fn view(&self) -> CapsView {
        CapsView {
            codecs: self.codecs@,
            modes: self.modes@,
            max_bitrate_kbps: self.max_bitrate_kbps,
            controls: self.controls,
            lenses: lenses_view(self.lenses@),
            has_exposure_range: self.has_exposure_range,
            exposure_min: self.exposure_min,
            exposure_max: self.exposure_max,
            exposure_step_milli: self.exposure_step_milli,
        }
    }
}

/// Capabilities that offer nothing.
pub open spec fn no_caps() -> CapsView {
    CapsView {
        codecs: Seq::empty(),
        modes: Seq::empty(),
        max_bitrate_kbps: 0,
        controls: 0,
        lenses: Seq::empty(),
        has_exposure_range: false,
        exposure_min: 0,
        exposure_max: 0,
        exposure_step_milli: 0,
    }
}

impl Default for Caps {
    fn default() -> (c: Self)
        ensures
            c@ == no_caps(),
    {
        let c = Caps {
            codecs: Vec::new(),
            modes: Vec::new(),
            max_bitrate_kbps: 0,
            controls: 0,
            lenses: Vec::new(),
            has_exposure_range: false,
            exposure_min: 0,
            exposure_max: 0,
            exposure_step_milli: 0,
        };
        assert(c@ =~= no_caps());
        c
    }
}

pub open spec fn codecs_vals(cs: Seq<Codec>) -> Seq<Seq<u8>> {
    cs.map_values(|c: Codec| codec_bytes(c))
}

pub open spec fn codecs_of(vals: Seq<Seq<u8>>) -> Option<Seq<Codec>> {
    decode_all(vals, |v: Seq<u8>| codec_of(v))
}

pub open spec fn lenses_vals(ls: Seq<LensView>, minor: u8) -> Seq<Seq<u8>> {
    ls.map_values(|l: LensView| lens_bytes(l, minor))
}

pub open spec fn lenses_of(vals: Seq<Seq<u8>>) -> Option<Seq<LensView>> {
    decode_all(vals, |v: Seq<u8>| lens_of(v))
}

pub open spec fn exposure_fields(m: CapsView) -> Seq<Field> {
    Seq::empty().push(num(1, m.exposure_min)).push(num(2, m.exposure_max)).push(
        num(3, m.exposure_step_milli),
    )
}

/// The fields before the lenses.
pub open spec fn caps_head(m: CapsView) -> Seq<Field> {
    list_onto(list_onto(Seq::empty(), 1, codecs_vals(m.codecs)), 2, modes_vals(m.modes)).push(
        num(3, m.max_bitrate_kbps),
    ).push(num(4, m.controls))
}

impl Message for Caps {
    const TYPE: u16 = msg::CAPS;

    open spec fn type_id() -> u16 {
        msg::CAPS
    }

    fn message_type() -> (r: u16) {
        Self::TYPE
    }

    open spec fn fields(m: CapsView, minor: u8) -> Seq<Field> {
        push_if(
            list_onto(caps_head(m), 5, lenses_vals(m.lenses, minor)),
            m.has_exposure_range,
            blob(6, tlv_bytes(exposure_fields(m))),
        )
    }

    open spec fn from_fields(fs: Seq<Field>) -> Option<CapsView> {
        match (
            codecs_of(all_of(fs, 1)),
            modes_of(all_of(fs, 2)),
            number_of::<u32>(fs, 3).or(0),
            number_of::<u64>(fs, 4).or(0),
            lenses_of(all_of(fs, 5)),
            nested(all_of(fs, 6)),
        ) {
            (
                Some(codecs),
                Some(modes),
                Some(max_bitrate_kbps),
                Some(controls),
                Some(lenses),
                Some(range),
            ) => match (
                number_of::<i32>(range, 1).or(0),
                number_of::<i32>(range, 2).or(0),
                number_of::<u32>(range, 3).or(0),
            ) {
                (Some(exposure_min), Some(exposure_max), Some(exposure_step_milli)) => Some(
                    CapsView {
                        codecs,
                        modes,
                        max_bitrate_kbps,
                        controls,
                        lenses,
                        has_exposure_range: all_of(fs, 6).len() > 0,
                        exposure_min,
                        exposure_max,
                        exposure_step_milli,
                    },
                ),
                _ => None,
            },
            _ => None,
        }
    }

    open spec fn knows(tag: u16) -> bool {
        1 <= tag <= 6
    }

    proof fn law_unknown_fields_are_skipped(a: Seq<Field>, f: Field, b: Seq<Field>) {
        broadcast use crate::wire::lookup::group_skips;

    }

    #[verifier::spinoff_prover]
    fn encode(&self, w: &mut TlvWriter<'_>, minor: u8) {
        broadcast use crate::wire::tlv::lemma_append;

        let ghost base = w.0@;
        let ghost fin = *final(w.0);
        assert(w.0@ =~= base + tlv_bytes(Seq::empty()));
        let ghost codecs = codecs_vals(self.codecs@);
        assert(codecs.take(0) =~= Seq::empty());
        let mut i: usize = 0;
        while i < self.codecs.len()
            invariant
                i <= self.codecs@.len(),
                codecs == codecs_vals(self.codecs@),
                w.0@ == base + tlv_bytes(list_onto(Seq::empty(), 1, codecs.take(i as int))),
                *final(w.0) == fin,
            decreases self.codecs.len() - i,
        {
            proof {
                assert(codecs.take(i + 1) =~= codecs.take(i as int).push(codecs[i as int]));
                lemma_list_onto_push(Seq::empty(), 1, codecs.take(i as int), codecs[i as int]);
                lemma_append(
                    base,
                    list_onto(Seq::empty(), 1, codecs.take(i as int)),
                    blob(1, codecs[i as int]),
                );
            }
            encode_codec(w, 1, &self.codecs[i]);
            i = i + 1;
        }
        assert(codecs.take(codecs.len() as int) =~= codecs);
        encode_modes(
            w,
            2,
            &self.modes,
            Ghost(base),
            Ghost(list_onto(Seq::empty(), 1, codecs)),
        );
        w.u32(3, self.max_bitrate_kbps);
        w.u64(4, self.controls);
        let ghost head = caps_head(self@);
        let ghost lenses = lenses_vals(lenses_view(self.lenses@), minor);
        assert(lenses.take(0) =~= Seq::empty());
        let mut k: usize = 0;
        while k < self.lenses.len()
            invariant
                k <= self.lenses@.len(),
                lenses == lenses_vals(lenses_view(self.lenses@), minor),
                w.0@ == base + tlv_bytes(list_onto(head, 5, lenses.take(k as int))),
                *final(w.0) == fin,
            decreases self.lenses.len() - k,
        {
            proof {
                assert(lenses.take(k + 1) =~= lenses.take(k as int).push(lenses[k as int]));
                lemma_list_onto_push(head, 5, lenses.take(k as int), lenses[k as int]);
                lemma_append(
                    base,
                    list_onto(head, 5, lenses.take(k as int)),
                    blob(5, lenses[k as int]),
                );
            }
            encode_lens(w, 5, &self.lenses[k], minor);
            k = k + 1;
        }
        assert(lenses.take(lenses.len() as int) =~= lenses);
        if self.has_exposure_range {
            let ghost before = w.0@;
            let l: usize = w.begin_list(6);
            let ghost open = w.0@;
            assert(w.0@ =~= open + tlv_bytes(Seq::empty()));
            w.i32(1, self.exposure_min);
            w.i32(2, self.exposure_max);
            w.u32(3, self.exposure_step_milli);
            w.end_list(l);
            proof {
                lemma_list(before, 6, tlv_bytes(exposure_fields(self@)));
            }
        }
    }

    fn decode(v: &[u8]) -> (r: Option<Self>) {
        let fs = fields(v)?;
        let codecs = decode_codecs(&values(&fs, 1))?;
        let modes = decode_modes(&values(&fs, 2))?;
        let max_bitrate_kbps: u32 = number::<u32>(&fs, 3).or(0)?;
        let controls: u64 = number::<u64>(&fs, 4).or(0)?;
        let lenses = decode_lenses(&values(&fs, 5))?;
        let ranges = values(&fs, 6);
        let range = nested_fields(&ranges)?;
        let exposure_min: i32 = number::<i32>(&range, 1).or(0)?;
        let exposure_max: i32 = number::<i32>(&range, 2).or(0)?;
        let exposure_step_milli: u32 = number::<u32>(&range, 3).or(0)?;
        Some(
            Caps {
                codecs,
                modes,
                max_bitrate_kbps,
                controls,
                lenses,
                has_exposure_range: ranges.len() > 0,
                exposure_min,
                exposure_max,
                exposure_step_milli,
            },
        )
    }
}

fn decode_codecs(vals: &Vec<&[u8]>) -> (r: Option<Vec<Codec>>)
    ensures
        match r {
            Some(codecs) => codecs_of(values_view(vals@)) == Some(codecs@),
            None => codecs_of(values_view(vals@)) is None,
        },
{
    let mut out: Vec<Codec> = Vec::new();
    let mut i: usize = 0;
    let ghost all = values_view(vals@);
    let ghost one = |v: Seq<u8>| codec_of(v);
    assert(all.take(0) =~= Seq::empty());
    while i < vals.len()
        invariant
            i <= vals@.len(),
            all == values_view(vals@),
            one == (|v: Seq<u8>| codec_of(v)),
            decode_all(all.take(i as int), one) == Some(out@),
        decreases vals.len() - i,
    {
        proof {
            assert(all.take(i + 1) =~= all.take(i as int).push(all[i as int]));
            lemma_decode_all_push(all.take(i as int), all[i as int], one);
        }
        match decode_codec(vals[i]) {
            Some(c) => {
                out.push(c);
            },
            None => {
                proof {
                    lemma_decode_all_none(all, one, i + 1);
                }
                return None;
            },
        }
        i = i + 1;
    }
    assert(all.take(all.len() as int) =~= all);
    Some(out)
}

fn decode_lenses(vals: &Vec<&[u8]>) -> (r: Option<Vec<Lens>>)
    ensures
        match r {
            Some(lenses) => lenses_of(values_view(vals@)) == Some(lenses_view(lenses@)),
            None => lenses_of(values_view(vals@)) is None,
        },
{
    let mut out: Vec<Lens> = Vec::new();
    let mut i: usize = 0;
    let ghost all = values_view(vals@);
    let ghost one = |v: Seq<u8>| lens_of(v);
    assert(all.take(0) =~= Seq::empty());
    assert(lenses_view(out@) =~= Seq::empty());
    while i < vals.len()
        invariant
            i <= vals@.len(),
            all == values_view(vals@),
            one == (|v: Seq<u8>| lens_of(v)),
            decode_all(all.take(i as int), one) == Some(lenses_view(out@)),
        decreases vals.len() - i,
    {
        proof {
            assert(all.take(i + 1) =~= all.take(i as int).push(all[i as int]));
            lemma_decode_all_push(all.take(i as int), all[i as int], one);
        }
        match decode_lens(vals[i]) {
            Some(l) => {
                let ghost before = out@;
                out.push(l);
                assert(lenses_view(out@) =~= lenses_view(before).push(l@));
            },
            None => {
                proof {
                    lemma_decode_all_none(all, one, i + 1);
                }
                return None;
            },
        }
        i = i + 1;
    }
    assert(all.take(all.len() as int) =~= all);
    Some(out)
}

// ---- Laws --------------------------------------------------------------------------------------

/// What is left of a lens on the wire: a peer older than 1.1 is told neither modes nor zoom, and
/// a zoom range without a maximum is not told to anyone.
pub open spec fn lens_on_wire(l: LensView, minor: u8) -> LensView {
    let modes = if minor >= 1 {
        l.modes
    } else {
        Seq::empty()
    };
    if minor >= 1 && l.zoom_max != 0 {
        l
    } else {
        LensView { modes, zoom_min: 0, zoom_max: 0, zoom_base: 0, ..l }
    }
}

/// What is left of the capabilities on the wire.
pub open spec fn caps_on_wire(m: CapsView, minor: u8) -> CapsView {
    let lenses = m.lenses.map_values(|l: LensView| lens_on_wire(l, minor));
    if m.has_exposure_range {
        CapsView { lenses, ..m }
    } else {
        CapsView { lenses, exposure_min: 0, exposure_max: 0, exposure_step_milli: 0, ..m }
    }
}

/// Every mode has a frame rate.
pub open spec fn modes_have_rates(modes: Seq<lenny_mode>) -> bool {
    forall|i: int| 0 <= i < modes.len() ==> #[trigger] modes[i].fps_den != 0
}

/// A lens whose description fits in a field.
pub open spec fn lens_fits(l: LensView, minor: u8) -> bool {
    &&& l.label.len() <= MAX_FIELD
    &&& lens_bytes(l, minor).len() <= MAX_FIELD
}

/// Every mode of a lens that goes to the wire has a frame rate.
pub open spec fn lens_has_rates(l: LensView, minor: u8) -> bool {
    minor >= 1 ==> modes_have_rates(l.modes)
}

/// Every mode that goes to the wire has a frame rate.
pub open spec fn caps_have_rates(m: CapsView, minor: u8) -> bool {
    &&& modes_have_rates(m.modes)
    &&& forall|i: int| 0 <= i < m.lenses.len() ==> lens_has_rates(#[trigger] m.lenses[i], minor)
}

proof fn lemma_codec_round_trip(c: Codec)
    ensures
        codec_of(codec_bytes(c)) == Some(c),
        codec_bytes(c).len() <= MAX_FIELD,
{
    broadcast use {
        crate::le::lemma_le,
        crate::wire::lookup::group_push,
        crate::wire::tlv::lemma_all_fit_push,
        crate::wire::tlv::lemma_tlv_bytes_push,
    };

    law_written_fields_read_back(codec_fields(c));
    lemma_tlv_bytes_empty();
}

proof fn lemma_mode_round_trip(md: lenny_mode)
    ensures
        mode_of(mode_bytes(md)) == (if md.fps_den != 0 {
            Some(md)
        } else {
            None
        }),
        mode_bytes(md).len() <= MAX_FIELD,
{
    broadcast use {
        crate::le::lemma_le,
        crate::wire::lookup::group_push,
        crate::wire::tlv::lemma_all_fit_push,
        crate::wire::tlv::lemma_tlv_bytes_push,
    };

    law_written_fields_read_back(mode_fields(md));
    lemma_tlv_bytes_empty();
}

proof fn lemma_modes_round_trip(modes: Seq<lenny_mode>)
    ensures
        modes_of(modes_vals(modes)) == (if modes_have_rates(modes) {
            Some(modes)
        } else {
            None
        }),
        forall|i: int|
            0 <= i < modes_vals(modes).len() ==> #[trigger] modes_vals(modes)[i].len() <= MAX_FIELD,
{
    let vals = modes_vals(modes);
    let one = |v: Seq<u8>| mode_of(v);
    assert forall|i: int| 0 <= i < modes.len() implies #[trigger] vals[i].len() <= MAX_FIELD && one(vals[i]) == (
    if modes[i].fps_den != 0 {
        Some(modes[i])
    } else {
        None
    }) by {
        lemma_mode_round_trip(modes[i]);
    }
    if modes_have_rates(modes) {
        assert forall|i: int| 0 <= i < modes.len() implies one(#[trigger] vals[i]) == Some(modes[i]) by {
            assert(vals[i].len() <= MAX_FIELD);
            assert(modes[i].fps_den != 0);
        }
        lemma_decode_all_is(vals, one, modes);
    } else {
        let i = choose|i: int| 0 <= i < modes.len() && #[trigger] modes[i].fps_den == 0;
        assert(vals[i].len() <= MAX_FIELD);
        lemma_decode_all_fails(vals, one, i);
    }
}

/// The fields inside a single value.
proof fn lemma_nested_one(v: Seq<u8>)
    ensures
        nested(Seq::empty().push(v)) == tlv_fields(v),
        nested(Seq::empty()) == Some(Seq::<Field>::empty()),
{
    lemma_nested_push(Seq::empty(), v);
    match tlv_fields(v) {
        Some(more) => {
            assert(Seq::<Field>::empty() + more =~= more);
        },
        None => {},
    }
}

proof fn lemma_zoom_round_trip(l: LensView)
    ensures
        tlv_fields(tlv_bytes(zoom_fields(l))) == Some(zoom_fields(l)),
        tlv_bytes(zoom_fields(l)).len() <= MAX_FIELD,
        number_of::<u16>(zoom_fields(l), 1) == Slot::Is(l.zoom_min),
        number_of::<u16>(zoom_fields(l), 2) == Slot::Is(l.zoom_max),
        number_of::<u16>(zoom_fields(l), 3).or(0) == Some(l.zoom_base),
{
    broadcast use {
        crate::le::lemma_le,
        crate::wire::lookup::group_push,
        crate::wire::tlv::lemma_all_fit_push,
        crate::wire::tlv::lemma_tlv_bytes_push,
    };

    law_written_fields_read_back(zoom_fields(l));
    lemma_tlv_bytes_empty();
}

proof fn lemma_lens_round_trip(l: LensView, minor: u8)
    requires
        lens_fits(l, minor),
    ensures
        lens_of(lens_bytes(l, minor)) == (if lens_has_rates(l, minor) {
            Some(lens_on_wire(l, minor))
        } else {
            None
        }),
{
    broadcast use {
        crate::le::lemma_le,
        crate::wire::list::lemma_list_all_of,
        crate::wire::list::lemma_list_exact,
        crate::wire::list::lemma_list_last_of,
        crate::wire::lookup::group_push,
        crate::wire::tlv::lemma_all_fit_push,
    };

    let fs = lens_fields(l, minor);
    let head = Seq::empty().push(num(1, l.id)).push(num(2, l.facing)).push(
        blob(3, clipped(l.label)),
    );
    let vals = modes_vals(l.modes);
    let zoom = tlv_bytes(zoom_fields(l));
    lemma_modes_round_trip(l.modes);
    lemma_list_all_fit(head, 4, vals);
    lemma_zoom_round_trip(l);
    lemma_nested_one(zoom);
    law_written_fields_read_back(fs);
    assert(all_of(head, 4) =~= Seq::empty());
    assert(all_of(head, 5) =~= Seq::empty());
    assert(Seq::<Seq<u8>>::empty() + vals =~= vals);
    assert(modes_of(Seq::empty()) == Some(Seq::<lenny_mode>::empty()));
    if minor >= 1 {
        assert(all_of(fs, 4) =~= vals);
        if l.zoom_max != 0 {
            assert(all_of(fs, 5) =~= Seq::empty().push(zoom));
        } else {
            assert(all_of(fs, 5) =~= Seq::empty());
        }
    }
    if lens_has_rates(l, minor) {
        assert(lens_of(lens_bytes(l, minor))->0 =~= lens_on_wire(l, minor));
    }
}

/// CAPS come back as they were sent, but for what the negotiated version leaves out; the description of each lens has
/// to fit in a field. They are refused where a mode has no frame rate.
pub proof fn law_caps_round_trip(m: CapsView, minor: u8)
    requires
        forall|i: int| 0 <= i < m.lenses.len() ==> lens_fits(#[trigger] m.lenses[i], minor),
    ensures
        decoded::<Caps>(tlv_bytes(Caps::fields(m, minor))) == (if caps_have_rates(m, minor) {
            Some(caps_on_wire(m, minor))
        } else {
            None
        }),
{
    broadcast use {
        crate::le::lemma_le,
        crate::wire::list::lemma_list_all_of,
        crate::wire::list::lemma_list_exact,
        crate::wire::list::lemma_list_last_of,
        crate::wire::lookup::group_push,
        crate::wire::tlv::lemma_all_fit_push,
    };

    let codecs = codecs_vals(m.codecs);
    let modes = modes_vals(m.modes);
    let lenses = lenses_vals(m.lenses, minor);
    let back = m.lenses.map_values(|l: LensView| lens_on_wire(l, minor));
    let fs = Caps::fields(m, minor);
    let one = |v: Seq<u8>| codec_of(v);
    assert forall|i: int| 0 <= i < m.codecs.len() implies one(#[trigger] codecs[i]) == Some(
        m.codecs[i],
    ) && codecs[i].len() <= MAX_FIELD by {
        lemma_codec_round_trip(m.codecs[i]);
    }
    lemma_decode_all_is(codecs, one, m.codecs);
    lemma_modes_round_trip(m.modes);
    let two = |v: Seq<u8>| lens_of(v);
    assert forall|i: int| 0 <= i < m.lenses.len() implies #[trigger] lenses[i].len() <= MAX_FIELD && two(lenses[i])
        == (if lens_has_rates(m.lenses[i], minor) {
        Some(back[i])
    } else {
        None
    }) by {
        lemma_lens_round_trip(m.lenses[i], minor);
    }
    if forall|i: int| 0 <= i < m.lenses.len() ==> lens_has_rates(#[trigger] m.lenses[i], minor) {
        assert forall|i: int| 0 <= i < back.len() implies two(#[trigger] lenses[i]) == Some(back[i]) by {
            assert(lenses[i].len() <= MAX_FIELD);
            assert(lens_has_rates(m.lenses[i], minor));
        }
        lemma_decode_all_is(lenses, two, back);
    } else {
        let i = choose|i: int| 0 <= i < m.lenses.len() && !lens_has_rates(#[trigger] m.lenses[i], minor);
        assert(lenses[i].len() <= MAX_FIELD);
        lemma_decode_all_fails(lenses, two, i);
    }
    let range = exposure_fields(m);
    let range_bytes = tlv_bytes(range);
    assert(all_fit(range) && range_bytes.len() <= MAX_FIELD) by {
        broadcast use crate::wire::tlv::lemma_tlv_bytes_push;

        lemma_tlv_bytes_empty();
    }
    law_written_fields_read_back(range);
    lemma_nested_one(range_bytes);
    let none = Seq::<Seq<u8>>::empty();
    let a = list_onto(Seq::empty(), 1, codecs);
    let head = caps_head(m);
    lemma_list_all_fit(Seq::empty(), 1, codecs);
    lemma_list_all_fit(a, 2, modes);
    lemma_list_all_fit(head, 5, lenses);
    law_written_fields_read_back(fs);
    assert(none + codecs =~= codecs);
    assert(none + modes =~= modes);
    assert(none + lenses =~= lenses);
    assert(all_of(fs, 1) =~= codecs);
    assert(all_of(fs, 2) =~= modes);
    assert(all_of(fs, 5) =~= lenses);
    if m.has_exposure_range {
        assert(all_of(fs, 6) =~= none.push(range_bytes));
    } else {
        assert(all_of(fs, 6) =~= none);
    }
    if caps_have_rates(m, minor) {
        assert(Caps::from_fields(fs)->0 =~= caps_on_wire(m, minor));
    }
}

} // verus!
