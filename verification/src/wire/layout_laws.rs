//! The bytes of every message, as they stand on the wire, and what a message says where fields are missing.
use vstd::prelude::*;
use crate::abi::{lenny_control, lenny_control_state, lenny_mode, lenny_stream_settings};
use crate::le::{Le, le_nat, le_seq, wrap};
use crate::wire::caps::{
    Caps, CapsView, Codec, LensView, codec_bytes, exposure_fields, lens_bytes, mode_bytes, zoom_fields,
};
use crate::wire::control::{CapsSelect, Control, StreamStart};
use crate::wire::frame::{Front, Header, after_front, front, header_bytes};
use crate::wire::list::list_onto;
use crate::wire::lookup::{last_of, lemma_absent};
use crate::wire::message::{Message, message_bytes};
use crate::wire::simple::{
    ControlAck, ControlState, Goodbye, GoodbyeView, Hello, HelloView, PairRequest, PairResult, Ping, Pong,
    StreamStatus, StreamStatusView, VideoConfig, VideoConfigView,
};
use crate::wire::tlv::{
    Field, blob, field_bytes, lemma_tlv_bytes_empty, lemma_tlv_bytes_push, num, tlv_bytes,
};
use crate::wire::video::{VideoFrameMeta, meta_bytes};

verus! {

/// Two bytes, the low one first.
pub open spec fn two(x: int) -> Seq<u8> {
    seq![(x % 256) as u8, (x / 256 % 256) as u8]
}

/// Four bytes, the lowest first.
pub open spec fn four(x: int) -> Seq<u8> {
    two(x) + two(x / 65536)
}

/// Eight bytes, the lowest first. Numbers below zero are in two's complement, which this division gives.
pub open spec fn eight(x: int) -> Seq<u8> {
    four(x) + four(x / 0x1_0000_0000)
}

/// Integers stand with their low bytes first.
pub proof fn law_numbers_stand_low_byte_first(a: u8, b: u16, c: u32, d: u64, e: i32, f: i64)
    ensures
        a.bytes() == seq![a],
        b.bytes() == two(b as int),
        c.bytes() == four(c as int),
        d.bytes() == eight(d as int),
        e.bytes() == four(e as int),
        f.bytes() == eight(f as int),
{
    lemma_low_bytes(a as nat);
    lemma_low_bytes(b as nat);
    lemma_low_bytes(c as nat);
    lemma_low_bytes(d as nat);
    lemma_low_bytes(wrap(e as int, 0x1_0000_0000));
    lemma_low_bytes(wrap(f as int, 0x1_0000_0000_0000_0000));
    lemma_turned_number(e as int);
    lemma_turned_number(f as int);
}

proof fn lemma_low_bytes(x: nat)
    ensures
        le_seq(x, 1) == seq![(x % 256) as u8],
        le_seq(x, 2) == two(x as int),
        le_seq(x, 4) == four(x as int),
        le_seq(x, 8) == eight(x as int),
{
    lemma_low_two(x);
    lemma_low_four(x);
    lemma_low_four(x / 0x1_0000_0000);
    let y = x / 0x1_0000;
    lemma_steps(x, 6);
    lemma_steps(y, 4);
    assert(le_seq(x, 8) =~= two(x as int) + le_seq(y, 6));
    assert(le_seq(y, 6) =~= two(y as int) + le_seq(y / 0x1_0000, 4));
    assert(y / 0x1_0000 == x / 0x1_0000_0000);
    assert(le_seq(x, 8) =~= eight(x as int));
}

proof fn lemma_steps(x: nat, n: nat)
    ensures
        le_seq(x, n + 2) == two(x as int) + le_seq(x / 0x1_0000, n),
{
    assert(le_seq(x, n + 2) == seq![(x % 256) as u8] + le_seq(x / 256, n + 1));
    assert(le_seq(x / 256, n + 1) == seq![(x / 256 % 256) as u8] + le_seq(x / 256 / 256, n));
    assert(x / 256 / 256 == x / 0x1_0000);
    assert(le_seq(x, n + 2) =~= two(x as int) + le_seq(x / 0x1_0000, n));
}

proof fn lemma_low_two(x: nat)
    ensures
        le_seq(x, 1) == seq![(x % 256) as u8],
        le_seq(x, 2) == two(x as int),
{
    lemma_steps(x, 0);
    assert(le_seq(x / 0x1_0000, 0) =~= Seq::empty());
    assert(le_seq(x, 2) =~= two(x as int));
    assert(le_seq(x / 256, 0) =~= Seq::empty());
    assert(le_seq(x, 1) =~= seq![(x % 256) as u8]);
}

proof fn lemma_low_four(x: nat)
    ensures
        le_seq(x, 4) == four(x as int),
{
    lemma_steps(x, 2);
    lemma_low_two(x / 0x1_0000);
}

/// Two bytes do not tell numbers apart that differ by a multiple of what two bytes can hold.
proof fn lemma_same_two(x: int, m: int)
    ensures
        two(x + 65536 * m) == two(x),
        (x + 65536 * m) / 65536 == x / 65536 + m,
{
    let y = x + 65536 * m;
    assert(y / 256 == x / 256 + 256 * m && y % 256 == x % 256);
    assert((x / 256 + 256 * m) % 256 == x / 256 % 256);
}

proof fn lemma_same_four(x: int, m: int)
    ensures
        four(x + 0x1_0000_0000 * m) == four(x),
        (x + 0x1_0000_0000 * m) / 0x1_0000_0000 == x / 0x1_0000_0000 + m,
{
    lemma_same_two(x, 65536 * m);
    lemma_same_two(x / 65536, m);
}

/// Two's complement changes no byte.
proof fn lemma_turned_number(x: int)
    ensures
        -0x8000_0000 <= x < 0 ==> four(wrap(x, 0x1_0000_0000) as int) == four(x),
        -0x8000_0000_0000_0000 <= x < 0 ==> eight(wrap(x, 0x1_0000_0000_0000_0000) as int) == eight(x),
{
    lemma_same_four(x, 1);
    lemma_same_four(x, 0x1_0000_0000);
    lemma_same_four(x / 0x1_0000_0000, 1);
}

/// A header stands as twelve bytes: 'L', 'Y', the two parts of the version, type, flags and length.
pub proof fn law_a_headers_bytes(h: Header)
    ensures
        header_bytes(h) == seq![0x4Cu8, 0x59, h.ver_major, h.ver_minor] + two(h.typ as int) + two(h.flags as int)
            + four(h.length as int),
{
    law_numbers_stand_low_byte_first(0, h.typ, h.length, 0, 0, 0);
    law_numbers_stand_low_byte_first(0, h.flags, 0, 0, 0, 0);
}

/// A field: its tag, its length, its value.
pub open spec fn item(tag: int, val: Seq<u8>) -> Seq<u8> {
    two(tag) + two(val.len() as int) + val
}

/// A field stands as its tag, its length and its value.
pub broadcast proof fn law_a_fields_bytes(f: Field)
    requires
        f.val.len() <= 0xFFFF,
    ensures
        #[trigger] field_bytes(f) == item(f.tag as int, f.val),
{
    law_numbers_stand_low_byte_first(0, f.tag, 0, 0, 0, 0);
    law_numbers_stand_low_byte_first(0, f.val.len() as u16, 0, 0, 0, 0);
}

/// A field that is there only in some cases.
pub open spec fn where_it_is(there: bool, bytes: Seq<u8>) -> Seq<u8> {
    if there {
        bytes
    } else {
        Seq::empty()
    }
}

proof fn lemma_u8(x: u8)
    ensures
        x.bytes() == seq![x],
{
    law_numbers_stand_low_byte_first(x, 0, 0, 0, 0, 0);
}

proof fn lemma_u16(x: u16)
    ensures
        x.bytes() == two(x as int),
{
    law_numbers_stand_low_byte_first(0, x, 0, 0, 0, 0);
}

proof fn lemma_u32(x: u32)
    ensures
        x.bytes() == four(x as int),
{
    law_numbers_stand_low_byte_first(0, 0, x, 0, 0, 0);
}

proof fn lemma_u64(x: u64)
    ensures
        x.bytes() == eight(x as int),
{
    law_numbers_stand_low_byte_first(0, 0, 0, x, 0, 0);
}

proof fn lemma_i32(x: i32)
    ensures
        x.bytes() == four(x as int),
{
    law_numbers_stand_low_byte_first(0, 0, 0, 0, x, 0);
}

proof fn lemma_i64(x: i64)
    ensures
        x.bytes() == eight(x as int),
{
    law_numbers_stand_low_byte_first(0, 0, 0, 0, 0, x);
}

/// A message stands as its header, which gives type and length, and its fields.
pub proof fn law_a_messages_bytes<M: Message>(m: M::V, minor: u8)
    requires
        tlv_bytes(M::fields(m, minor)).len() <= u32::MAX,
    ensures
        ({
            let p = tlv_bytes(M::fields(m, minor));
            message_bytes::<M>(m, minor) == seq![0x4Cu8, 0x59, 1, minor] + two(M::type_id() as int) + two(0) + four(
                p.len() as int,
            ) + p
        }),
{
    let p = tlv_bytes(M::fields(m, minor));
    law_a_headers_bytes(crate::wire::message::message_header(M::type_id(), minor, p.len()));
}

/// Every message has its own number.
pub proof fn law_the_numbers_of_messages()
    ensures
        Hello::type_id() == 1,
        Goodbye::type_id() == 2,
        Ping::type_id() == 3,
        Pong::type_id() == 4,
        PairRequest::type_id() == 0x10,
        PairResult::type_id() == 0x11,
        Caps::type_id() == 0x20,
        CapsSelect::type_id() == 0x21,
        StreamStart::type_id() == 0x22,
        StreamStatus::type_id() == 0x23,
        VideoConfig::type_id() == 0x30,
        Control::type_id() == 0x40,
        ControlState::type_id() == 0x41,
        ControlAck::type_id() == 0x42,
{
}

/// HELLO: 1 and 2 the version, 3 the role, 4 the device, 5 its name, 6 the program's version, 7 the platform, 8 whether
/// pairing is needed, 9 features; from 6 on only what says something.
#[verifier::spinoff_prover]
#[verifier::rlimit(40)]
pub proof fn law_hello_on_the_wire(m: HelloView, minor: u8)
    requires
        m.device_id.len() == 16,
        m.device_name.len() <= 0xFFFF,
        m.app_version.len() <= 0xFFFF,
    ensures
        tlv_bytes(Hello::fields(m, minor)) == item(1, seq![m.proto_major]) + item(2, seq![m.proto_minor]) + item(
            3,
            seq![m.role],
        ) + item(4, m.device_id) + item(5, m.device_name) + where_it_is(
            m.app_version.len() > 0,
            item(6, m.app_version),
        ) + where_it_is(m.platform != 0, item(7, seq![m.platform])) + where_it_is(
            m.pairing_required,
            item(8, seq![1u8]),
        ) + where_it_is(m.features != 0, item(9, eight(m.features as int))),
{
    broadcast use {lemma_tlv_bytes_push, law_a_fields_bytes};

    lemma_tlv_bytes_empty();
    lemma_u8(m.proto_major);
    lemma_u8(m.proto_minor);
    lemma_u8(m.role);
    lemma_u8(m.platform);
    lemma_u8(1);
    lemma_u64(m.features);
    assert(tlv_bytes(Hello::fields(m, minor)) =~= item(1, seq![m.proto_major]) + item(2, seq![m.proto_minor]) + item(
        3,
        seq![m.role],
    ) + item(4, m.device_id) + item(5, m.device_name) + where_it_is(m.app_version.len() > 0, item(6, m.app_version))
        + where_it_is(m.platform != 0, item(7, seq![m.platform])) + where_it_is(m.pairing_required, item(8, seq![1u8]))
        + where_it_is(m.features != 0, item(9, eight(m.features as int))));
}

/// GOODBYE: 1 the reason, 2 a text where there is one.
pub proof fn law_goodbye_on_the_wire(m: GoodbyeView, minor: u8)
    requires
        m.detail.len() <= 0xFFFF,
    ensures
        tlv_bytes(Goodbye::fields(m, minor)) == item(1, two(m.reason as int)) + where_it_is(
            m.detail.len() > 0,
            item(2, m.detail),
        ),
{
    broadcast use {lemma_tlv_bytes_push, law_a_fields_bytes};

    lemma_tlv_bytes_empty();
    lemma_u16(m.reason);
    assert(tlv_bytes(Goodbye::fields(m, minor)) =~= item(1, two(m.reason as int)) + where_it_is(
        m.detail.len() > 0,
        item(2, m.detail),
    ));
}

/// PING: 1 its number, 2 when it was sent.
pub proof fn law_ping_on_the_wire(m: Ping, minor: u8)
    ensures
        tlv_bytes(Ping::fields(m, minor)) == item(1, four(m.seq as int)) + item(2, eight(m.t1 as int)),
{
    broadcast use {lemma_tlv_bytes_push, law_a_fields_bytes};

    lemma_tlv_bytes_empty();
    lemma_u32(m.seq);
    lemma_i64(m.t1);
    assert(tlv_bytes(Ping::fields(m, minor)) =~= item(1, four(m.seq as int)) + item(2, eight(m.t1 as int)));
}

/// PONG: 1 the number of the PING, 2 when that was sent, 3 when it came in, 4 when it was answered.
pub proof fn law_pong_on_the_wire(m: Pong, minor: u8)
    ensures
        tlv_bytes(Pong::fields(m, minor)) == item(1, four(m.seq as int)) + item(2, eight(m.t1 as int)) + item(
            3,
            eight(m.t2 as int),
        ) + item(4, eight(m.t3 as int)),
{
    broadcast use {lemma_tlv_bytes_push, law_a_fields_bytes};

    lemma_tlv_bytes_empty();
    lemma_u32(m.seq);
    lemma_i64(m.t1);
    lemma_i64(m.t2);
    lemma_i64(m.t3);
    assert(tlv_bytes(Pong::fields(m, minor)) =~= item(1, four(m.seq as int)) + item(2, eight(m.t1 as int)) + item(
        3,
        eight(m.t2 as int),
    ) + item(4, eight(m.t3 as int)));
}

/// PAIR_REQUEST: 1 the token. PAIR_RESULT: 1 the result. CONTROL_ACK: 1 the request, 2 the result.
pub proof fn law_short_messages_on_the_wire(token: Seq<u8>, r: PairResult, a: ControlAck, minor: u8)
    requires
        token.len() == 16,
    ensures
        tlv_bytes(PairRequest::fields(token, minor)) == item(1, token),
        tlv_bytes(PairResult::fields(r, minor)) == item(1, seq![r.result]),
        tlv_bytes(ControlAck::fields(a, minor)) == item(1, four(a.req_id as int)) + item(2, seq![a.result]),
{
    broadcast use {lemma_tlv_bytes_push, law_a_fields_bytes};

    lemma_tlv_bytes_empty();
    lemma_u8(r.result);
    lemma_u8(a.result);
    lemma_u32(a.req_id);
    assert(tlv_bytes(PairRequest::fields(token, minor)) =~= item(1, token));
    assert(tlv_bytes(PairResult::fields(r, minor)) =~= item(1, seq![r.result]));
    assert(tlv_bytes(ControlAck::fields(a, minor)) =~= item(1, four(a.req_id as int)) + item(2, seq![a.result]));
}

/// STREAM_STATUS: 1 the state, 2 the reason where there is one. VIDEO_CONFIG: 1 the codec, 2 the configuration.
pub proof fn law_stream_messages_on_the_wire(s: StreamStatusView, c: VideoConfigView, minor: u8)
    requires
        s.reason.len() <= 0xFFFF,
        c.config.len() <= 0xFFFF,
    ensures
        tlv_bytes(StreamStatus::fields(s, minor)) == item(1, seq![s.state]) + where_it_is(
            s.reason.len() > 0,
            item(2, s.reason),
        ),
        tlv_bytes(VideoConfig::fields(c, minor)) == item(1, seq![c.codec]) + item(2, c.config),
{
    broadcast use {lemma_tlv_bytes_push, law_a_fields_bytes};

    lemma_tlv_bytes_empty();
    lemma_u8(s.state);
    lemma_u8(c.codec);
    assert(tlv_bytes(StreamStatus::fields(s, minor)) =~= item(1, seq![s.state]) + where_it_is(
        s.reason.len() > 0,
        item(2, s.reason),
    ));
    assert(tlv_bytes(VideoConfig::fields(c, minor)) =~= item(1, seq![c.codec]) + item(2, c.config));
}

/// CAPS_SELECT and STREAM_START: 1 the codec, 2 and 3 width and height, 4 and 5 the frame rate, 6 the bitrate, 7 the
/// lens where one is chosen.
#[verifier::spinoff_prover]
#[verifier::rlimit(40)]
pub proof fn law_settings_on_the_wire(s: lenny_stream_settings, minor: u8)
    ensures
        tlv_bytes(CapsSelect::fields(s, minor)) == item(1, seq![s.codec]) + item(2, two(s.mode.width as int)) + item(
            3,
            two(s.mode.height as int),
        ) + item(4, two(s.mode.fps_num as int)) + item(5, two(s.mode.fps_den as int)) + item(
            6,
            four(s.bitrate_kbps as int),
        ) + where_it_is(s.has_lens != 0, item(7, seq![s.lens_id])),
        tlv_bytes(StreamStart::fields(s, minor)) == tlv_bytes(CapsSelect::fields(s, minor)),
{
    broadcast use {lemma_tlv_bytes_push, law_a_fields_bytes};

    lemma_tlv_bytes_empty();
    lemma_u8(s.codec);
    lemma_u16(s.mode.width);
    lemma_u16(s.mode.height);
    lemma_u16(s.mode.fps_num);
    lemma_u16(s.mode.fps_den);
    lemma_u32(s.bitrate_kbps);
    lemma_u8(s.lens_id);
    let written = tlv_bytes(CapsSelect::fields(s, minor));
    assert(written =~= item(1, seq![s.codec]) + item(2, two(s.mode.width as int)) + item(
        3,
        two(s.mode.height as int),
    ) + item(4, two(s.mode.fps_num as int)) + item(5, two(s.mode.fps_den as int)) + item(6, four(s.bitrate_kbps as int))
        + where_it_is(s.has_lens != 0, item(7, seq![s.lens_id])));
}

/// CONTROL: 1 the request, then one field that says what to do, under the number of the control: 11 and 21 with a
/// position, 12, 15, 16 and 17 on or off, 18 a lens, 19 a zoom, 14 a compensation, the others with nothing. There is
/// no 21 for a peer of version 1.0.
pub proof fn law_control_on_the_wire(c: lenny_control, minor: u8)
    ensures
        tlv_bytes(Control::fields(c, minor)) == item(1, four(c.req_id as int)) + (if c.cmd == 21 && minor < 1 {
            Seq::empty()
        } else if c.cmd == 11 || c.cmd == 21 {
            item(c.cmd as int, item(1, two(c.x as int)) + item(2, two(c.y as int)))
        } else if c.cmd == 12 || c.cmd == 15 || c.cmd == 16 || c.cmd == 17 {
            item(
                c.cmd as int,
                seq![
                    if c.value == 0 {
                        0u8
                    } else {
                        1u8
                    },
                ],
            )
        } else if c.cmd == 18 {
            item(18, seq![(c.value as int % 256) as u8])
        } else if c.cmd == 19 {
            item(19, two(c.value as int))
        } else if c.cmd == 14 {
            item(14, four(c.value as int))
        } else {
            item(c.cmd as int, Seq::empty())
        }),
{
    broadcast use {lemma_tlv_bytes_push, law_a_fields_bytes};

    lemma_tlv_bytes_empty();
    lemma_u32(c.req_id);
    lemma_u16(c.x);
    lemma_u16(c.y);
    lemma_u8(0);
    lemma_u8(1);
    lemma_u8((c.value as int % 256) as u8);
    lemma_u16((c.value as int % 65536) as u16);
    assert(two((c.value as int % 65536) as int) =~= two(c.value as int));
    lemma_i32(c.value);
    let at = Seq::empty().push(num(1, c.x)).push(num(2, c.y));
    assert(tlv_bytes(at) =~= item(1, two(c.x as int)) + item(2, two(c.y as int)));
    let id = Seq::<Field>::empty().push(num(1, c.req_id));
    assert(tlv_bytes(id) =~= item(1, four(c.req_id as int)));
    assert(tlv_bytes(id) + Seq::<u8>::empty() =~= tlv_bytes(id));
}

/// CONTROL_STATE: 1 to 9 the focus, the exposure's compensation and lock, the white balance's lock, the torch, the
/// lens, the zoom, the battery and whether it charges; 10 and 11 the pan, from version 1.1 on.
#[verifier::spinoff_prover]
#[verifier::rlimit(40)]
pub proof fn law_control_state_on_the_wire(m: ControlState, minor: u8)
    ensures
        ({
            let s = m.0;
            tlv_bytes(ControlState::fields(m, minor)) == item(1, seq![s.af_mode]) + item(
                2,
                four(s.exposure_comp as int),
            ) + item(3, seq![s.exposure_lock]) + item(4, seq![s.wb_lock]) + item(5, seq![s.torch]) + item(
                6,
                seq![s.lens_id],
            ) + item(7, two(s.zoom as int)) + item(8, seq![s.battery]) + item(9, seq![s.charging]) + where_it_is(
                minor >= 1,
                item(10, two(s.pan_x as int)) + item(11, two(s.pan_y as int)),
            )
        }),
{
    broadcast use {lemma_tlv_bytes_push, law_a_fields_bytes};

    let s = m.0;
    lemma_tlv_bytes_empty();
    lemma_u8(s.af_mode);
    lemma_i32(s.exposure_comp);
    lemma_u8(s.exposure_lock);
    lemma_u8(s.wb_lock);
    lemma_u8(s.torch);
    lemma_u8(s.lens_id);
    lemma_u16(s.zoom);
    lemma_u8(s.battery);
    lemma_u8(s.charging);
    lemma_u16(s.pan_x);
    lemma_u16(s.pan_y);
    let written = tlv_bytes(ControlState::fields(m, minor));
    assert(written =~= item(1, seq![s.af_mode]) + item(2, four(s.exposure_comp as int))
        + item(3, seq![s.exposure_lock]) + item(4, seq![s.wb_lock]) + item(5, seq![s.torch]) + item(6, seq![s.lens_id])
        + item(7, two(s.zoom as int)) + item(8, seq![s.battery]) + item(9, seq![s.charging]) + where_it_is(
        minor >= 1,
        item(10, two(s.pan_x as int)) + item(11, two(s.pan_y as int)),
    ));
}

/// VIDEO_FRAME: number, capture time, turn, flags and two bytes of nothing, and behind them the picture.
pub proof fn law_a_frames_meta_on_the_wire(m: VideoFrameMeta)
    ensures
        meta_bytes(m) == four(m.frame_seq as int) + eight(m.pts_us as int) + seq![m.orientation, m.flags, 0u8, 0u8],
{
    lemma_u32(m.frame_seq);
    lemma_i64(m.pts_us);
}

// ---- CAPS --------------------------------------------------------------------------------------

/// One field after the other, all under one tag.
pub open spec fn items(tag: int, vals: Seq<Seq<u8>>) -> Seq<u8>
    decreases vals.len(),
{
    if vals.len() == 0 {
        Seq::empty()
    } else {
        items(tag, vals.drop_last()) + item(tag, vals.last())
    }
}

proof fn lemma_items(fs: Seq<Field>, tag: u16, vals: Seq<Seq<u8>>)
    requires
        forall|i: int| 0 <= i < vals.len() ==> (#[trigger] vals[i]).len() <= 0xFFFF,
    ensures
        tlv_bytes(list_onto(fs, tag, vals)) == tlv_bytes(fs) + items(tag as int, vals),
    decreases vals.len(),
{
    if vals.len() == 0 {
        assert(tlv_bytes(fs) + Seq::<u8>::empty() =~= tlv_bytes(fs));
    } else {
        let init = vals.drop_last();
        assert forall|i: int| 0 <= i < init.len() implies (#[trigger] init[i]).len() <= 0xFFFF by {
            assert(init[i] == vals[i]);
        }
        lemma_items(fs, tag, init);
        assert(vals[vals.len() - 1].len() <= 0xFFFF);
        lemma_tlv_bytes_push(list_onto(fs, tag, init), blob(tag, vals.last()));
        law_a_fields_bytes(blob(tag, vals.last()));
        assert(tlv_bytes(fs) + items(tag as int, vals) =~= tlv_bytes(fs) + items(tag as int, init) + item(
            tag as int,
            vals.last(),
        ));
    }
}

/// A codec: 1 its number, 2 its profile, 3 its level. A mode: 1 and 2 width and height, 3 and 4 the frame rate.
pub proof fn law_codecs_and_modes_on_the_wire(c: Codec, m: lenny_mode)
    ensures
        codec_bytes(c) == item(1, seq![c.id]) + item(2, seq![c.profile]) + item(3, seq![c.level]),
        mode_bytes(m) == item(1, two(m.width as int)) + item(2, two(m.height as int)) + item(3, two(m.fps_num as int))
            + item(4, two(m.fps_den as int)),
{
    broadcast use {lemma_tlv_bytes_push, law_a_fields_bytes};

    lemma_tlv_bytes_empty();
    lemma_u8(c.id);
    lemma_u8(c.profile);
    lemma_u8(c.level);
    lemma_u16(m.width);
    lemma_u16(m.height);
    lemma_u16(m.fps_num);
    lemma_u16(m.fps_den);
    assert(codec_bytes(c) =~= item(1, seq![c.id]) + item(2, seq![c.profile]) + item(3, seq![c.level]));
    assert(mode_bytes(m) =~= item(1, two(m.width as int)) + item(2, two(m.height as int)) + item(
        3,
        two(m.fps_num as int),
    ) + item(4, two(m.fps_den as int)));
}

/// A lens: 1 its number, 2 where it looks, 3 its name; from version 1.1 on 4 for each of its modes, and 5 its zoom
/// where it has one: 1 the least, 2 the most, 3 its own ratio where that is known.
#[verifier::spinoff_prover]
#[verifier::rlimit(40)]
pub proof fn law_a_lens_on_the_wire(l: LensView, minor: u8)
    requires
        l.label.len() <= 0xFFFF,
    ensures
        lens_bytes(l, minor) == item(1, seq![l.id]) + item(2, seq![l.facing]) + item(3, l.label) + where_it_is(
            minor >= 1,
            items(4, l.modes.map_values(|m: lenny_mode| mode_bytes(m))) + where_it_is(
                l.zoom_max != 0,
                item(
                    5,
                    item(1, two(l.zoom_min as int)) + item(2, two(l.zoom_max as int)) + where_it_is(
                        l.zoom_base != 0,
                        item(3, two(l.zoom_base as int)),
                    ),
                ),
            ),
        ),
{
    broadcast use {lemma_tlv_bytes_push, law_a_fields_bytes};

    lemma_tlv_bytes_empty();
    lemma_u8(l.id);
    lemma_u8(l.facing);
    lemma_u16(l.zoom_min);
    lemma_u16(l.zoom_max);
    lemma_u16(l.zoom_base);
    let head = Seq::empty().push(num(1, l.id)).push(num(2, l.facing)).push(blob(3, l.label));
    assert(tlv_bytes(head) =~= item(1, seq![l.id]) + item(2, seq![l.facing]) + item(3, l.label));
    let zoom = item(1, two(l.zoom_min as int)) + item(2, two(l.zoom_max as int)) + where_it_is(
        l.zoom_base != 0,
        item(3, two(l.zoom_base as int)),
    );
    assert(tlv_bytes(zoom_fields(l)) =~= zoom);
    let vals = l.modes.map_values(|m: lenny_mode| mode_bytes(m));
    assert forall|i: int| 0 <= i < vals.len() implies (#[trigger] vals[i]).len() <= 0xFFFF by {
        law_codecs_and_modes_on_the_wire(Codec { id: 0, profile: 0, level: 0 }, l.modes[i]);
    }
    lemma_items(head, 4, vals);
    assert(lens_bytes(l, minor) =~= tlv_bytes(head) + where_it_is(
        minor >= 1,
        items(4, vals) + where_it_is(l.zoom_max != 0, item(5, zoom)),
    ));
}

/// CAPS: 1 for each codec, 2 for each mode, 3 the largest bitrate, 4 the controls, 5 for each lens, and 6 the range of
/// the exposure's compensation where there is one: 1 the least, 2 the most, 3 the step.
#[verifier::spinoff_prover]
#[verifier::rlimit(40)]
pub proof fn law_caps_on_the_wire(m: CapsView, minor: u8)
    requires
        forall|i: int| 0 <= i < m.lenses.len() ==> lens_bytes(#[trigger] m.lenses[i], minor).len() <= 0xFFFF,
    ensures
        tlv_bytes(Caps::fields(m, minor)) == items(1, m.codecs.map_values(|c: Codec| codec_bytes(c))) + items(
            2,
            m.modes.map_values(|d: lenny_mode| mode_bytes(d)),
        ) + item(3, four(m.max_bitrate_kbps as int)) + item(4, eight(m.controls as int)) + items(
            5,
            m.lenses.map_values(|l: LensView| lens_bytes(l, minor)),
        ) + where_it_is(
            m.has_exposure_range,
            item(
                6,
                item(1, four(m.exposure_min as int)) + item(2, four(m.exposure_max as int)) + item(
                    3,
                    four(m.exposure_step_milli as int),
                ),
            ),
        ),
{
    lemma_tlv_bytes_empty();
    let codecs = m.codecs.map_values(|c: Codec| codec_bytes(c));
    let modes = m.modes.map_values(|d: lenny_mode| mode_bytes(d));
    let lenses = m.lenses.map_values(|l: LensView| lens_bytes(l, minor));
    let none = lenny_mode { width: 0, height: 0, fps_num: 0, fps_den: 0 };
    assert forall|i: int| 0 <= i < codecs.len() implies (#[trigger] codecs[i]).len() <= 0xFFFF by {
        law_codecs_and_modes_on_the_wire(m.codecs[i], none);
    }
    assert forall|i: int| 0 <= i < modes.len() implies (#[trigger] modes[i]).len() <= 0xFFFF by {
        law_codecs_and_modes_on_the_wire(Codec { id: 0, profile: 0, level: 0 }, m.modes[i]);
    }
    assert forall|i: int| 0 <= i < lenses.len() implies (#[trigger] lenses[i]).len() <= 0xFFFF by {
        assert(lens_bytes(m.lenses[i], minor).len() <= 0xFFFF);
    }
    let a = list_onto(Seq::<Field>::empty(), 1, codecs);
    let b = list_onto(a, 2, modes);
    let rate = b.push(num(3, m.max_bitrate_kbps));
    let c = rate.push(num(4, m.controls));
    let d = list_onto(c, 5, lenses);
    lemma_items(Seq::empty(), 1, codecs);
    lemma_items(a, 2, modes);
    lemma_items(c, 5, lenses);
    let front = items(1, codecs) + items(2, modes);
    let numbers = item(3, four(m.max_bitrate_kbps as int)) + item(4, eight(m.controls as int));
    assert(tlv_bytes(b) =~= front);
    assert(tlv_bytes(c) =~= front + numbers) by {
        lemma_u32(m.max_bitrate_kbps);
        lemma_u64(m.controls);
        lemma_tlv_bytes_push(b, num(3, m.max_bitrate_kbps));
        lemma_tlv_bytes_push(rate, num(4, m.controls));
        law_a_fields_bytes(num(3, m.max_bitrate_kbps));
        law_a_fields_bytes(num(4, m.controls));
    }
    let range = item(1, four(m.exposure_min as int)) + item(2, four(m.exposure_max as int)) + item(
        3,
        four(m.exposure_step_milli as int),
    );
    lemma_range(m);
    lemma_tlv_bytes_push(d, blob(6, range));
    law_a_fields_bytes(blob(6, range));
    assert(tlv_bytes(d) == tlv_bytes(c) + items(5, lenses));
    assert(tlv_bytes(Caps::fields(m, minor)) == (if m.has_exposure_range {
        tlv_bytes(d) + item(6, range)
    } else {
        tlv_bytes(d)
    }));
    assert(tlv_bytes(Caps::fields(m, minor)) =~= items(1, codecs) + items(2, modes) + item(
        3,
        four(m.max_bitrate_kbps as int),
    ) + item(4, eight(m.controls as int)) + items(5, lenses) + where_it_is(m.has_exposure_range, item(6, range)));
}

proof fn lemma_range(m: CapsView)
    ensures
        tlv_bytes(exposure_fields(m)) == item(1, four(m.exposure_min as int)) + item(2, four(m.exposure_max as int))
            + item(3, four(m.exposure_step_milli as int)),
        tlv_bytes(exposure_fields(m)).len() == 24,
{
    broadcast use {lemma_tlv_bytes_push, law_a_fields_bytes};

    lemma_tlv_bytes_empty();
    lemma_i32(m.exposure_min);
    lemma_i32(m.exposure_max);
    lemma_u32(m.exposure_step_milli);
    assert(tlv_bytes(exposure_fields(m)) =~= item(1, four(m.exposure_min as int)) + item(
        2,
        four(m.exposure_max as int),
    ) + item(3, four(m.exposure_step_milli as int)));
}

// ---- Fields that are missing -------------------------------------------------------------------

/// No field has this tag.
pub open spec fn lacks(fs: Seq<Field>, tag: u16) -> bool {
    forall|i: int| 0 <= i < fs.len() ==> (#[trigger] fs[i]).tag != tag
}

/// A message that lacks one of the fields it needs is refused: HELLO 1 to 5, GOODBYE, PAIR_REQUEST, PAIR_RESULT and
/// STREAM_STATUS 1, PING and CONTROL_ACK 1 and 2, PONG 1 to 4, VIDEO_CONFIG 2, and CONTROL 1 or all of 10 to 21.
pub proof fn law_messages_need_their_fields(fs: Seq<Field>, tag: u16)
    requires
        lacks(fs, tag),
    ensures
        1 <= tag <= 5 ==> Hello::from_fields(fs) is None,
        tag == 1 ==> {
            &&& Goodbye::from_fields(fs) is None
            &&& PairRequest::from_fields(fs) is None
            &&& PairResult::from_fields(fs) is None
            &&& StreamStatus::from_fields(fs) is None
            &&& Control::from_fields(fs) is None
        },
        1 <= tag <= 2 ==> Ping::from_fields(fs) is None && ControlAck::from_fields(fs) is None,
        1 <= tag <= 4 ==> Pong::from_fields(fs) is None,
        tag == 2 ==> VideoConfig::from_fields(fs) is None,
{
    lemma_absent(fs, tag);
}

/// What a phone leaves out of its CONTROL_STATE is not known or at rest: the battery's level is 255, the pan is in the
/// middle, everything else 0.
pub proof fn law_a_state_without_fields_is_at_rest(fs: Seq<Field>)
    requires
        forall|i: int| 0 <= i < fs.len() ==> (#[trigger] fs[i]).tag > 11,
    ensures
        ControlState::from_fields(fs) == Some(
            ControlState(
                lenny_control_state {
                    af_mode: 0,
                    exposure_comp: 0,
                    exposure_lock: 0,
                    wb_lock: 0,
                    torch: 0,
                    lens_id: 0,
                    zoom: 0,
                    battery: 255,
                    charging: 0,
                    pan_x: 32768,
                    pan_y: 32768,
                },
            ),
        ),
{
    lemma_absent(fs, 1);
    lemma_absent(fs, 2);
    lemma_absent(fs, 3);
    lemma_absent(fs, 4);
    lemma_absent(fs, 5);
    lemma_absent(fs, 6);
    lemma_absent(fs, 7);
    lemma_absent(fs, 8);
    lemma_absent(fs, 9);
    lemma_absent(fs, 10);
    lemma_absent(fs, 11);
}

/// Of several fields with one tag the last one counts.
pub proof fn law_the_last_field_counts(fs: Seq<Field>, tag: u16, k: int)
    requires
        0 <= k < fs.len(),
        fs[k].tag == tag,
        forall|i: int| k < i < fs.len() ==> (#[trigger] fs[i]).tag != tag,
    ensures
        last_of(fs, tag) == Some(fs[k].val),
    decreases fs.len(),
{
    if k < fs.len() - 1 {
        assert(fs[fs.len() - 1].tag != tag);
        let init = fs.drop_last();
        assert forall|i: int| k < i < init.len() implies (#[trigger] init[i]).tag != tag by {
            assert(init[i] == fs[i]);
        }
        law_the_last_field_counts(init, tag, k);
    }
}

/// A number whose field has another length than it spoils the message: a PING whose number is not four bytes long, say.
pub proof fn law_a_number_of_another_length_spoils_a_message(fs: Seq<Field>, k: int)
    requires
        0 <= k < fs.len(),
    ensures
        fs[k].tag == 1 && fs[k].val.len() != 4 ==> Ping::from_fields(fs) is None && Pong::from_fields(fs) is None
            && ControlAck::from_fields(fs) is None && Control::from_fields(fs) is None,
        2 <= fs[k].tag <= 4 && fs[k].val.len() != 8 ==> Pong::from_fields(fs) is None,
        fs[k].tag == 2 && fs[k].val.len() != 8 ==> Ping::from_fields(fs) is None,
        fs[k].tag == 1 && fs[k].val.len() != 2 ==> Goodbye::from_fields(fs) is None,
        fs[k].tag == 1 && fs[k].val.len() != 16 ==> PairRequest::from_fields(fs) is None,
        fs[k].tag == 1 && fs[k].val.len() != 1 ==> PairResult::from_fields(fs) is None && StreamStatus::from_fields(
            fs,
        ) is None,
        1 <= fs[k].tag <= 3 && fs[k].val.len() != 1 ==> Hello::from_fields(fs) is None,
        fs[k].tag == 4 && fs[k].val.len() != 16 ==> Hello::from_fields(fs) is None,
{
}

// ---- What is no message ------------------------------------------------------------------------

/// Bytes that do not begin with 'L' and 'Y' are no message, and neither is one that says it is longer than 65536 bytes,
/// or 4194304 for a frame. One whose end has not come in yet is waited for.
pub proof fn law_what_is_no_message(p: Seq<u8>)
    ensures
        p.len() < 12 ==> front(p) == Front::NeedMore,
        p.len() >= 12 && (p[0] != 0x4C || p[1] != 0x59) ==> front(p) == Front::BadMagic,
        p.len() >= 12 && p[0] == 0x4C && p[1] == 0x59 ==> ({
            let typ = p[4] + 256 * p[5];
            let length = p[8] + 256 * p[9] + 65536 * p[10] + 16777216 * p[11];
            let most = if typ == 0x31 {
                4194304int
            } else {
                65536
            };
            &&& length > most ==> front(p) == Front::TooLarge
            &&& length <= most && p.len() < 12 + length ==> front(p) == Front::NeedMore
            &&& length <= most && p.len() >= 12 + length ==> (front(p) matches Front::Message(h, q) && {
                &&& h.ver_major == p[2] && h.ver_minor == p[3]
                &&& h.typ == typ && h.flags == p[6] + 256 * p[7] && h.length == length
                &&& q == p.subrange(12, 12 + length)
            })
        }),
        after_front(p) == (match front(p) {
            Front::Message(h, q) => p.skip(12 + q.len() as int),
            _ => p,
        }),
{
    if p.len() >= 12 {
        lemma_two_bytes(p.subrange(4, 6));
        lemma_two_bytes(p.subrange(6, 8));
        lemma_four_bytes(p.subrange(8, 12));
    }
}

proof fn lemma_two_bytes(s: Seq<u8>)
    requires
        s.len() == 2,
    ensures
        u16::of_bytes(s) == s[0] + 256 * s[1],
{
    reveal_with_fuel(le_nat, 3);
    assert(s.skip(1).skip(1).len() == 0);
    assert(le_nat(s.skip(1)) == s[1] as nat);
}

proof fn lemma_four_bytes(s: Seq<u8>)
    requires
        s.len() == 4,
    ensures
        u32::of_bytes(s) == s[0] + 256 * s[1] + 65536 * s[2] + 16777216 * s[3],
{
    assert(s.skip(1).skip(1) =~= s.skip(2));
    assert(s.skip(2).skip(1) =~= s.skip(3));
    assert(s.skip(3).skip(1) =~= s.skip(4));
    assert(le_nat(s.skip(4)) == 0);
    assert(le_nat(s.skip(3)) == s[3] as nat);
    assert(le_nat(s.skip(2)) == s[2] as nat + 256 * s[3] as nat);
    assert(le_nat(s.skip(1)) == s[1] as nat + 256 * (s[2] as nat + 256 * s[3] as nat));
}

} // verus!
