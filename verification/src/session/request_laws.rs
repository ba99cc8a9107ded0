//! What holds of what the program asks of a session: the other side gets just that.
use vstd::prelude::*;
use crate::abi::{lenny_control, lenny_control_state, lenny_event, lenny_stats, lenny_stream_settings};
use crate::session::api::{
    after_request, after_sent, approved, connecting, control_message, numbered, select_message, start_message,
    state_message, status_message,
};
use crate::session::course_laws::{
    is_saying, law_a_text_ends_at_its_first_zero, law_an_accepted_device_goes_on, law_hello_introduces_the_other_side,
    lemma_whole, says_goodbye,
};
use crate::session::effect::{EffectView, go_on};
use crate::session::laws::hears;
use crate::session::link::{ack_message, busy_bytes, goodbye, message_step, tick_step};
use crate::session::negotiate::chosen;
use crate::session::state::{Phase, Role, SessionView};
use crate::session::stream_laws::{reads, watches};
use crate::wire::control::{
    CapsSelect, Control, StreamStart, law_control_round_trip, law_settings_round_trip,
};
use crate::wire::frame::law_message_reads_back;
use crate::wire::layout_laws::{
    law_control_on_the_wire, law_control_state_on_the_wire, law_settings_on_the_wire, law_short_messages_on_the_wire,
};
use crate::wire::message::{Message, message_bytes, message_header};
use crate::wire::simple::{
    ControlAck, ControlState, Goodbye, GoodbyeView, HelloView, PairRequest, PairResult, StreamStatus, StreamStatusView,
    law_control_ack_round_trip, law_control_state_round_trip, law_goodbye_round_trip, law_stream_status_round_trip,
};
use crate::wire::tlv::{lemma_tlv_bytes_empty, tlv_bytes};

verus! {

/// A sender on a running stream.
pub open spec fn streams(tx: SessionView) -> bool {
    tx.role == Role::Sender && tx.link.phase == Phase::Streaming
}

/// A side reads a whole message whatever follows it.
proof fn lemma_reads<M: Message>(s: SessionView, m: M::V, minor: u8, rest: Seq<u8>, now: i64, at: i64)
    requires
        tlv_bytes(M::fields(m, minor)).len() <= 65536,
    ensures
        ({
            let p = tlv_bytes(M::fields(m, minor));
            let (t, step) = message_step(s, message_header(M::type_id(), minor, p.len()), p, now, at);
            reads(s, message_bytes::<M>(m, minor) + rest, now, at) == Some((t, step, rest))
        }),
{
    reveal(reads);
    let p = tlv_bytes(M::fields(m, minor));
    law_message_reads_back(message_header(M::type_id(), minor, p.len()), p, rest);
}

/// The state of the camera that a phone tells is what the desktop then knows, and is told of; the pan from version 1.1
/// on.
pub proof fn law_the_state_of_the_camera_is_known(
    tx: SessionView,
    rx: SessionView,
    cs: lenny_control_state,
    rest: Seq<u8>,
    now: i64,
    at: i64,
)
    requires
        watches(rx),
        tx.minor >= 1,
    ensures
        reads(rx, state_message(tx, cs) + rest, now, at) matches Some((t, step, left)) && {
            &&& left == rest
            &&& t.info.control_state == cs && t.info.has_control_state
            &&& t.info.settings == rx.info.settings && t.stats == rx.stats && t.link == rx.link
            &&& step == go_on(
                seq![
                    EffectView::ControlState(cs),
                    EffectView::Event(lenny_event::LENNY_EVENT_CONTROL_STATE, 0, 0),
                ],
            )
        },
{
    let m = ControlState(cs);
    law_control_state_round_trip(m, tx.minor);
    law_control_state_on_the_wire(m, tx.minor);
    lemma_reads::<ControlState>(rx, m, tx.minor, rest, now, at);
}

/// What a phone says of its stream reaches the desktop as it is: the state, and the reason up to a zero byte.
pub proof fn law_the_state_of_the_stream_is_told(
    tx: SessionView,
    rx: SessionView,
    state: u8,
    reason: Seq<u8>,
    rest: Seq<u8>,
    now: i64,
    at: i64,
)
    requires
        watches(rx),
        reason.len() <= 65000,
        forall|i: int| 0 <= i < reason.len() ==> #[trigger] reason[i] != 0,
    ensures
        reads(rx, status_message(tx, state, reason) + rest, now, at) == Some(
            (
                rx,
                go_on(
                    seq![
                        EffectView::StreamStatus(state, reason),
                        EffectView::Event(lenny_event::LENNY_EVENT_STREAM_STATUS, state as i32, 0),
                    ],
                ),
                rest,
            ),
        ),
{
    broadcast use {crate::le::lemma_le, crate::wire::tlv::lemma_tlv_bytes_push};

    let m = StreamStatusView { state, reason };
    lemma_tlv_bytes_empty();
    law_stream_status_round_trip(m, tx.minor);
    lemma_reads::<StreamStatus>(rx, m, tx.minor, rest, now, at);
    law_a_text_ends_at_its_first_zero(reason, reason.len() as int);
    assert(reason.take(reason.len() as int) =~= reason);
}

/// Other settings that a phone streams with are what the desktop then knows: all of them, but for a lens that was not
/// chosen.
pub proof fn law_new_settings_are_known(
    tx: SessionView,
    rx: SessionView,
    eff: lenny_stream_settings,
    rest: Seq<u8>,
    now: i64,
    at: i64,
)
    requires
        watches(rx),
        eff.mode.fps_den != 0,
        eff.has_lens <= 1,
        eff.has_lens == 0 ==> eff.lens_id == 0,
    ensures
        reads(rx, start_message(tx, eff) + rest, now, at) matches Some((t, step, left)) && {
            &&& left == rest
            &&& t.info.settings == eff && t.info.has_settings
            &&& t.info.peer_caps == rx.info.peer_caps && t.info.preferred == rx.info.preferred
            &&& step == go_on(
                seq![
                    EffectView::StreamStart(eff),
                    EffectView::Event(lenny_event::LENNY_EVENT_STREAM_START, 0, 0),
                ],
            )
        },
{
    law_settings_round_trip(eff, tx.minor);
    law_settings_on_the_wire(eff, tx.minor);
    lemma_reads::<StreamStart>(rx, eff, tx.minor, rest, now, at);
}

/// A control that the desktop asks for reaches the phone with the number of the request: a position (11, 21), a switch
/// (12, 15, 16, 17), a lens (18), a zoom (19) or a compensation (14) as it was given. The next request has the next
/// number.
pub proof fn law_a_control_reaches_the_phone(
    rx: SessionView,
    tx: SessionView,
    c: lenny_control,
    rest: Seq<u8>,
    now: i64,
    at: i64,
)
    requires
        streams(tx),
        10 <= c.cmd <= 21,
        rx.minor >= 1,
    ensures
        ({
            let n = numbered(rx, c);
            &&& n.req_id == rx.next_req_id && n.cmd == c.cmd && n.x == c.x && n.y == c.y && n.value == c.value
            &&& after_request(rx) == (SessionView { next_req_id: after_request(rx).next_req_id, ..rx })
            &&& rx.next_req_id < u32::MAX ==> after_request(rx).next_req_id == rx.next_req_id + 1
            &&& after_request(rx).next_req_id != rx.next_req_id
        }),
        reads(tx, control_message(rx, c) + rest, now, at) matches Some((t, step, left)) && {
            &&& t == tx && left == rest && step.end is None && step.effects.len() == 1
            &&& step.effects[0] matches EffectView::Control(k) && {
                &&& k.req_id == rx.next_req_id && k.cmd == c.cmd
                &&& c.cmd == 11 || c.cmd == 21 ==> k.x == c.x && k.y == c.y
                &&& (c.cmd == 12 || 15 <= c.cmd <= 17) && 0 <= c.value <= 1 ==> k.value == c.value
                &&& c.cmd == 18 && 0 <= c.value < 256 ==> k.value == c.value
                &&& c.cmd == 19 && 0 <= c.value < 65536 ==> k.value == c.value
                &&& c.cmd == 14 ==> k.value == c.value
            }
        },
{
    let n = numbered(rx, c);
    law_control_round_trip(n, rx.minor);
    law_control_on_the_wire(n, rx.minor);
    lemma_reads::<Control>(tx, n, rx.minor, rest, now, at);
}

/// The result of a control reaches the desktop with the number of its request.
pub proof fn law_the_result_of_a_control_is_told(
    tx: SessionView,
    rx: SessionView,
    req_id: u32,
    result: i32,
    rest: Seq<u8>,
    now: i64,
    at: i64,
)
    requires
        watches(rx),
        0 <= result < 256,
        req_id <= i32::MAX,
    ensures
        reads(rx, ack_message(tx, req_id, result) + rest, now, at) == Some(
            (
                rx,
                go_on(
                    seq![
                        EffectView::ControlAck(req_id, result as u8),
                        EffectView::Event(lenny_event::LENNY_EVENT_CONTROL_ACK, req_id as i32, result),
                    ],
                ),
                rest,
            ),
        ),
{
    let a = ControlAck { req_id, result: result as u8 };
    law_control_ack_round_trip(a, tx.minor);
    law_short_messages_on_the_wire(Seq::new(16, |i: int| 0u8), PairResult { result: 0 }, a, tx.minor);
    lemma_reads::<ControlAck>(rx, a, tx.minor, rest, now, at);
}

/// Other settings that the desktop asks for reach the phone as far as the phone can do them: what it is told to stream
/// with is what was picked among its own capabilities.
pub proof fn law_a_choice_reaches_the_phone(
    rx: SessionView,
    tx: SessionView,
    pref: lenny_stream_settings,
    rest: Seq<u8>,
    now: i64,
    at: i64,
)
    requires
        streams(tx),
        chosen(rx.info.peer_caps, pref).mode.fps_den != 0,
    ensures
        reads(tx, select_message(rx, pref) + rest, now, at) matches Some((t, step, left)) && {
            let s = chosen(rx.info.peer_caps, pref);
            &&& t == tx && left == rest && step.end is None && step.effects.len() == 1
            &&& step.effects[0] matches EffectView::StreamConfig(k) && {
                &&& k.codec == s.codec && k.mode == s.mode && k.bitrate_kbps == s.bitrate_kbps
                &&& k.has_lens != 0 <==> s.has_lens != 0
                &&& s.has_lens != 0 ==> k.lens_id == s.lens_id
            }
        },
{
    let s = chosen(rx.info.peer_caps, pref);
    law_settings_round_trip(s, rx.minor);
    law_settings_on_the_wire(s, rx.minor);
    lemma_reads::<CapsSelect>(tx, s, rx.minor, rest, now, at);
}

/// A device that the user lets in is trusted at the next tick, and gets the desktop's choice; one that the user does
/// not let in is told goodbye (3) and is not trusted.
pub proof fn law_the_users_answer_counts(s: SessionView, now: i64)
    requires
        now - s.link.last_rx <= 3_000_000,
        now <= i64::MAX - 5_000_000,
        s.link.phase == Phase::ApprovalWait,
    ensures
        ({
            let (yes, step) = tick_step(approved(s, true), now);
            yes.trusted == s.trusted.insert(s.link.peer.device_id) && yes.link.phase == Phase::StreamStartWait
                && step.end is None
        }),
        ({
            let (no, step) = tick_step(approved(s, false), now);
            &&& no.trusted == s.trusted
            &&& step.end == Some(3i32)
            &&& step.effects.len() == 1
            &&& step.effects[0] matches EffectView::Goodbye(b) && says_goodbye(b, 3, s.minor)
        }),
{
    law_an_accepted_device_goes_on(approved(s, true), now);
    crate::session::course_laws::law_a_goodbye_tells_the_reason(approved(s, false), 3);
}

/// What was sent counts where it is a frame. What could not be sent ends the stream's queue: it starts again from a
/// keyframe.
pub proof fn law_what_was_sent_counts(s: SessionView, payload: usize)
    requires
        s.stats.frames < u64::MAX,
        s.stats.bytes + payload <= u64::MAX,
    ensures
        after_sent(s, true, 0) == s,
        payload > 0 ==> after_sent(s, true, payload) == (SessionView {
            stats: lenny_stats {
                frames: (s.stats.frames + 1) as u64,
                bytes: (s.stats.bytes + payload) as u64,
                ..s.stats
            },
            ..s
        }),
        after_sent(s, false, payload).vq.q.len() == 0,
        after_sent(s, false, payload).vq.drop_until_key,
        after_sent(s, false, payload).vq.video_config == s.vq.video_config,
        after_sent(s, false, payload).stats == s.stats,
{
}

/// A token that a sender was told to connect with is the one that it asks to redeem once it heard HELLO.
pub proof fn law_the_token_of_the_link_is_redeemed(
    s: SessionView,
    token: Seq<u8>,
    h: HelloView,
    minor: u8,
    now: i64,
)
    requires
        s.role == Role::Sender,
        s.link.phase == Phase::HelloWait,
        h.proto_major == 1,
        h.device_id.len() == 16,
        h.device_name.len() <= 0xFFFF,
        h.app_version.len() <= 0xFFFF,
        h.role != s.hello.role,
    ensures
        hears::<crate::wire::simple::Hello>(connecting(s, Some(token)), h, minor, now).1.effects[0] == EffectView::Post(
            message_bytes::<PairRequest>(
                token,
                if h.proto_minor < 1 {
                    h.proto_minor
                } else {
                    1
                },
            ),
        ),
        connecting(s, None).link.pair_token is None,
        connecting(s, None).trusted == s.trusted,
{
    law_hello_introduces_the_other_side(connecting(s, Some(token)), h, minor, now);
}

/// A second phone is told goodbye for 4, busy, with words.
pub proof fn law_a_second_phone_is_told_busy()
    ensures
        is_saying::<Goodbye>(
            busy_bytes(),
            2,
            1,
            GoodbyeView { reason: 4, detail: vstd::utf8::encode_utf8("another phone is streaming"@) },
        ),
{
    broadcast use {crate::le::lemma_le, crate::wire::tlv::lemma_all_fit_push, crate::wire::tlv::lemma_tlv_bytes_push};

    let text = "another phone is streaming"@;
    reveal_strlit("another phone is streaming");
    lemma_ascii_bytes(text);
    let m = GoodbyeView { reason: 4, detail: vstd::utf8::encode_utf8(text) };
    lemma_tlv_bytes_empty();
    law_goodbye_round_trip(m, 1);
    crate::wire::tlv::law_written_fields_read_back(Goodbye::fields(m, 1));
    lemma_whole::<Goodbye>(m, 1);
}

/// A text takes at most four bytes for each character.
proof fn lemma_ascii_bytes(text: Seq<char>)
    ensures
        vstd::utf8::encode_utf8(text).len() <= 4 * text.len(),
    decreases text.len(),
{
    if text.len() > 0 {
        lemma_ascii_bytes(text.drop_first());
    }
}

} // verus!
