//! What holds of every session.
use vstd::prelude::*;
use crate::abi::{
    LENNY_PAIR_OK, LENNY_REASON_LINK_LOST, LENNY_REASON_PAIR_DENIED, LENNY_REASON_VERSION, lenny_control,
    lenny_control_state, lenny_state, lenny_stream_settings,
};
use crate::pairing::answer;
use crate::session::effect::{EffectView, FrameView, StepView, go_on, nothing};
use crate::session::link::{
    APPROVAL_TIMEOUT, SILENCE_LIMIT, caps_received, configured_step, ended, goodbye, hello_step,
    local_pts, message_step, pair_step, start_step, started_step, tick_step,
};
use crate::session::negotiate::{chosen, law_picked_mode_is_offered_and_closest};
use crate::session::peer::until_nul;
use crate::session::queue::{MAX_FRAME, frame_bytes, frame_item};
use crate::session::state::{Approval, Phase, Role, SessionView, fresh};
use crate::timing::later;
use crate::wire::caps::{
    Caps, CapsView, caps_have_rates, caps_on_wire, law_caps_round_trip, lens_fits, modes_have_rates,
};
use crate::wire::control::{
    CapsSelect, Control, StreamStart, control_is_plain, control_on_wire, is_newer, law_control_round_trip,
    law_settings_round_trip, settings_on_wire,
};
use crate::wire::frame::{
    Front, Header, VERSION_MAJOR, VERSION_MINOR, after_front, front, header_bytes, law_message_reads_back,
};
use crate::wire::message::{Message, decoded, message_bytes};
use crate::wire::msg;
use crate::wire::simple::{
    ControlAck, ControlState, Hello, HelloView, PAN_CENTER, PairRequest, PairResult, hello_on_wire,
    law_control_ack_round_trip, law_control_state_round_trip, law_hello_round_trip,
};
use crate::wire::tlv::tlv_bytes;
use crate::wire::video::{
    VIDEO_FRAME_META_SIZE, VideoFrameMeta, law_video_frame_round_trip, lemma_meta_len, meta_bytes,
};

verus! {

/// Whether this version of the protocol defines messages of a type.
pub open spec fn known_type(typ: u16) -> bool {
    ||| typ == msg::HELLO
    ||| typ == msg::GOODBYE
    ||| typ == msg::PING
    ||| typ == msg::PONG
    ||| typ == msg::PAIR_REQUEST
    ||| typ == msg::PAIR_RESULT
    ||| typ == msg::CAPS
    ||| typ == msg::CAPS_SELECT
    ||| typ == msg::STREAM_START
    ||| typ == msg::STREAM_STATUS
    ||| typ == msg::VIDEO_CONFIG
    ||| typ == msg::VIDEO_FRAME
    ||| typ == msg::CONTROL
    ||| typ == msg::CONTROL_STATE
    ||| typ == msg::CONTROL_ACK
}

/// A message of an unknown type changes nothing, in any state, whatever its payload.
pub proof fn law_unknown_types_are_skipped(
    s: SessionView,
    h: Header,
    p: Seq<u8>,
    now: i64,
    at: i64,
)
    requires
        !known_type(h.typ),
        h.ver_major == VERSION_MAJOR,
    ensures
        message_step(s, h, p, now, at) == (s, nothing()),
{
}

/// Before HELLO, nothing but HELLO and GOODBYE counts.
pub proof fn law_nothing_counts_before_hello(
    s: SessionView,
    h: Header,
    p: Seq<u8>,
    now: i64,
    at: i64,
)
    requires
        s.link.phase == Phase::HelloWait,
        h.typ != msg::HELLO,
        h.typ != msg::GOODBYE,
        h.ver_major == VERSION_MAJOR,
    ensures
        message_step(s, h, p, now, at) == (s, nothing()),
{
}

/// A second HELLO changes nothing.
pub proof fn law_duplicate_hello_is_ignored(
    s: SessionView,
    h: Header,
    p: Seq<u8>,
    now: i64,
    at: i64,
)
    requires
        s.link.phase != Phase::HelloWait,
        h.typ == msg::HELLO,
        h.ver_major == VERSION_MAJOR,
    ensures
        message_step(s, h, p, now, at) == (s, nothing()),
{
}

/// A message with another major version is answered GOODBYE(VERSION) and ends the link, whatever
/// it is.
pub proof fn law_other_major_versions_end_the_link(
    s: SessionView,
    h: Header,
    p: Seq<u8>,
    now: i64,
    at: i64,
)
    requires
        h.ver_major != VERSION_MAJOR,
    ensures
        message_step(s, h, p, now, at) == (s, goodbye(s, LENNY_REASON_VERSION)),
{
}

/// The negotiated minor version is the lower one of both sides.
pub proof fn law_lower_minor_version_is_used(s: SessionView, p: Seq<u8>, h: HelloView, now: i64)
    requires
        s.link.phase == Phase::HelloWait,
        decoded::<Hello>(p) == Some(h),
        h.proto_major == VERSION_MAJOR,
        h.role != s.hello.role,
    ensures
        hello_step(s, p, now).0.minor <= VERSION_MINOR,
        hello_step(s, p, now).0.minor <= h.proto_minor,
        hello_step(s, p, now).0.minor == VERSION_MINOR || hello_step(s, p, now).0.minor
            == h.proto_minor,
        hello_step(s, p, now).0.link.phase != Phase::HelloWait,
        hello_step(s, p, now).0.link.peer == h,
{
}

// ---- Trust -------------------------------------------------------------------------------------

/// A receiver lets a phone choose settings or stream only if it trusts that phone, and a session
/// counts as streaming only in the phase for it.
pub open spec fn session_inv(s: SessionView) -> bool {
    &&& s.role == Role::Receiver && (s.link.phase == Phase::StreamStartWait || s.link.phase
        == Phase::Streaming) ==> s.trusted.contains(s.link.peer.device_id)
    &&& s.streaming ==> s.link.phase == Phase::Streaming
    &&& s.role == Role::Receiver ==> s.link.phase != Phase::PairWait && s.link.phase
        != Phase::CapsWait
    &&& s.role == Role::Sender ==> s.link.phase != Phase::PairOrCaps && s.link.phase
        != Phase::ApprovalWait && s.link.phase != Phase::StreamStartWait
}

/// A new session keeps that.
pub proof fn law_new_session_is_sound(
    role: Role,
    hello: HelloView,
    caps: CapsView,
    port: u16,
    preferred: lenny_stream_settings,
)
    ensures
        session_inv(fresh(role, hello, caps, port, preferred)),
{
}

/// Every step keeps it: a message, time that passes, the answers of the platform, the end of a link, and the start of
/// the next one.
pub proof fn law_every_step_stays_sound(
    s: SessionView,
    h: Header,
    p: Seq<u8>,
    eff: lenny_stream_settings,
    now: i64,
    at: i64,
)
    requires
        session_inv(s),
    ensures
        session_inv(message_step(s, h, p, now, at).0),
        session_inv(tick_step(s, now).0),
        session_inv(configured_step(s, eff).0),
        s.role == Role::Sender ==> session_inv(started_step(s, eff, now).0),
        session_inv(ended(s)),
        session_inv(start_step(ended(s), now).0),
{
}

/// A message makes a device trusted in one way only: by a token that is good at that moment.
pub proof fn law_messages_give_trust_only_for_a_good_token(
    s: SessionView,
    h: Header,
    p: Seq<u8>,
    now: i64,
    at: i64,
)
    ensures
        ({
            let t = message_step(s, h, p, now, at).0;
            t.trusted == s.trusted || {
                &&& h.typ == msg::PAIR_REQUEST
                &&& decoded::<PairRequest>(p) matches Some(token) && answer(s.tokens, token, now)
                    == LENNY_PAIR_OK
                &&& t.trusted == s.trusted.insert(s.link.peer.device_id)
            }
        }),
{
}

/// Time makes a device trusted in one way only: by the user's consent.
pub proof fn law_time_gives_trust_only_by_consent(s: SessionView, now: i64)
    ensures
        ({
            let t = tick_step(s, now).0;
            t.trusted == s.trusted || {
                &&& s.link.phase == Phase::ApprovalWait
                &&& s.approval == Approval::Accepted
                &&& t.trusted == s.trusted.insert(s.link.peer.device_id)
            }
        }),
{
}

/// A token that is no good is answered with the reason, then GOODBYE(PAIR_DENIED), and the link
/// ends; the device is not trusted for it.
pub proof fn law_refused_token_is_answered(s: SessionView, token: Seq<u8>, now: i64)
    requires
        answer(s.tokens, token, now) != LENNY_PAIR_OK,
    ensures
        ({
            let (t, step) = pair_step(s, token, now);
            &&& t == s
            &&& step.end == Some(LENNY_REASON_PAIR_DENIED)
            &&& step.effects.len() == 2
            &&& step.effects[0] == EffectView::Post(
                message_bytes::<PairResult>(
                    PairResult { result: answer(s.tokens, token, now) },
                    s.minor,
                ),
            )
            &&& step.effects[1] == goodbye(s, LENNY_REASON_PAIR_DENIED).effects[0]
        }),
{
}

/// A good token skips the prompt: it is answered with OK, the device is trusted, and the CAPS that follow are answered
/// at once.
pub proof fn law_good_token_skips_the_prompt(
    s: SessionView,
    token: Seq<u8>,
    caps: CapsView,
    now: i64,
    later_on: i64,
)
    requires
        answer(s.tokens, token, now) == LENNY_PAIR_OK,
    ensures
        ({
            let (t, step) = pair_step(s, token, now);
            let (u, next) = caps_received(t, caps, later_on);
            &&& step == go_on(
                seq![
                    EffectView::Post(
                        message_bytes::<PairResult>(PairResult { result: LENNY_PAIR_OK }, s.minor),
                    ),
                ],
            )
            &&& t.trusted.contains(s.link.peer.device_id)
            &&& u.link.phase == Phase::StreamStartWait
            &&& next.end is None
            &&& next.effects[0] == EffectView::Post(
                message_bytes::<CapsSelect>(chosen(caps, s.info.preferred), s.minor),
            )
        }),
{
}

/// An unknown device waits for the user, for as long as the prompt is shown, and gets no answer
/// until then.
pub proof fn law_unknown_device_waits_for_the_user(s: SessionView, caps: CapsView, now: i64)
    requires
        !s.trusted.contains(s.link.peer.device_id),
    ensures
        ({
            let (t, step) = caps_received(s, caps, now);
            &&& t.link.phase == Phase::ApprovalWait
            &&& t.link.phase_deadline == later(now, APPROVAL_TIMEOUT)
            &&& t.state == lenny_state::LENNY_STATE_AWAITING_APPROVAL
            &&& t.approval == Approval::Pending
            &&& step.end is None
            &&& forall|i: int|
                0 <= i < step.effects.len() ==> !((#[trigger] step.effects[i]) is Post) && !(
                step.effects[i] is Send)
            &&& step.effects.contains(
                EffectView::ApprovalNeeded(
                    s.link.peer.device_id,
                    until_nul(s.link.peer.device_name),
                ),
            )
        }),
{
    let (t, step) = caps_received(s, caps, now);
    let ask = EffectView::ApprovalNeeded(
        s.link.peer.device_id,
        until_nul(s.link.peer.device_name),
    );
    assert(step.effects[step.effects.len() - 2] == ask);
}

/// A device that the user declined, or did not answer for in time, is told GOODBYE(PAIR_DENIED).
pub proof fn law_declined_device_is_told(s: SessionView, now: i64)
    requires
        s.link.phase == Phase::ApprovalWait,
        now - s.link.last_rx <= SILENCE_LIMIT,
        s.approval == Approval::Denied || (s.approval == Approval::Pending && now
            > s.link.phase_deadline),
    ensures
        tick_step(s, now) == (s, goodbye(s, LENNY_REASON_PAIR_DENIED)),
{
    assert(Seq::<EffectView>::empty() + goodbye(s, LENNY_REASON_PAIR_DENIED).effects =~= goodbye(
        s,
        LENNY_REASON_PAIR_DENIED,
    ).effects);
}

/// A link on which nothing came in for longer than the limit is lost, whatever else is the case.
pub proof fn law_silence_ends_the_link(s: SessionView, now: i64)
    requires
        now - s.link.last_rx > SILENCE_LIMIT,
    ensures
        tick_step(s, now).0 == s,
        tick_step(s, now).1.end == Some(LENNY_REASON_LINK_LOST),
{
}

// ---- The handshake -----------------------------------------------------------------------------

/// The header of a message of this type.
pub open spec fn header_for(typ: u16, minor: u8, len: nat) -> Header {
    crate::wire::message::message_header(typ, minor, len)
}

/// A message's payload, as it is sent.
pub open spec fn payload<M: Message>(m: M::V, minor: u8) -> Seq<u8> {
    tlv_bytes(M::fields(m, minor))
}

/// What a side does with a message that the other side sent.
pub open spec fn hears<M: Message>(s: SessionView, m: M::V, minor: u8, now: i64) -> (
    SessionView,
    StepView,
) {
    let p = payload::<M>(m, minor);
    message_step(s, header_for(M::type_id(), minor, p.len()), p, now, now)
}

/// A side that can introduce itself.
pub open spec fn presentable(h: HelloView) -> bool {
    &&& h.proto_major == VERSION_MAJOR
    &&& h.proto_minor == VERSION_MINOR
    &&& h.device_id.len() == 16
}

proof fn lemma_receiver_hears_hello(rx: SessionView, h: HelloView, minor: u8, now: i64)
    requires
        rx.role == Role::Receiver,
        rx.link.phase == Phase::HelloWait,
        presentable(h),
        h.role != rx.hello.role,
    ensures
        ({
            let (rx1, heard) = hears::<Hello>(rx, h, minor, now);
            &&& heard == go_on(
                seq![EffectView::Send(message_bytes::<Hello>(rx.hello, VERSION_MINOR))],
            )
            &&& rx1.link.phase == Phase::PairOrCaps
            &&& rx1.link.peer == hello_on_wire(h)
            &&& rx1.minor == VERSION_MINOR
            &&& rx1.role == rx.role
            &&& rx1.trusted == rx.trusted
            &&& rx1.info.preferred == rx.info.preferred
        }),
{
    law_hello_round_trip(h, minor);
}

proof fn lemma_sender_hears_hello(tx: SessionView, h: HelloView, minor: u8, now: i64)
    requires
        tx.role == Role::Sender,
        tx.link.phase == Phase::HelloWait,
        tx.link.pair_token is None,
        presentable(h),
        h.role != tx.hello.role,
    ensures
        ({
            let (tx1, heard) = hears::<Hello>(tx, h, minor, now);
            &&& heard == go_on(
                seq![EffectView::Post(message_bytes::<Caps>(tx.caps, VERSION_MINOR))],
            )
            &&& tx1.link.phase == Phase::CapsWait
            &&& tx1.minor == VERSION_MINOR
            &&& tx1.role == tx.role
        }),
{
    law_hello_round_trip(h, minor);
}

proof fn lemma_receiver_hears_caps(rx: SessionView, caps: CapsView, minor: u8, now: i64)
    requires
        rx.role == Role::Receiver,
        rx.link.phase == Phase::PairOrCaps,
        rx.trusted.contains(rx.link.peer.device_id),
        caps_have_rates(caps, minor),
        forall|i: int| 0 <= i < caps.lenses.len() ==> lens_fits(#[trigger] caps.lenses[i], minor),
    ensures
        ({
            let (rx1, heard) = hears::<Caps>(rx, caps, minor, now);
            let sel = chosen(caps_on_wire(caps, minor), rx.info.preferred);
            &&& heard.effects[0] == EffectView::Post(message_bytes::<CapsSelect>(sel, rx.minor))
            &&& rx1.link.phase == Phase::StreamStartWait
            &&& rx1.info.peer_caps == caps_on_wire(caps, minor)
            &&& rx1.minor == rx.minor
            &&& rx1.role == rx.role
        }),
{
    law_caps_round_trip(caps, minor);
}

proof fn lemma_sender_hears_select(tx: SessionView, sel: lenny_stream_settings, minor: u8, now: i64)
    requires
        tx.role == Role::Sender,
        tx.link.phase == Phase::CapsWait,
        sel.mode.fps_den != 0,
    ensures
        hears::<CapsSelect>(tx, sel, minor, now) == (
            tx,
            go_on(seq![EffectView::StreamConfig(settings_on_wire(sel))]),
        ),
{
    law_settings_round_trip(sel, minor);
}

proof fn lemma_receiver_hears_start(rx: SessionView, st: lenny_stream_settings, minor: u8, now: i64)
    requires
        rx.role == Role::Receiver,
        rx.link.phase == Phase::StreamStartWait,
        st.mode.fps_den != 0,
    ensures
        ({
            let (rx1, heard) = hears::<StreamStart>(rx, st, minor, now);
            &&& rx1.streaming && rx1.state == lenny_state::LENNY_STATE_STREAMING
            &&& rx1.minor == rx.minor
            &&& rx1.info.settings == settings_on_wire(st)
            &&& rx1.info.peer_caps == rx.info.peer_caps
        }),
{
    law_settings_round_trip(st, minor);
}

/// Settings picked among modes that have frame rates have one.
proof fn lemma_picked_mode_has_a_rate(caps: CapsView, pref: lenny_stream_settings)
    requires
        modes_have_rates(caps.modes),
        caps.modes.len() > 0 || pref.mode.fps_den != 0,
    ensures
        chosen(caps, pref).mode.fps_den != 0,
{
    if caps.modes.len() > 0 {
        law_picked_mode_is_offered_and_closest(caps.modes, pref.mode);
        let best = chosen(caps, pref).mode;
        let k = choose|k: int| 0 <= k < caps.modes.len() && caps.modes[k] == best;
        assert(caps.modes[k].fps_den != 0);
    }
}

/// The handshake of a trusted phone: each side does its part with what the other one sent, and
/// both end up streaming, with the same version and the settings that the phone said it uses.
pub proof fn law_trusted_phone_gets_to_stream(
    tx: SessionView,
    rx: SessionView,
    eff: lenny_stream_settings,
    now: i64,
)
    requires
        tx.role == Role::Sender && tx.hello.role == Role::Sender.code(),
        rx.role == Role::Receiver && rx.hello.role == Role::Receiver.code(),
        presentable(tx.hello) && presentable(rx.hello),
        tx.link.phase == Phase::HelloWait && rx.link.phase == Phase::HelloWait,
        tx.link.pair_token is None,
        rx.trusted.contains(tx.hello.device_id),
        caps_have_rates(tx.caps, VERSION_MINOR),
        tx.caps.modes.len() > 0 || rx.info.preferred.mode.fps_den != 0,
        forall|i: int|
            0 <= i < tx.caps.lenses.len() ==> lens_fits(
                #[trigger] tx.caps.lenses[i],
                VERSION_MINOR,
            ),
        eff.mode.fps_den != 0,
    ensures
        ({
            let minor = VERSION_MINOR;
            let (rx1, heard1) = hears::<Hello>(rx, tx.hello, minor, now);
            let (tx1, heard2) = hears::<Hello>(tx, rx.hello, minor, now);
            let (rx2, heard3) = hears::<Caps>(rx1, tx.caps, minor, now);
            let sel = chosen(caps_on_wire(tx.caps, minor), rx.info.preferred);
            let (tx2, heard4) = hears::<CapsSelect>(tx1, sel, minor, now);
            let (tx3, done5) = configured_step(tx2, eff);
            let (tx4, done6) = started_step(tx3, eff, now);
            let (rx3, heard7) = hears::<StreamStart>(rx2, eff, minor, now);
            &&& heard1 == go_on(seq![EffectView::Send(message_bytes::<Hello>(rx.hello, minor))])
            &&& heard2 == go_on(seq![EffectView::Post(message_bytes::<Caps>(tx.caps, minor))])
            &&& heard3.effects[0] == EffectView::Post(message_bytes::<CapsSelect>(sel, minor))
            &&& heard4 == go_on(seq![EffectView::StreamConfig(settings_on_wire(sel))])
            &&& done5 == go_on(seq![EffectView::Send(message_bytes::<StreamStart>(eff, minor))])
            &&& done6.effects.last() == EffectView::KeyframeRequest
            &&& tx4.streaming && tx4.state == lenny_state::LENNY_STATE_STREAMING
            &&& rx3.streaming && rx3.state == lenny_state::LENNY_STATE_STREAMING
            &&& tx4.minor == minor && rx3.minor == minor
            &&& tx4.info.settings == eff
            &&& rx3.info.settings == settings_on_wire(eff)
            &&& rx3.info.peer_caps == caps_on_wire(tx.caps, minor)
        }),
{
    let minor = VERSION_MINOR;
    lemma_receiver_hears_hello(rx, tx.hello, minor, now);
    lemma_sender_hears_hello(tx, rx.hello, minor, now);
    let (rx1, heard1) = hears::<Hello>(rx, tx.hello, minor, now);
    let (tx1, heard2) = hears::<Hello>(tx, rx.hello, minor, now);
    lemma_receiver_hears_caps(rx1, tx.caps, minor, now);
    let (rx2, heard3) = hears::<Caps>(rx1, tx.caps, minor, now);
    let sel = chosen(caps_on_wire(tx.caps, minor), rx.info.preferred);
    lemma_picked_mode_has_a_rate(caps_on_wire(tx.caps, minor), rx.info.preferred);
    lemma_sender_hears_select(tx1, sel, minor, now);
    lemma_receiver_hears_start(rx2, eff, minor, now);
}

// ---- The stream --------------------------------------------------------------------------------

/// A frame that the encoder handed over arrives as it was sent: the receiver finds its message whole, whatever follows,
/// and hands out the same picture, with its time, its number, its flags and the turn that it needs.
pub proof fn law_a_sent_frame_arrives(
    rx: SessionView,
    minor: u8,
    seq_no: u32,
    data: Seq<u8>,
    pts_us: i64,
    orientation: u8,
    flags: u8,
    rest: Seq<u8>,
    now: i64,
    at: i64,
)
    requires
        rx.role == Role::Receiver,
        rx.link.phase == Phase::Streaming,
        data.len() <= MAX_FRAME,
    ensures
        ({
            let bytes = frame_item(minor, seq_no, data, pts_us, orientation, flags).msg + rest;
            &&& after_front(bytes) == rest
            &&& front(bytes) matches Front::Message(h, p) && message_step(rx, h, p, now, at).1 == go_on(
                seq![
                    EffectView::VideoFrame(
                        FrameView {
                            frame_seq: seq_no,
                            pts_us,
                            local_pts_us: local_pts(rx, pts_us),
                            orientation: (orientation % 4) as u8,
                            flags,
                            data,
                        },
                    ),
                ],
            )
        }),
{
    let m = VideoFrameMeta { frame_seq: seq_no, pts_us, orientation: (orientation % 4) as u8, flags };
    let h = Header {
        ver_major: VERSION_MAJOR,
        ver_minor: minor,
        typ: msg::VIDEO_FRAME,
        flags: 0,
        length: (VIDEO_FRAME_META_SIZE + data.len()) as u32,
    };
    let p = meta_bytes(m) + data;
    lemma_meta_len(m);
    law_video_frame_round_trip(m, data);
    law_message_reads_back(h, p, rest);
    assert(frame_bytes(minor, m, data) + rest =~= header_bytes(h) + p + rest);
}

/// A control reaches the phone's camera as its form on the wire can carry it, a plain one as it was sent, and what came
/// of it gets back to the desktop with the number of the request.
pub proof fn law_a_control_is_answered(
    tx: SessionView,
    rx: SessionView,
    c: lenny_control,
    result: u8,
    minor: u8,
    now: i64,
)
    requires
        tx.role == Role::Sender && tx.link.phase == Phase::Streaming,
        rx.role == Role::Receiver && rx.link.phase == Phase::Streaming,
        control_on_wire(c, minor) is Some,
    ensures
        hears::<Control>(tx, c, minor, now) == (tx, go_on(seq![EffectView::Control(control_on_wire(c, minor)->0)])),
        control_is_plain(c) && !is_newer(c, minor) ==> control_on_wire(c, minor) == Some(c),
        ({
            let (rx1, heard) = hears::<ControlAck>(rx, ControlAck { req_id: c.req_id, result }, minor, now);
            &&& rx1 == rx
            &&& heard.end is None
            &&& heard.effects[0] == EffectView::ControlAck(c.req_id, result)
        }),
{
    law_control_round_trip(c, minor);
    law_control_ack_round_trip(ControlAck { req_id: c.req_id, result }, minor);
}

/// What the phone says of its camera is what the desktop knows of it then. A phone that does not say where it pans is
/// taken to be centred.
pub proof fn law_the_camera_state_arrives(rx: SessionView, cs: lenny_control_state, minor: u8, now: i64)
    requires
        rx.role == Role::Receiver,
        rx.link.phase == Phase::Streaming,
    ensures
        ({
            let (rx1, heard) = hears::<ControlState>(rx, ControlState(cs), minor, now);
            let pan = if minor >= 1 {
                (cs.pan_x, cs.pan_y)
            } else {
                (PAN_CENTER, PAN_CENTER)
            };
            let known = lenny_control_state { pan_x: pan.0, pan_y: pan.1, ..cs };
            &&& rx1.info.has_control_state
            &&& rx1.info.control_state == known
            &&& heard.end is None
            &&& heard.effects[0] == EffectView::ControlState(known)
        }),
{
    law_control_state_round_trip(ControlState(cs), minor);
}

} // verus!
