//! One connection, from the first byte to the last: handshake, pairing, negotiation, keepalive.
//!
//! Each function takes what happened and says what to do about it. The program around the session
//! does it, and calls again with what came of it.
use vstd::prelude::*;
use crate::abi::{
    LENNY_PAIR_OK, LENNY_REASON_BUSY, LENNY_REASON_LINK_LOST, LENNY_REASON_PAIR_DENIED,
    LENNY_REASON_PROTOCOL_ERROR, LENNY_REASON_ROLE, LENNY_REASON_TIMEOUT, LENNY_REASON_VERSION, lenny_event,
    lenny_state, lenny_stats, lenny_stream_settings, lenny_video_frame,
};
use crate::bytes::copy;
use crate::le::unwrap_signed;
use crate::pairing::{after_redeem, answer};
use crate::session::api::{add_u64, count_u32, count_u64, next_u32, next_u64, sum_u64};
use crate::session::effect::{Effect, EffectView, FrameView, Step, StepView, effects_view, go_on, nothing};
use crate::session::negotiate::{choose_settings, chosen};
use crate::session::peer::{
    c_string, peer_from_hello, peer_learns_caps, peer_of_hello, peer_with_caps, until_nul,
};
use crate::session::queue::{emptied, retargeted};
use crate::session::state::{Approval, InfoView, LinkView, Phase, Role, Session, SessionView, no_hello};
use crate::timing::{ClockSync, SEC, best_sample, div_to_zero, later, more_than, time_later, with_sample};
use crate::wire::caps::Caps;
use crate::wire::control::{CapsSelect, Control, StreamStart, low_byte};
use crate::wire::frame::{
    Front, Header, MessageReader, Status, VERSION_MAJOR, VERSION_MINOR, after_front, front,
};
use crate::wire::message::{Message, decoded, message_bytes, to_message};
use crate::wire::msg;
use crate::wire::simple::{
    ControlAck, ControlState, Goodbye, GoodbyeView, Hello, PairRequest, PairResult, Ping, Pong,
    StreamStatus, VideoConfig,
};
use crate::wire::video::{VIDEO_FRAME_META_SIZE, decode_video_meta, meta_of};

verus! {

pub const HELLO_TIMEOUT: i64 = 5 * SEC;

pub const PAIR_TIMEOUT: i64 = 30 * SEC;

pub const CAPS_TIMEOUT: i64 = 5 * SEC;

pub const APPROVAL_TIMEOUT: i64 = 30 * SEC;

/// A sender waits for CAPS_SELECT while the receiver's user may be looking at the approve prompt.
pub const SENDER_CAPS_TIMEOUT: i64 = 35 * SEC;

pub const PING_INTERVAL: i64 = SEC;

pub const SILENCE_LIMIT: i64 = 3 * SEC;

// ---- Parts of steps ----------------------------------------------------------------------------

/// Say goodbye and end the link.
pub open spec fn goodbye(s: SessionView, reason: i32) -> StepView {
    StepView {
        effects: seq![
            EffectView::Goodbye(
                message_bytes::<Goodbye>(
                    GoodbyeView { reason: reason as u16, detail: Seq::empty() },
                    s.minor,
                ),
            ),
        ],
        end: Some(reason),
    }
}

/// End the link without a word.
pub open spec fn hang_up(reason: i32) -> StepView {
    StepView { effects: Seq::empty(), end: Some(reason) }
}

/// `first`, and after it `step`.
pub open spec fn after(first: Seq<EffectView>, step: StepView) -> StepView {
    StepView { effects: first + step.effects, ..step }
}

pub open spec fn with_phase(s: SessionView, phase: Phase, now: i64, timeout: i64) -> SessionView {
    SessionView {
        link: LinkView { phase, phase_deadline: later(now, timeout), ..s.link },
        ..s
    }
}

pub open spec fn with_state(s: SessionView, state: lenny_state, reason: i32) -> SessionView {
    SessionView { state, last_reason: reason, ..s }
}

/// A state is told only when it, or the reason for it, is a new one.
pub open spec fn state_effects(s: SessionView, state: lenny_state, reason: i32) -> Seq<EffectView> {
    if s.state == state && s.last_reason == reason {
        Seq::empty()
    } else {
        seq![
            EffectView::State(state, reason),
            EffectView::Event(lenny_event::LENNY_EVENT_STATE, state.code(), reason),
        ]
    }
}

/// A message that cannot be read is ignored, and counted.
pub open spec fn ignored(s: SessionView) -> SessionView {
    SessionView {
        stats: lenny_stats { bad_messages: next_u32(s.stats.bad_messages), ..s.stats },
        ..s
    }
}

/// The sender tells what it can do, and waits for the receiver's choice.
pub open spec fn caps_step(s: SessionView, now: i64) -> (SessionView, StepView) {
    (
        with_phase(s, Phase::CapsWait, now, SENDER_CAPS_TIMEOUT),
        go_on(seq![EffectView::Post(message_bytes::<Caps>(s.caps, s.minor))]),
    )
}

/// The receiver makes its choice, and waits for the stream to start.
pub open spec fn select_step(s: SessionView, now: i64) -> (SessionView, Seq<EffectView>) {
    (
        with_state(
            with_phase(s, Phase::StreamStartWait, now, CAPS_TIMEOUT),
            lenny_state::LENNY_STATE_HANDSHAKE,
            0,
        ),
        seq![
            EffectView::Post(
                message_bytes::<CapsSelect>(chosen(s.info.peer_caps, s.info.preferred), s.minor),
            ),
        ] + state_effects(s, lenny_state::LENNY_STATE_HANDSHAKE, 0),
    )
}

// ---- Messages ----------------------------------------------------------------------------------

pub open spec fn min_u8(a: u8, b: u8) -> u8 {
    if a < b {
        a
    } else {
        b
    }
}

/// What a session knows once the other side has introduced itself.
pub open spec fn introduced(
    s: SessionView,
    h: crate::wire::simple::HelloView,
    now: i64,
) -> SessionView {
    SessionView {
        info: InfoView {
            peer_info: peer_of_hello(h),
            has_peer: true,
            has_caps: false,
            ..s.info
        },
        minor: min_u8(VERSION_MINOR, h.proto_minor),
        link: LinkView { peer: h, next_ping: later(now, PING_INTERVAL), ..s.link },
        ..s
    }
}

/// HELLO: only the first one counts. Major versions must agree and roles must differ.
pub open spec fn hello_step(s: SessionView, p: Seq<u8>, now: i64) -> (SessionView, StepView) {
    if s.link.phase != Phase::HelloWait {
        (s, nothing())
    } else {
        match decoded::<Hello>(p) {
            None => (s, goodbye(s, LENNY_REASON_PROTOCOL_ERROR)),
            Some(h) => if h.proto_major != VERSION_MAJOR {
                (s, goodbye(s, LENNY_REASON_VERSION))
            } else if h.role == s.hello.role {
                (s, goodbye(s, LENNY_REASON_ROLE))
            } else {
                let t = introduced(s, h, now);
                match (s.role, s.link.pair_token) {
                    (Role::Receiver, _) => (
                        with_phase(t, Phase::PairOrCaps, now, CAPS_TIMEOUT),
                        go_on(seq![EffectView::Send(message_bytes::<Hello>(t.hello, t.minor))]),
                    ),
                    (Role::Sender, Some(token)) => (
                        with_phase(t, Phase::PairWait, now, PAIR_TIMEOUT),
                        go_on(
                            seq![EffectView::Post(message_bytes::<PairRequest>(token, t.minor))],
                        ),
                    ),
                    (Role::Sender, None) => caps_step(t, now),
                }
            },
        }
    }
}

/// What only a sender is told.
pub open spec fn sender_step(s: SessionView, typ: u16, p: Seq<u8>, now: i64) -> (
    SessionView,
    StepView,
) {
    if typ == msg::PAIR_RESULT && s.link.phase == Phase::PairWait {
        match decoded::<PairResult>(p) {
            None => (ignored(s), nothing()),
            Some(r) => if r.result != LENNY_PAIR_OK {
                (s, hang_up(LENNY_REASON_PAIR_DENIED))
            } else {
                caps_step(
                    SessionView { link: LinkView { pair_token: None, ..s.link }, ..s },
                    now,
                )
            },
        }
    } else if typ == msg::CAPS_SELECT && (s.link.phase == Phase::CapsWait || s.link.phase
        == Phase::Streaming) {
        match decoded::<CapsSelect>(p) {
            None => (ignored(s), nothing()),
            Some(sel) => (s, go_on(seq![EffectView::StreamConfig(sel)])),
        }
    } else if typ == msg::CONTROL && s.link.phase == Phase::Streaming {
        match decoded::<Control>(p) {
            None => (ignored(s), nothing()),
            Some(c) => (s, go_on(seq![EffectView::Control(c)])),
        }
    } else {
        (s, nothing())
    }
}

/// PAIR_REQUEST: a token that is good makes the device a trusted one. Any other is answered, and
/// the link ended.
pub open spec fn pair_step(s: SessionView, token: Seq<u8>, now: i64) -> (SessionView, StepView) {
    let result = answer(s.tokens, token, now);
    let t = SessionView { tokens: after_redeem(s.tokens, token, now), ..s };
    let reply = seq![EffectView::Post(message_bytes::<PairResult>(PairResult { result }, s.minor))];
    if result != LENNY_PAIR_OK {
        (t, after(reply, goodbye(s, LENNY_REASON_PAIR_DENIED)))
    } else {
        (
            with_phase(
                SessionView { trusted: s.trusted.insert(s.link.peer.device_id), ..t },
                Phase::PairOrCaps,
                now,
                CAPS_TIMEOUT,
            ),
            go_on(reply),
        )
    }
}

/// CAPS: a trusted device gets an answer; for another one the user is asked first.
pub open spec fn caps_received(
    s: SessionView,
    caps: crate::wire::caps::CapsView,
    now: i64,
) -> (SessionView, StepView) {
    let t = SessionView {
        info: InfoView {
            peer_info: peer_with_caps(s.info.peer_info, caps),
            peer_caps: caps,
            has_caps: true,
            ..s.info
        },
        ..s
    };
    if s.trusted.contains(s.link.peer.device_id) {
        let (u, effects) = select_step(t, now);
        (u, go_on(effects))
    } else {
        (
            with_state(
                with_phase(
                    SessionView { approval: Approval::Pending, ..t },
                    Phase::ApprovalWait,
                    now,
                    APPROVAL_TIMEOUT,
                ),
                lenny_state::LENNY_STATE_AWAITING_APPROVAL,
                0,
            ),
            go_on(
                state_effects(s, lenny_state::LENNY_STATE_AWAITING_APPROVAL, 0) + seq![
                    EffectView::ApprovalNeeded(
                        s.link.peer.device_id,
                        until_nul(s.link.peer.device_name),
                    ),
                    EffectView::Event(lenny_event::LENNY_EVENT_APPROVAL_NEEDED, 0, 0),
                ],
            ),
        )
    }
}

/// STREAM_START: the stream runs, with these settings.
pub open spec fn start_received(s: SessionView, st: lenny_stream_settings, now: i64) -> (
    SessionView,
    StepView,
) {
    let told = seq![
        EffectView::StreamStart(st),
        EffectView::Event(lenny_event::LENNY_EVENT_STREAM_START, 0, 0),
    ];
    let info = InfoView { settings: st, has_settings: true, ..s.info };
    if s.link.phase != Phase::Streaming {
        (
            with_state(
                with_phase(
                    SessionView { streaming: true, info, ..s },
                    Phase::Streaming,
                    now,
                    0,
                ),
                lenny_state::LENNY_STATE_STREAMING,
                0,
            ),
            go_on(state_effects(s, lenny_state::LENNY_STATE_STREAMING, 0) + told),
        )
    } else {
        (SessionView { info, ..s }, go_on(told))
    }
}

/// The 64-bit number that shares its low bits with `x`.
pub open spec fn wrapped(x: int) -> i64 {
    unwrap_signed((x % 0x1_0000_0000_0000_0000) as nat, 0x1_0000_0000_0000_0000) as i64
}

/// The capture time of a frame by our clock; 0 while the clocks are not known.
pub open spec fn local_pts(s: SessionView, pts_us: i64) -> i64 {
    if s.clock.len() > 0 {
        wrapped(pts_us - best_sample(s.clock).offset_us)
    } else {
        0
    }
}

/// The latency after a frame that was captured at `local` by our clock: a slow average over the
/// times from capture to arrival.
pub open spec fn averaged(latency: i64, local: i64, now: i64) -> i64 {
    let age = wrapped(now - local);
    if latency < 0 {
        age
    } else {
        div_to_zero(wrapped(latency * 7 + age) as int, 8) as i64
    }
}

/// VIDEO_FRAME.
pub open spec fn frame_received(s: SessionView, p: Seq<u8>, now: i64) -> (SessionView, StepView) {
    let m = meta_of(p);
    let data = p.skip(VIDEO_FRAME_META_SIZE as int);
    let local = local_pts(s, m.pts_us);
    (
        SessionView {
            stats: lenny_stats {
                latency_us: if s.clock.len() > 0 {
                    averaged(s.stats.latency_us, local, now)
                } else {
                    s.stats.latency_us
                },
                frames: next_u64(s.stats.frames),
                bytes: sum_u64(s.stats.bytes, data.len() as u64),
                ..s.stats
            },
            ..s
        },
        go_on(
            seq![
                EffectView::VideoFrame(
                    FrameView {
                        frame_seq: m.frame_seq,
                        pts_us: m.pts_us,
                        local_pts_us: local,
                        orientation: m.orientation,
                        flags: m.flags,
                        data,
                    },
                ),
            ],
        ),
    )
}

/// What only a receiver is told, on a running stream.
pub open spec fn stream_step(s: SessionView, typ: u16, p: Seq<u8>, now: i64) -> (
    SessionView,
    StepView,
) {
    if typ == msg::VIDEO_CONFIG {
        match decoded::<VideoConfig>(p) {
            None => (ignored(s), nothing()),
            Some(vc) => (s, go_on(seq![EffectView::VideoConfig(vc.config)])),
        }
    } else if typ == msg::VIDEO_FRAME {
        if p.len() < VIDEO_FRAME_META_SIZE {
            (ignored(s), nothing())
        } else {
            frame_received(s, p, now)
        }
    } else if typ == msg::CONTROL_STATE {
        match decoded::<ControlState>(p) {
            None => (ignored(s), nothing()),
            Some(cs) => (
                SessionView {
                    info: InfoView { control_state: cs.0, has_control_state: true, ..s.info },
                    ..s
                },
                go_on(
                    seq![
                        EffectView::ControlState(cs.0),
                        EffectView::Event(lenny_event::LENNY_EVENT_CONTROL_STATE, 0, 0),
                    ],
                ),
            ),
        }
    } else if typ == msg::CONTROL_ACK {
        match decoded::<ControlAck>(p) {
            None => (ignored(s), nothing()),
            Some(a) => (
                s,
                go_on(
                    seq![
                        EffectView::ControlAck(a.req_id, a.result),
                        EffectView::Event(
                            lenny_event::LENNY_EVENT_CONTROL_ACK,
                            unwrap_signed(a.req_id as nat, 0x1_0000_0000) as i32,
                            a.result as i32,
                        ),
                    ],
                ),
            ),
        }
    } else if typ == msg::STREAM_STATUS {
        match decoded::<StreamStatus>(p) {
            None => (ignored(s), nothing()),
            Some(st) => (
                s,
                go_on(
                    seq![
                        EffectView::StreamStatus(st.state, until_nul(st.reason)),
                        EffectView::Event(
                            lenny_event::LENNY_EVENT_STREAM_STATUS,
                            st.state as i32,
                            0,
                        ),
                    ],
                ),
            ),
        }
    } else {
        (s, nothing())
    }
}

/// What only a receiver is told.
pub open spec fn receiver_step(s: SessionView, typ: u16, p: Seq<u8>, now: i64) -> (
    SessionView,
    StepView,
) {
    if typ == msg::PAIR_REQUEST && s.link.phase == Phase::PairOrCaps {
        match decoded::<PairRequest>(p) {
            None => (ignored(s), nothing()),
            Some(token) => pair_step(s, token, now),
        }
    } else if typ == msg::CAPS && s.link.phase == Phase::PairOrCaps {
        match decoded::<Caps>(p) {
            None => (ignored(s), nothing()),
            Some(caps) => caps_received(s, caps, now),
        }
    } else if typ == msg::STREAM_START && (s.link.phase == Phase::StreamStartWait || s.link.phase
        == Phase::Streaming) {
        match decoded::<StreamStart>(p) {
            None => (ignored(s), nothing()),
            Some(st) => start_received(s, st, now),
        }
    } else if s.link.phase == Phase::Streaming {
        stream_step(s, typ, p, now)
    } else {
        (s, nothing())
    }
}

/// A message, received at `now` and answered at `at`. Unknown types are skipped, and before HELLO
/// nothing but HELLO and GOODBYE counts.
pub open spec fn message_step(s: SessionView, h: Header, p: Seq<u8>, now: i64, at: i64) -> (
    SessionView,
    StepView,
) {
    if h.ver_major != VERSION_MAJOR {
        (s, goodbye(s, LENNY_REASON_VERSION))
    } else if h.typ == msg::HELLO {
        hello_step(s, p, now)
    } else if h.typ == msg::GOODBYE {
        match decoded::<Goodbye>(p) {
            None => (ignored(s), nothing()),
            Some(g) => (s, hang_up(g.reason as i32)),
        }
    } else if s.link.phase == Phase::HelloWait {
        (s, nothing())
    } else if h.typ == msg::PING {
        match decoded::<Ping>(p) {
            None => (ignored(s), nothing()),
            Some(ping) => (
                s,
                go_on(
                    seq![
                        EffectView::Send(
                            message_bytes::<Pong>(
                                Pong { seq: ping.seq, t1: ping.t1, t2: now, t3: at },
                                s.minor,
                            ),
                        ),
                    ],
                ),
            ),
        }
    } else if h.typ == msg::PONG {
        match decoded::<Pong>(p) {
            None => (ignored(s), nothing()),
            Some(pong) => (
                SessionView {
                    clock: with_sample(s.clock, pong.t1, pong.t2, pong.t3, now),
                    ..s
                },
                nothing(),
            ),
        }
    } else if s.role == Role::Sender {
        sender_step(s, h.typ, p, now)
    } else {
        receiver_step(s, h.typ, p, now)
    }
}

impl Session {
    /// Reports a state, if it is a new one.
    fn enter_state(&mut self, state: lenny_state, reason: i32, step: &mut Step)
        requires
            old(self).wf(),
        ensures
            final(self).wf(),
            final(self)@ == with_state(old(self)@, state, reason),
            final(step)@ == (StepView {
                effects: old(step)@.effects + state_effects(old(self)@, state, reason),
                ..old(step)@
            }),
    {
        let told = self.state == state && self.last_reason == reason;
        self.state = state;
        self.last_reason = reason;
        if !told {
            step.push(Effect::State(state, reason));
            step.push(Effect::Event(lenny_event::LENNY_EVENT_STATE, state.code(), reason));
        }
        assert(step@.effects =~= old(step)@.effects + state_effects(old(self)@, state, reason));
    }

    /// The session's state outside a link.
    pub fn set_state(&mut self, state: lenny_state, reason: i32) -> (r: Vec<Effect>)
        requires
            old(self).wf(),
        ensures
            final(self).wf(),
            final(self)@ == with_state(old(self)@, state, reason),
            effects_view(r@) == state_effects(old(self)@, state, reason),
    {
        let mut step = Step::nothing();
        self.enter_state(state, reason, &mut step);
        assert(step@.effects =~= state_effects(old(self)@, state, reason));
        step.effects
    }

    fn enter(&mut self, phase: Phase, now: i64, timeout: i64)
        requires
            old(self).wf(),
        ensures
            final(self).wf(),
            final(self)@ == with_phase(old(self)@, phase, now, timeout),
    {
        self.link.phase = phase;
        self.link.phase_deadline = time_later(now, timeout);
    }

    fn goodbye(&self, reason: i32) -> (r: Step)
        requires
            0 <= reason < 65536,
        ensures
            r@ == goodbye(self@, reason),
    {
        let m = Goodbye { reason: reason as u16, detail: Vec::new() };
        assert(m@ =~= (GoodbyeView { reason: reason as u16, detail: Seq::empty() }));
        let mut r = Step::end(reason);
        r.push(Effect::Goodbye(to_message(&m, self.minor)));
        assert(r@.effects =~= goodbye(self@, reason).effects);
        r
    }

    fn ignore(&mut self) -> (r: Step)
        requires
            old(self).wf(),
        ensures
            final(self).wf(),
            final(self)@ == ignored(old(self)@),
            r@ == nothing(),
    {
        self.stats.bad_messages = count_u32(self.stats.bad_messages);
        Step::nothing()
    }

    fn send_caps(&mut self, now: i64) -> (r: Step)
        requires
            old(self).wf(),
        ensures
            final(self).wf(),
            (final(self)@, r@) == caps_step(old(self)@, now),
    {
        let mut r = Step::nothing();
        r.push(Effect::Post(to_message(&self.caps, self.minor)));
        assert(r@.effects =~= caps_step(old(self)@, now).1.effects);
        self.enter(Phase::CapsWait, now, SENDER_CAPS_TIMEOUT);
        r
    }

    fn on_caps_complete(&mut self, now: i64, step: &mut Step)
        requires
            old(self).wf(),
        ensures
            final(self).wf(),
            final(self)@ == select_step(old(self)@, now).0,
            final(step)@ == (StepView {
                effects: old(step)@.effects + select_step(old(self)@, now).1,
                ..old(step)@
            }),
    {
        let sel = choose_settings(&self.info.peer_caps, self.info.preferred);
        step.push(Effect::Post(to_message(&CapsSelect(sel), self.minor)));
        self.enter(Phase::StreamStartWait, now, CAPS_TIMEOUT);
        self.enter_state(lenny_state::LENNY_STATE_HANDSHAKE, 0, step);
        assert(step@.effects =~= old(step)@.effects + select_step(old(self)@, now).1);
    }

    fn on_hello(&mut self, p: &[u8], now: i64) -> (r: Step)
        requires
            old(self).wf(),
        ensures
            final(self).wf(),
            (final(self)@, r@) == hello_step(old(self)@, p@, now),
    {
        if self.link.phase != Phase::HelloWait {
            return Step::nothing();
        }
        let h = match <Hello as Message>::decode(p) {
            Some(h) => h,
            None => {
                return self.goodbye(LENNY_REASON_PROTOCOL_ERROR);
            },
        };
        if h.proto_major != VERSION_MAJOR {
            return self.goodbye(LENNY_REASON_VERSION);
        }
        if h.role == self.hello.role {
            return self.goodbye(LENNY_REASON_ROLE);
        }
        self.info.peer_info = peer_from_hello(&h);
        self.info.has_peer = true;
        self.info.has_caps = false;
        self.minor = if VERSION_MINOR < h.proto_minor {
            VERSION_MINOR
        } else {
            h.proto_minor
        };
        self.link.peer = h;
        self.link.next_ping = time_later(now, PING_INTERVAL);
        assert(self@ =~= introduced(old(self)@, decoded::<Hello>(p@)->0, now));
        if self.role == Role::Receiver {
            let mut r = Step::nothing();
            r.push(Effect::Send(to_message(&self.hello, self.minor)));
            self.enter(Phase::PairOrCaps, now, CAPS_TIMEOUT);
            assert(r@.effects =~= hello_step(old(self)@, p@, now).1.effects);
            return r;
        }
        match self.link.pair_token {
            Some(token) => {
                let mut r = Step::nothing();
                r.push(Effect::Post(to_message(&PairRequest { token }, self.minor)));
                self.enter(Phase::PairWait, now, PAIR_TIMEOUT);
                assert(r@.effects =~= hello_step(old(self)@, p@, now).1.effects);
                r
            },
            None => self.send_caps(now),
        }
    }
}

/// The 64-bit number that shares its low bits with `x`.
fn wrap_i64(x: i128) -> (r: i64)
    requires
        -0x10_0000_0000_0000_0000 <= x <= 0x10_0000_0000_0000_0000,
    ensures
        r == wrapped(x as int),
{
    let up: i128 = x + 0x100_0000_0000_0000_0000;
    let low: u128 = up as u128 % 0x1_0000_0000_0000_0000;
    if low >= 0x8000_0000_0000_0000 {
        (low as i128 - 0x1_0000_0000_0000_0000) as i64
    } else {
        low as i64
    }
}

/// `x / 8`, rounded towards zero.
fn eighth(x: i64) -> (r: i64)
    ensures
        r == div_to_zero(x as int, 8),
{
    if x >= 0 {
        x / 8
    } else {
        let y: i128 = -(x as i128);
        (-(y / 8)) as i64
    }
}

impl Session {
    fn dispatch_sender(&mut self, typ: u16, p: &[u8], now: i64) -> (r: Step)
        requires
            old(self).wf(),
        ensures
            final(self).wf(),
            (final(self)@, r@) == sender_step(old(self)@, typ, p@, now),
    {
        if typ == msg::PAIR_RESULT && self.link.phase == Phase::PairWait {
            match <PairResult as Message>::decode(p) {
                None => self.ignore(),
                Some(r) => {
                    if r.result != LENNY_PAIR_OK {
                        return Step::end(LENNY_REASON_PAIR_DENIED);
                    }
                    // Single-use; the receiver now trusts our device id.
                    self.link.pair_token = None;
                    self.send_caps(now)
                },
            }
        } else if typ == msg::CAPS_SELECT && (self.link.phase == Phase::CapsWait
            || self.link.phase == Phase::Streaming) {
            match <CapsSelect as Message>::decode(p) {
                None => self.ignore(),
                Some(sel) => {
                    let mut r = Step::nothing();
                    r.push(Effect::StreamConfig(sel.0));
                    assert(r@.effects =~= sender_step(old(self)@, typ, p@, now).1.effects);
                    r
                },
            }
        } else if typ == msg::CONTROL && self.link.phase == Phase::Streaming {
            match <Control as Message>::decode(p) {
                None => self.ignore(),
                Some(c) => {
                    let mut r = Step::nothing();
                    r.push(Effect::Control(c.0));
                    assert(r@.effects =~= sender_step(old(self)@, typ, p@, now).1.effects);
                    r
                },
            }
        } else {
            Step::nothing()
        }
    }

    fn on_pair_request(&mut self, m: &PairRequest, now: i64) -> (r: Step)
        requires
            old(self).wf(),
        ensures
            final(self).wf(),
            (final(self)@, r@) == pair_step(old(self)@, m@, now),
    {
        let result: u8 = self.tokens.redeem(&m.token, now);
        let reply = to_message(&PairResult { result }, self.minor);
        if result != LENNY_PAIR_OK {
            let bye = Goodbye { reason: LENNY_REASON_PAIR_DENIED as u16, detail: Vec::new() };
            assert(bye@ =~= (GoodbyeView {
                reason: LENNY_REASON_PAIR_DENIED as u16,
                detail: Seq::empty(),
            }));
            let mut r = Step::end(LENNY_REASON_PAIR_DENIED);
            r.push(Effect::Post(reply));
            r.push(Effect::Goodbye(to_message(&bye, self.minor)));
            assert(r@.effects =~= pair_step(old(self)@, m@, now).1.effects);
            return r;
        }
        let id = self.link.peer.device_id;
        self.trust(&id);
        self.enter(Phase::PairOrCaps, now, CAPS_TIMEOUT);
        let mut r = Step::nothing();
        r.push(Effect::Post(reply));
        assert(r@.effects =~= pair_step(old(self)@, m@, now).1.effects);
        r
    }

    fn on_caps(&mut self, caps: Caps, now: i64) -> (r: Step)
        requires
            old(self).wf(),
        ensures
            final(self).wf(),
            (final(self)@, r@) == caps_received(old(self)@, caps@, now),
    {
        let ghost view = caps@;
        peer_learns_caps(&mut self.info.peer_info, &caps);
        self.info.peer_caps = caps;
        self.info.has_caps = true;
        let mut r = Step::nothing();
        let id = self.link.peer.device_id;
        if self.is_trusted(&id) {
            self.on_caps_complete(now, &mut r);
            assert(r@.effects =~= caps_received(old(self)@, view, now).1.effects);
            return r;
        }
        self.approval = Approval::Pending;
        self.enter(Phase::ApprovalWait, now, APPROVAL_TIMEOUT);
        self.enter_state(lenny_state::LENNY_STATE_AWAITING_APPROVAL, 0, &mut r);
        let name = c_string(self.link.peer.device_name.as_slice());
        r.push(Effect::ApprovalNeeded(id, name));
        r.push(Effect::Event(lenny_event::LENNY_EVENT_APPROVAL_NEEDED, 0, 0));
        assert(r@.effects =~= caps_received(old(self)@, view, now).1.effects);
        r
    }

    fn on_stream_start(&mut self, st: lenny_stream_settings, now: i64) -> (r: Step)
        requires
            old(self).wf(),
        ensures
            final(self).wf(),
            (final(self)@, r@) == start_received(old(self)@, st, now),
    {
        let mut r = Step::nothing();
        if self.link.phase != Phase::Streaming {
            self.enter(Phase::Streaming, now, 0);
            self.streaming = true;
            self.enter_state(lenny_state::LENNY_STATE_STREAMING, 0, &mut r);
        }
        self.info.settings = st;
        self.info.has_settings = true;
        r.push(Effect::StreamStart(st));
        r.push(Effect::Event(lenny_event::LENNY_EVENT_STREAM_START, 0, 0));
        assert(r@.effects =~= start_received(old(self)@, st, now).1.effects);
        r
    }

    fn on_video_frame(&mut self, p: &[u8], now: i64) -> (r: Step)
        requires
            old(self).wf(),
        ensures
            final(self).wf(),
            (final(self)@, r@) == (if p@.len() < VIDEO_FRAME_META_SIZE {
                (ignored(old(self)@), nothing())
            } else {
                frame_received(old(self)@, p@, now)
            }),
    {
        let (m, data) = match decode_video_meta(p) {
            Some(x) => x,
            None => {
                return self.ignore();
            },
        };
        let mut local: i64 = 0;
        if self.clock.valid() {
            local = wrap_i64(m.pts_us as i128 - self.clock.offset_us() as i128);
            let age: i64 = wrap_i64(now as i128 - local as i128);
            let latency: i64 = self.stats.latency_us;
            self.stats.latency_us = if latency < 0 {
                age
            } else {
                eighth(wrap_i64(latency as i128 * 7 + age as i128))
            };
        }
        self.stats.frames = count_u64(self.stats.frames);
        self.stats.bytes = add_u64(self.stats.bytes, data.len() as u64);
        let f = lenny_video_frame {
            frame_seq: m.frame_seq,
            pts_us: m.pts_us,
            local_pts_us: local,
            orientation: m.orientation,
            flags: m.flags,
            data: copy(data),
        };
        let mut r = Step::nothing();
        r.push(Effect::VideoFrame(f));
        assert(r@.effects =~= frame_received(old(self)@, p@, now).1.effects);
        r
    }

    #[verifier::spinoff_prover]
    fn dispatch_stream(&mut self, typ: u16, p: &[u8], now: i64) -> (r: Step)
        requires
            old(self).wf(),
        ensures
            final(self).wf(),
            (final(self)@, r@) == stream_step(old(self)@, typ, p@, now),
    {
        if typ == msg::VIDEO_CONFIG {
            match <VideoConfig as Message>::decode(p) {
                None => self.ignore(),
                Some(vc) => {
                    let mut r = Step::nothing();
                    r.push(Effect::VideoConfig(vc.config));
                    assert(r@.effects =~= stream_step(old(self)@, typ, p@, now).1.effects);
                    r
                },
            }
        } else if typ == msg::VIDEO_FRAME {
            self.on_video_frame(p, now)
        } else if typ == msg::CONTROL_STATE {
            match <ControlState as Message>::decode(p) {
                None => self.ignore(),
                Some(cs) => {
                    self.info.control_state = cs.0;
                    self.info.has_control_state = true;
                    let mut r = Step::nothing();
                    r.push(Effect::ControlState(cs.0));
                    r.push(Effect::Event(lenny_event::LENNY_EVENT_CONTROL_STATE, 0, 0));
                    assert(r@.effects =~= stream_step(old(self)@, typ, p@, now).1.effects);
                    r
                },
            }
        } else if typ == msg::CONTROL_ACK {
            match <ControlAck as Message>::decode(p) {
                None => self.ignore(),
                Some(a) => {
                    let id: i32 = if a.req_id >= 0x8000_0000 {
                        (a.req_id as i64 - 0x1_0000_0000) as i32
                    } else {
                        a.req_id as i32
                    };
                    let mut r = Step::nothing();
                    r.push(Effect::ControlAck(a.req_id, a.result));
                    r.push(
                        Effect::Event(lenny_event::LENNY_EVENT_CONTROL_ACK, id, a.result as i32),
                    );
                    assert(r@.effects =~= stream_step(old(self)@, typ, p@, now).1.effects);
                    r
                },
            }
        } else if typ == msg::STREAM_STATUS {
            match <StreamStatus as Message>::decode(p) {
                None => self.ignore(),
                Some(st) => {
                    let reason = c_string(st.reason.as_slice());
                    let mut r = Step::nothing();
                    r.push(Effect::StreamStatus(st.state, reason));
                    r.push(
                        Effect::Event(
                            lenny_event::LENNY_EVENT_STREAM_STATUS,
                            st.state as i32,
                            0,
                        ),
                    );
                    assert(r@.effects =~= stream_step(old(self)@, typ, p@, now).1.effects);
                    r
                },
            }
        } else {
            Step::nothing()
        }
    }

    fn dispatch_receiver(&mut self, typ: u16, p: &[u8], now: i64) -> (r: Step)
        requires
            old(self).wf(),
        ensures
            final(self).wf(),
            (final(self)@, r@) == receiver_step(old(self)@, typ, p@, now),
    {
        if typ == msg::PAIR_REQUEST && self.link.phase == Phase::PairOrCaps {
            match <PairRequest as Message>::decode(p) {
                None => self.ignore(),
                Some(m) => self.on_pair_request(&m, now),
            }
        } else if typ == msg::CAPS && self.link.phase == Phase::PairOrCaps {
            match <Caps as Message>::decode(p) {
                None => self.ignore(),
                Some(caps) => self.on_caps(caps, now),
            }
        } else if typ == msg::STREAM_START && (self.link.phase == Phase::StreamStartWait
            || self.link.phase == Phase::Streaming) {
            match <StreamStart as Message>::decode(p) {
                None => self.ignore(),
                Some(st) => self.on_stream_start(st.0, now),
            }
        } else if self.link.phase == Phase::Streaming {
            self.dispatch_stream(typ, p, now)
        } else {
            Step::nothing()
        }
    }

    /// Takes one message, received at `now` and answered at `at`.
    pub fn dispatch(&mut self, h: &Header, p: &[u8], now: i64, at: i64) -> (r: Step)
        requires
            old(self).wf(),
        ensures
            final(self).wf(),
            (final(self)@, r@) == message_step(old(self)@, *h, p@, now, at),
    {
        if h.ver_major != VERSION_MAJOR {
            return self.goodbye(LENNY_REASON_VERSION);
        }
        if h.typ == msg::HELLO {
            return self.on_hello(p, now);
        }
        if h.typ == msg::GOODBYE {
            return match <Goodbye as Message>::decode(p) {
                None => self.ignore(),
                Some(g) => Step::end(g.reason as i32),
            };
        }
        if self.link.phase == Phase::HelloWait {
            return Step::nothing();
        }
        if h.typ == msg::PING {
            return match <Ping as Message>::decode(p) {
                None => self.ignore(),
                Some(ping) => {
                    let pong = Pong { seq: ping.seq, t1: ping.t1, t2: now, t3: at };
                    let mut r = Step::nothing();
                    r.push(Effect::Send(to_message(&pong, self.minor)));
                    assert(r@.effects =~= message_step(old(self)@, *h, p@, now, at).1.effects);
                    r
                },
            };
        }
        if h.typ == msg::PONG {
            return match <Pong as Message>::decode(p) {
                None => self.ignore(),
                Some(pong) => {
                    self.clock.add(pong.t1, pong.t2, pong.t3, now);
                    Step::nothing()
                },
            };
        }
        if self.role == Role::Sender {
            self.dispatch_sender(h.typ, p, now)
        } else {
            self.dispatch_receiver(h.typ, p, now)
        }
    }
}

// ---- The course of a link ----------------------------------------------------------------------

/// A connection was made.
pub open spec fn start_step(s: SessionView, now: i64) -> (SessionView, Seq<EffectView>) {
    let t = SessionView {
        link: LinkView {
            phase: Phase::HelloWait,
            phase_deadline: later(now, HELLO_TIMEOUT),
            last_rx: now,
            peer: no_hello(),
            reached_streaming: false,
            ..s.link
        },
        minor: VERSION_MINOR,
        approval: Approval::Pending,
        clock: Seq::empty(),
        ..s
    };
    (
        with_state(t, lenny_state::LENNY_STATE_HANDSHAKE, 0),
        state_effects(s, lenny_state::LENNY_STATE_HANDSHAKE, 0) + if s.role == Role::Sender {
            seq![EffectView::Send(message_bytes::<Hello>(s.hello, VERSION_MINOR))]
        } else {
            Seq::empty()
        },
    )
}

/// The user accepted the device that waits: from now on it is trusted.
pub open spec fn accepted_step(s: SessionView, now: i64) -> (SessionView, Seq<EffectView>) {
    select_step(
        SessionView { trusted: s.trusted.insert(s.link.peer.device_id), ..s },
        now,
    )
}

/// Time has passed. Silence ends a link, an answer by the user is acted on, a phase that takes too
/// long ends the link, and a PING is sent once a second.
pub open spec fn tick_step(s: SessionView, now: i64) -> (SessionView, StepView) {
    let asked = s.link.phase == Phase::ApprovalWait;
    if now - s.link.last_rx > SILENCE_LIMIT {
        (s, hang_up(LENNY_REASON_LINK_LOST))
    } else if asked && s.approval == Approval::Denied {
        (s, goodbye(s, LENNY_REASON_PAIR_DENIED))
    } else {
        let (t, first) = if asked && s.approval == Approval::Accepted {
            accepted_step(s, now)
        } else {
            (s, Seq::empty())
        };
        if t.link.phase != Phase::Streaming && now > t.link.phase_deadline {
            (
                t,
                after(
                    first,
                    goodbye(
                        t,
                        if t.link.phase == Phase::ApprovalWait {
                            LENNY_REASON_PAIR_DENIED
                        } else {
                            LENNY_REASON_TIMEOUT
                        },
                    ),
                ),
            )
        } else if t.link.phase != Phase::HelloWait && now >= t.link.next_ping {
            let seq_no = next_u32(t.ping_seq);
            (
                SessionView {
                    ping_seq: seq_no,
                    link: LinkView { next_ping: later(now, PING_INTERVAL), ..t.link },
                    ..t
                },
                after(
                    first,
                    go_on(
                        seq![
                            EffectView::Send(
                                message_bytes::<Ping>(Ping { seq: seq_no, t1: now }, t.minor),
                            ),
                        ],
                    ),
                ),
            )
        } else {
            (t, go_on(first))
        }
    }
}

/// The platform said what it makes of the receiver's choice.
pub open spec fn configured_step(s: SessionView, eff: lenny_stream_settings) -> (
    SessionView,
    StepView,
) {
    (
        SessionView {
            vq: retargeted(s.vq, eff.bitrate_kbps),
            stats: lenny_stats { bitrate_kbps: eff.bitrate_kbps, ..s.stats },
            ..s
        },
        go_on(seq![EffectView::Send(message_bytes::<StreamStart>(eff, s.minor))]),
    )
}

/// The receiver was told the settings: the stream runs, or runs with new settings. Either way the
/// receiver needs a keyframe to start decoding.
pub open spec fn started_step(s: SessionView, eff: lenny_stream_settings, now: i64) -> (
    SessionView,
    StepView,
) {
    let info = InfoView { settings: eff, has_settings: true, ..s.info };
    let told = EffectView::Event(lenny_event::LENNY_EVENT_STREAM_START, 0, 0);
    if s.link.phase != Phase::Streaming {
        let t = with_phase(s, Phase::Streaming, now, 0);
        (
            with_state(
                SessionView {
                    info,
                    link: LinkView { reached_streaming: true, ..t.link },
                    ever_streamed: true,
                    stats: if s.ever_streamed {
                        lenny_stats { reconnects: next_u32(s.stats.reconnects), ..s.stats }
                    } else {
                        s.stats
                    },
                    streaming: true,
                    ..t
                },
                lenny_state::LENNY_STATE_STREAMING,
                0,
            ),
            go_on(
                seq![told] + state_effects(s, lenny_state::LENNY_STATE_STREAMING, 0) + seq![
                    EffectView::KeyframeRequest,
                ],
            ),
        )
    } else {
        (SessionView { info, ..s }, go_on(seq![told, EffectView::KeyframeRequest]))
    }
}

/// What tells the receiver the result of a control.
pub open spec fn ack_message(s: SessionView, req_id: u32, result: i32) -> Seq<u8> {
    message_bytes::<ControlAck>(ControlAck { req_id, result: (result as int % 256) as u8 }, s.minor)
}

/// The connection is gone.
pub open spec fn ended(s: SessionView) -> SessionView {
    SessionView {
        streaming: false,
        vq: if s.role == Role::Sender {
            emptied(s.vq)
        } else {
            s.vq
        },
        ..s
    }
}

impl Session {
    /// A connection was made. A sender speaks first.
    pub fn start_link(&mut self, now: i64) -> (r: Vec<Effect>)
        requires
            old(self).wf(),
        ensures
            final(self).wf(),
            (final(self)@, effects_view(r@)) == start_step(old(self)@, now),
    {
        self.enter(Phase::HelloWait, now, HELLO_TIMEOUT);
        self.link.last_rx = now;
        self.link.peer = Hello::default();
        self.link.reached_streaming = false;
        self.minor = VERSION_MINOR;
        self.approval = Approval::Pending;
        self.clock = ClockSync::default();
        let mut step = Step::nothing();
        self.enter_state(lenny_state::LENNY_STATE_HANDSHAKE, 0, &mut step);
        if self.role == Role::Sender {
            step.push(Effect::Send(to_message(&self.hello, self.minor)));
        }
        assert(step@.effects =~= start_step(old(self)@, now).1);
        step.effects
    }

    /// Bytes came in.
    pub fn received(&mut self, now: i64)
        requires
            old(self).wf(),
        ensures
            final(self).wf(),
            final(self)@ == (SessionView {
                link: LinkView { last_rx: now, ..old(self)@.link },
                ..old(self)@
            }),
    {
        self.link.last_rx = now;
    }

    /// Takes the next message of those that came in. `None`: the rest of it is still to come.
    /// There is no way to find the next message after garbage, so that ends the link.
    pub fn next_message(&mut self, reader: &mut MessageReader, now: i64, at: i64) -> (r: Option<
        Step,
    >)
        requires
            old(self).wf(),
        ensures
            final(self).wf(),
            final(reader)@ == after_front(old(reader)@),
            match (front(old(reader)@), r) {
                (Front::NeedMore, None) => final(self)@ == old(self)@,
                (Front::Message(h, p), Some(step)) => (final(self)@, step@) == message_step(
                    old(self)@,
                    h,
                    p,
                    now,
                    at,
                ),
                (Front::BadMagic, Some(step)) | (Front::TooLarge, Some(step)) => {
                    &&& final(self)@ == old(self)@
                    &&& step@ == goodbye(old(self)@, LENNY_REASON_PROTOCOL_ERROR)
                },
                _ => false,
            },
    {
        match reader.next() {
            Status::NeedMore => None,
            Status::Message(h, p) => Some(self.dispatch(&h, p, now, at)),
            Status::BadMagic | Status::TooLarge => {
                Some(self.goodbye(LENNY_REASON_PROTOCOL_ERROR))
            },
        }
    }

    /// Time has passed.
    pub fn tick(&mut self, now: i64) -> (r: Step)
        requires
            old(self).wf(),
        ensures
            final(self).wf(),
            (final(self)@, r@) == tick_step(old(self)@, now),
    {
        if more_than(now, self.link.last_rx, SILENCE_LIMIT) {
            return Step::end(LENNY_REASON_LINK_LOST);
        }
        let mut r = Step::nothing();
        if self.link.phase == Phase::ApprovalWait {
            match self.approval {
                Approval::Denied => {
                    return self.goodbye(LENNY_REASON_PAIR_DENIED);
                },
                Approval::Accepted => {
                    let id = self.link.peer.device_id;
                    self.trust(&id);
                    self.on_caps_complete(now, &mut r);
                },
                Approval::Pending => {},
            }
        }
        if self.link.phase != Phase::Streaming && now > self.link.phase_deadline {
            let reason: i32 = if self.link.phase == Phase::ApprovalWait {
                LENNY_REASON_PAIR_DENIED
            } else {
                LENNY_REASON_TIMEOUT
            };
            let bye = Goodbye { reason: reason as u16, detail: Vec::new() };
            assert(bye@ =~= (GoodbyeView { reason: reason as u16, detail: Seq::empty() }));
            r.push(Effect::Goodbye(to_message(&bye, self.minor)));
            r.end = Some(reason);
            assert(r@.effects =~= tick_step(old(self)@, now).1.effects);
            return r;
        }
        if self.link.phase != Phase::HelloWait && now >= self.link.next_ping {
            self.link.next_ping = time_later(now, PING_INTERVAL);
            self.ping_seq = count_u32(self.ping_seq);
            let ping = Ping { seq: self.ping_seq, t1: now };
            r.push(Effect::Send(to_message(&ping, self.minor)));
        }
        assert(r@.effects =~= tick_step(old(self)@, now).1.effects);
        r
    }

    /// The platform's answer to `Effect::StreamConfig`.
    pub fn stream_configured(&mut self, eff: lenny_stream_settings) -> (r: Step)
        requires
            old(self).wf(),
        ensures
            final(self).wf(),
            (final(self)@, r@) == configured_step(old(self)@, eff),
    {
        self.vq.retarget(eff.bitrate_kbps);
        self.stats.bitrate_kbps = eff.bitrate_kbps;
        let mut r = Step::nothing();
        r.push(Effect::Send(to_message(&StreamStart(eff), self.minor)));
        assert(r@.effects =~= configured_step(old(self)@, eff).1.effects);
        r
    }

    /// What `stream_configured` asked for has been sent.
    pub fn stream_started(&mut self, eff: lenny_stream_settings, now: i64) -> (r: Step)
        requires
            old(self).wf(),
        ensures
            final(self).wf(),
            (final(self)@, r@) == started_step(old(self)@, eff, now),
    {
        self.info.settings = eff;
        self.info.has_settings = true;
        let mut r = Step::nothing();
        r.push(Effect::Event(lenny_event::LENNY_EVENT_STREAM_START, 0, 0));
        if self.link.phase != Phase::Streaming {
            self.enter(Phase::Streaming, now, 0);
            self.link.reached_streaming = true;
            if self.ever_streamed {
                self.stats.reconnects = count_u32(self.stats.reconnects);
            }
            self.ever_streamed = true;
            self.streaming = true;
            self.enter_state(lenny_state::LENNY_STATE_STREAMING, 0, &mut r);
        }
        r.push(Effect::KeyframeRequest);
        assert(r@.effects =~= started_step(old(self)@, eff, now).1.effects);
        r
    }

    /// The platform's result of `Effect::Control`.
    pub fn control_done(&self, req_id: u32, result: i32) -> (r: Step)
        ensures
            r@ == go_on(seq![EffectView::Post(ack_message(self@, req_id, result))]),
    {
        let ack = ControlAck { req_id, result: low_byte(result) };
        let mut r = Step::nothing();
        r.push(Effect::Post(to_message(&ack, self.minor)));
        assert(r@.effects =~= seq![EffectView::Post(message_bytes::<ControlAck>(ack, self@.minor))]);
        r
    }

    /// The session is to stop: USER when the user disconnects, NORMAL when the program quits (the
    /// phone then keeps retrying).
    pub fn stop_link(&self, reason: u16) -> (r: Step)
        ensures
            r@ == goodbye(self@, reason as i32),
    {
        self.goodbye(reason as i32)
    }

    /// The connection is gone.
    pub fn end_link(&mut self)
        requires
            old(self).wf(),
        ensures
            final(self).wf(),
            final(self)@ == ended(old(self)@),
    {
        self.streaming = false;
        if self.role == Role::Sender {
            self.vq.reset();
        }
    }
}

/// What a second phone is told.
pub open spec fn busy_bytes() -> Seq<u8> {
    message_bytes::<Goodbye>(
        GoodbyeView {
            reason: LENNY_REASON_BUSY as u16,
            detail: vstd::utf8::encode_utf8("another phone is streaming"@),
        },
        VERSION_MINOR,
    )
}

/// What a second phone is told while the first one streams.
pub fn busy_message() -> (r: Vec<u8>)
    ensures
        r@ == busy_bytes(),
{
    let detail = "another phone is streaming";
    let m = Goodbye { reason: LENNY_REASON_BUSY as u16, detail: copy(detail.as_bytes()) };
    to_message(&m, VERSION_MINOR)
}

} // verus!
