//! What the program around a session asks of it, on any thread.
use vstd::prelude::*;
use crate::abi::{
    CTL_FIRST, CTL_LAST, LENNY_E_INVALID_ARG, LENNY_E_STATE, LENNY_OK, lenny_control, lenny_control_state,
    lenny_peer_info, lenny_state, lenny_stats, lenny_stream_settings,
};
use crate::bytes::{copy, same};
use crate::pairing::{DEFAULT_TTL_US, EntryView};
use crate::session::effect::{Effect, EffectView, effects_view};
use crate::session::negotiate::{choose_settings, chosen};
use crate::session::queue::{
    MAX_FRAME, MAX_VIDEO_CONFIG, Outgoing, Pushed, emptied, push_outcome, pushed, raise_due, raised, taken,
    with_config,
};
use crate::session::state::{Approval, InfoView, LinkView, Role, Session, SessionView, devices};
use crate::timing::{MS, best_sample};
use crate::wire::caps::Caps;
use crate::wire::control::{CapsSelect, Control, StreamStart};
use crate::wire::message::{DeviceId, PairToken, message_bytes, to_message};
use crate::wire::simple::{ControlState, StreamStatus, StreamStatusView};

verus! {

/// The control that moves the zoomed picture, new in 1.1.
pub const CTL_PAN: u16 = 21;

/// Counts one more; the count starts over after the last number.
pub open spec fn next_u32(n: u32) -> u32 {
    if n == u32::MAX {
        0
    } else {
        (n + 1) as u32
    }
}

pub open spec fn next_u64(n: u64) -> u64 {
    if n == u64::MAX {
        0
    } else {
        (n + 1) as u64
    }
}

pub open spec fn sum_u64(a: u64, b: u64) -> u64 {
    ((a + b) % 0x1_0000_0000_0000_0000) as u64
}

pub fn count_u32(n: u32) -> (r: u32)
    ensures
        r == next_u32(n),
{
    if n == u32::MAX {
        0
    } else {
        n + 1
    }
}

pub fn count_u64(n: u64) -> (r: u64)
    ensures
        r == next_u64(n),
{
    if n == u64::MAX {
        0
    } else {
        n + 1
    }
}

pub fn add_u64(a: u64, b: u64) -> (r: u64)
    ensures
        r == sum_u64(a, b),
{
    let x: u128 = a as u128 + b as u128;
    (x % 0x1_0000_0000_0000_0000) as u64
}

// ---- Sender ------------------------------------------------------------------------------------

/// Whether a sender may connect: it is one, and was told where to.
pub open spec fn connect_code(s: SessionView, host: Seq<char>, port: u16, running: bool) -> i32 {
    if s.role != Role::Sender || host.len() == 0 || port == 0 {
        LENNY_E_INVALID_ARG
    } else if running {
        LENNY_E_STATE
    } else {
        LENNY_OK
    }
}

/// What a configuration from the encoder comes to.
pub open spec fn config_code(s: SessionView, len: nat) -> i32 {
    if s.role != Role::Sender {
        LENNY_E_STATE
    } else if len == 0 || len > MAX_VIDEO_CONFIG {
        LENNY_E_INVALID_ARG
    } else {
        LENNY_OK
    }
}

/// The session after the encoder handed over a configuration.
pub open spec fn after_config(s: SessionView, data: Seq<u8>) -> SessionView {
    SessionView { vq: with_config(s.vq, data, s.streaming, s.minor), ..s }
}

/// What a frame from the encoder comes to.
pub open spec fn frame_code(s: SessionView, len: nat) -> i32 {
    if s.role != Role::Sender {
        LENNY_E_STATE
    } else if len == 0 || len > MAX_FRAME {
        LENNY_E_INVALID_ARG
    } else if !s.streaming {
        LENNY_E_STATE
    } else {
        LENNY_OK
    }
}

/// The session after the queue took a frame, or did not.
pub open spec fn after_frame(
    s: SessionView,
    data: Seq<u8>,
    pts_us: i64,
    orientation: u8,
    flags: u8,
    now: i64,
) -> SessionView {
    let vq = pushed(s.vq, data, pts_us, orientation, flags, s.minor, now);
    match push_outcome(s.vq, pts_us, flags) {
        Pushed::Congested(kbps) => SessionView {
            vq,
            stats: lenny_stats {
                dropped_frames: next_u32(s.stats.dropped_frames),
                bitrate_kbps: match kbps {
                    Some(k) => k,
                    None => s.stats.bitrate_kbps,
                },
                ..s.stats
            },
            ..s
        },
        _ => SessionView { vq, ..s },
    }
}

/// What the platform is asked for: after a congestion a keyframe, and a lower bitrate if there is
/// one.
pub open spec fn frame_effects(s: SessionView, pts_us: i64, flags: u8) -> Seq<EffectView> {
    match push_outcome(s.vq, pts_us, flags) {
        Pushed::Congested(Some(k)) => seq![EffectView::KeyframeRequest, EffectView::Bitrate(k)],
        Pushed::Congested(None) => seq![EffectView::KeyframeRequest],
        _ => Seq::empty(),
    }
}

/// The session after the writer took what is next.
pub open spec fn after_take(s: SessionView, now: i64) -> SessionView {
    SessionView {
        vq: taken(s.vq, now),
        stats: if raise_due(s.vq, now) {
            lenny_stats {
                bitrate_kbps: raised(s.vq.current_kbps, s.vq.target_kbps),
                ..s.stats
            }
        } else {
            s.stats
        },
        ..s
    }
}

/// The session once it is told to connect, with a token to redeem or without.
pub open spec fn connecting(s: SessionView, pair_token: Option<Seq<u8>>) -> SessionView {
    SessionView { link: LinkView { pair_token, ..s.link }, ..s }
}

/// The session after the writer sent what it took, or could not. Only frames have a payload.
pub open spec fn after_sent(s: SessionView, ok: bool, payload: usize) -> SessionView {
    if !ok {
        SessionView { vq: emptied(s.vq), ..s }
    } else if payload != 0 {
        SessionView {
            stats: lenny_stats {
                frames: next_u64(s.stats.frames),
                bytes: sum_u64(s.stats.bytes, payload as u64),
                ..s.stats
            },
            ..s
        }
    } else {
        s
    }
}

/// What tells the receiver that the platform streams with these settings.
pub open spec fn start_message(s: SessionView, eff: lenny_stream_settings) -> Seq<u8> {
    message_bytes::<StreamStart>(eff, s.minor)
}

/// What tells the receiver the state of the camera.
pub open spec fn state_message(s: SessionView, cs: lenny_control_state) -> Seq<u8> {
    message_bytes::<ControlState>(ControlState(cs), s.minor)
}

/// What tells the receiver the state of the stream.
pub open spec fn status_message(s: SessionView, state: u8, reason: Seq<u8>) -> Seq<u8> {
    message_bytes::<StreamStatus>(StreamStatusView { state, reason }, s.minor)
}

/// The session once the user has answered.
pub open spec fn approved(s: SessionView, accept: bool) -> SessionView {
    SessionView {
        approval: if accept {
            Approval::Accepted
        } else {
            Approval::Denied
        },
        ..s
    }
}

/// A control with the number of its request.
pub open spec fn numbered(s: SessionView, c: lenny_control) -> lenny_control {
    lenny_control { req_id: s.next_req_id, ..c }
}

/// What asks the phone for a control.
pub open spec fn control_message(s: SessionView, c: lenny_control) -> Seq<u8> {
    message_bytes::<Control>(numbered(s, c), s.minor)
}

/// The session after a request was numbered.
pub open spec fn after_request(s: SessionView) -> SessionView {
    SessionView { next_req_id: next_u32(s.next_req_id), ..s }
}

/// What asks the phone for other settings.
pub open spec fn select_message(s: SessionView, preferred: lenny_stream_settings) -> Seq<u8> {
    message_bytes::<CapsSelect>(chosen(s.info.peer_caps, preferred), s.minor)
}

/// The session after a token was issued.
pub open spec fn with_token(s: SessionView, ttl_ms: u32, token: Seq<u8>, now: i64) -> SessionView {
    SessionView {
        tokens: s.tokens.push(
            EntryView {
                token,
                issued: now,
                ttl_us: if ttl_ms != 0 {
                    (ttl_ms * MS) as i64
                } else {
                    DEFAULT_TTL_US
                },
                used: false,
            },
        ),
        ..s
    }
}

impl Session {
    /// Checks whether the session may connect, and keeps the token to be redeemed. `running`: an
    /// earlier connection has not come to its end.
    pub fn connect(
        &mut self,
        host: &str,
        port: u16,
        pair_token: Option<PairToken>,
        running: bool,
    ) -> (r: i32)
        ensures
            r == connect_code(old(self)@, host@, port, running),
            final(self)@ == (if r == LENNY_OK {
                connecting(
                    old(self)@,
                    match pair_token {
                        Some(t) => Some(t@),
                        None => None,
                    },
                )
            } else {
                old(self)@
            }),
    {
        if self.role != Role::Sender || host.is_empty() || port == 0 {
            return LENNY_E_INVALID_ARG;
        }
        if running {
            return LENNY_E_STATE;
        }
        self.link.pair_token = pair_token;
        LENNY_OK
    }

    /// Keeps the decoder configuration, which goes out before every keyframe.
    pub fn send_video_config(&mut self, data: &[u8]) -> (r: i32)
        requires
            old(self).wf(),
        ensures
            final(self).wf(),
            r == config_code(old(self)@, data@.len()),
            final(self)@ == (if r == LENNY_OK {
                after_config(old(self)@, data@)
            } else {
                old(self)@
            }),
    {
        if self.role != Role::Sender {
            return LENNY_E_STATE;
        }
        if data.len() == 0 || data.len() > MAX_VIDEO_CONFIG {
            return LENNY_E_INVALID_ARG;
        }
        self.vq.set_config(data, self.streaming, self.minor);
        LENNY_OK
    }

    /// Takes a frame from the encoder. Never waits for the network.
    pub fn send_video_frame(
        &mut self,
        data: &[u8],
        pts_us: i64,
        orientation: u8,
        flags: u8,
        now: i64,
    ) -> (r: (i32, Vec<Effect>))
        requires
            old(self).wf(),
        ensures
            final(self).wf(),
            r.0 == frame_code(old(self)@, data@.len()),
            r.0 == LENNY_OK ==> {
                &&& final(self)@ == after_frame(
                    old(self)@,
                    data@,
                    pts_us,
                    orientation,
                    flags,
                    now,
                )
                &&& effects_view(r.1@) == frame_effects(old(self)@, pts_us, flags)
            },
            r.0 != LENNY_OK ==> final(self)@ == old(self)@ && r.1@.len() == 0,
    {
        let mut effects: Vec<Effect> = Vec::new();
        if self.role != Role::Sender {
            return (LENNY_E_STATE, effects);
        }
        if data.len() == 0 || data.len() > MAX_FRAME {
            return (LENNY_E_INVALID_ARG, effects);
        }
        if !self.streaming {
            return (LENNY_E_STATE, effects);
        }
        match self.vq.push_frame(data, pts_us, orientation, flags, self.minor, now) {
            Pushed::Congested(kbps) => {
                self.stats.dropped_frames = count_u32(self.stats.dropped_frames);
                effects.push(Effect::KeyframeRequest);
                if let Some(k) = kbps {
                    self.stats.bitrate_kbps = k;
                    effects.push(Effect::Bitrate(k));
                }
            },
            _ => {},
        }
        assert(effects_view(effects@) =~= frame_effects(old(self)@, pts_us, flags));
        (LENNY_OK, effects)
    }

    /// What the video writer is to send next.
    pub fn take_outgoing(&mut self, now: i64) -> (r: (Vec<Effect>, Option<Outgoing>))
        requires
            old(self).wf(),
        ensures
            final(self).wf(),
            final(self)@ == after_take(old(self)@, now),
            effects_view(r.0@) == (if raise_due(old(self)@.vq, now) {
                seq![
                    EffectView::Bitrate(
                        raised(old(self)@.vq.current_kbps, old(self)@.vq.target_kbps),
                    ),
                ]
            } else {
                Seq::empty()
            }),
            match r.1 {
                Some(o) => old(self)@.vq.q.len() > 0 && o@ == old(self)@.vq.q[0],
                None => old(self)@.vq.q.len() == 0,
            },
    {
        let mut effects: Vec<Effect> = Vec::new();
        let (up, o) = self.vq.take(now);
        if let Some(kbps) = up {
            self.stats.bitrate_kbps = kbps;
            effects.push(Effect::Bitrate(kbps));
        }
        proof {
            if raise_due(old(self)@.vq, now) {
                assert(effects_view(effects@) =~= seq![EffectView::Bitrate(up->0)]);
            } else {
                assert(effects_view(effects@) =~= Seq::empty());
            }
        }
        (effects, o)
    }

    /// What the video writer took has been sent, or the link is gone and the next one starts from
    /// a keyframe. Only frames count in the statistics.
    pub fn outgoing_done(&mut self, ok: bool, payload: usize)
        requires
            old(self).wf(),
        ensures
            final(self).wf(),
            final(self)@ == after_sent(old(self)@, ok, payload),
    {
        if !ok {
            self.vq.reset();
        } else if payload != 0 {
            self.stats.frames = count_u64(self.stats.frames);
            self.stats.bytes = add_u64(self.stats.bytes, payload as u64);
        }
    }

    /// The platform streams with other settings than those agreed: tells the receiver. The result
    /// is what to send, or an error code.
    pub fn update_stream(&mut self, eff: &lenny_stream_settings) -> (r: Result<Vec<u8>, i32>)
        ensures
            match r {
                Ok(b) => {
                    &&& old(self)@.role == Role::Sender && old(self)@.streaming
                    &&& b@ == start_message(old(self)@, *eff)
                    &&& final(self)@ == (SessionView {
                        info: InfoView { settings: *eff, ..old(self)@.info },
                        ..old(self)@
                    })
                },
                Err(e) => {
                    &&& old(self)@.role != Role::Sender || !old(self)@.streaming
                    &&& e == LENNY_E_STATE
                    &&& final(self)@ == old(self)@
                },
            },
    {
        if self.role != Role::Sender || !self.streaming {
            return Err(LENNY_E_STATE);
        }
        self.info.settings = *eff;
        Ok(to_message(&StreamStart(*eff), self.minor))
    }

    /// Tells the receiver the state of the camera.
    pub fn send_control_state(&self, cs: &lenny_control_state) -> (r: Result<Vec<u8>, i32>)
        ensures
            match r {
                Ok(b) => {
                    &&& self@.role == Role::Sender && self@.streaming
                    &&& b@ == state_message(self@, *cs)
                },
                Err(e) => (self@.role != Role::Sender || !self@.streaming) && e == LENNY_E_STATE,
            },
    {
        if self.role != Role::Sender || !self.streaming {
            return Err(LENNY_E_STATE);
        }
        Ok(to_message(&ControlState(*cs), self.minor))
    }

    /// Tells the receiver the state of the stream.
    pub fn send_stream_status(&self, state: u8, reason: &[u8]) -> (r: Result<Vec<u8>, i32>)
        ensures
            match r {
                Ok(b) => {
                    &&& self@.role == Role::Sender && self@.streaming
                    &&& b@ == status_message(self@, state, reason@)
                },
                Err(e) => (self@.role != Role::Sender || !self@.streaming) && e == LENNY_E_STATE,
            },
    {
        if self.role != Role::Sender || !self.streaming {
            return Err(LENNY_E_STATE);
        }
        Ok(to_message(&StreamStatus { state, reason: copy(reason) }, self.minor))
    }

    // ---- Receiver ------------------------------------------------------------------------------

    /// Checks whether the session may listen.
    pub fn start(&self, running: bool) -> (r: i32)
        ensures
            r == (if self@.role != Role::Receiver || running {
                LENNY_E_STATE
            } else {
                LENNY_OK
            }),
    {
        if self.role != Role::Receiver || running {
            LENNY_E_STATE
        } else {
            LENNY_OK
        }
    }

    /// Where the session listens now; 0 where it does not.
    pub fn listening(&mut self, port: u16)
        ensures
            final(self)@ == (SessionView { bound_port: port, ..old(self)@ }),
    {
        self.bound_port = port;
    }

    pub fn port(&self) -> (r: u16)
        ensures
            r == self@.bound_port,
    {
        self.bound_port
    }

    /// Lets a token, which the caller drew at random, be redeemed once. A time of 0 stands for
    /// the usual one.
    pub fn new_pair_token(&mut self, ttl_ms: u32, token: PairToken, now: i64) -> (r: PairToken)
        ensures
            r == token,
            final(self)@ == with_token(old(self)@, ttl_ms, token@, now),
    {
        let ttl: i64 = if ttl_ms != 0 {
            ttl_ms as i64 * MS
        } else {
            DEFAULT_TTL_US
        };
        self.tokens.issue(token, now, ttl)
    }

    /// Whether a device needs no approval.
    pub fn is_trusted(&self, id: &DeviceId) -> (r: bool)
        ensures
            r == self@.trusted.contains(id@),
    {
        let mut i: usize = 0;
        while i < self.trusted.len()
            invariant
                i <= self.trusted@.len(),
                forall|j: int| 0 <= j < i ==> #[trigger] self.trusted@[j]@ != id@,
            decreases self.trusted.len() - i,
        {
            if same(self.trusted[i].as_slice(), id.as_slice()) {
                assert(self.trusted@[i as int]@ == id@);
                return true;
            }
            i = i + 1;
        }
        false
    }

    /// From now on the device needs no approval.
    pub fn trust(&mut self, id: &DeviceId)
        ensures
            final(self)@ == (SessionView {
                trusted: old(self)@.trusted.insert(id@),
                ..old(self)@
            }),
    {
        let ghost before = self.trusted@;
        if self.is_trusted(id) {
            assert(devices(before) =~= devices(before).insert(id@));
            return;
        }
        self.trusted.push(*id);
        proof {
            let after = self.trusted@;
            assert forall|x: Seq<u8>| #[trigger]
                devices(after).contains(x) == devices(before).insert(id@).contains(x) by {
                if devices(before).contains(x) {
                    let i = choose|i: int| 0 <= i < before.len() && #[trigger] before[i]@ == x;
                    assert(after[i]@ == x);
                }
                if x == id@ {
                    assert(after[before.len() as int]@ == x);
                }
                if devices(after).contains(x) {
                    let i = choose|i: int| 0 <= i < after.len() && #[trigger] after[i]@ == x;
                    if i < before.len() {
                        assert(before[i]@ == x);
                    }
                }
            }
            assert(devices(after) =~= devices(before).insert(id@));
        }
    }

    /// The user's answer to the question whether a device may connect.
    pub fn approve(&mut self, accept: bool) -> (r: i32)
        ensures
            ({
                let asked = old(self)@.role == Role::Receiver && old(self)@.state
                    == lenny_state::LENNY_STATE_AWAITING_APPROVAL;
                &&& r == (if asked {
                    LENNY_OK
                } else {
                    LENNY_E_STATE
                })
                &&& final(self)@ == (if asked {
                    approved(old(self)@, accept)
                } else {
                    old(self)@
                })
            }),
    {
        if self.role != Role::Receiver || self.state
            != lenny_state::LENNY_STATE_AWAITING_APPROVAL {
            return LENNY_E_STATE;
        }
        self.approval = if accept {
            Approval::Accepted
        } else {
            Approval::Denied
        };
        LENNY_OK
    }

    /// Asks the phone to do something with its camera. Gives the control its request id; the
    /// result is what to send, or an error code.
    pub fn send_control(&mut self, c: &mut lenny_control) -> (r: Result<Vec<u8>, i32>)
        ensures
            r matches Err(e) ==> control_refused(old(self)@, *old(c)) == Some(e) && final(self)@
                == old(self)@ && *final(c) == *old(c),
            r matches Ok(b) ==> {
                &&& control_refused(old(self)@, *old(c)) is None
                &&& *final(c) == numbered(old(self)@, *old(c))
                &&& b@ == control_message(old(self)@, *old(c))
                &&& final(self)@ == after_request(old(self)@)
            },
    {
        if self.role != Role::Receiver {
            return Err(LENNY_E_STATE);
        }
        if c.cmd < CTL_FIRST || c.cmd > CTL_LAST {
            return Err(LENNY_E_INVALID_ARG);
        }
        if !self.streaming {
            return Err(LENNY_E_STATE);
        }
        if c.cmd == CTL_PAN && self.minor < 1 {
            return Err(LENNY_E_STATE);
        }
        c.req_id = self.next_req_id;
        self.next_req_id = count_u32(self.next_req_id);
        Ok(to_message(&Control(*c), self.minor))
    }

    /// Asks for other settings. On a running stream the phone answers with STREAM_START, a new
    /// VIDEO_CONFIG and a keyframe; otherwise they are used at the next CAPS. The result is what
    /// to send, if anything, or an error code.
    pub fn select_stream(&mut self, preferred: &lenny_stream_settings) -> (r: Result<
        Option<Vec<u8>>,
        i32,
    >)
        ensures
            match r {
                Err(e) => {
                    &&& old(self)@.role != Role::Receiver
                    &&& e == LENNY_E_STATE
                    &&& final(self)@ == old(self)@
                },
                Ok(b) => {
                    &&& old(self)@.role == Role::Receiver
                    &&& final(self)@ == (SessionView {
                        info: InfoView { preferred: *preferred, ..old(self)@.info },
                        ..old(self)@
                    })
                    &&& match b {
                        None => !old(self)@.streaming,
                        Some(b) => old(self)@.streaming && b@ == select_message(old(self)@, *preferred),
                    }
                },
            },
    {
        if self.role != Role::Receiver {
            return Err(LENNY_E_STATE);
        }
        self.info.preferred = *preferred;
        if !self.streaming {
            return Ok(None);
        }
        let sel = choose_settings(&self.info.peer_caps, *preferred);
        Ok(Some(to_message(&CapsSelect(sel), self.minor)))
    }

    // ---- Common --------------------------------------------------------------------------------

    /// Whether there is or was a peer, and what is known of it.
    pub fn peer(&self) -> (r: (bool, lenny_peer_info))
        ensures
            r.0 == self@.info.has_peer,
            r.1@ == self@.info.peer_info,
    {
        (self.info.has_peer, self.info.peer_info)
    }

    /// Whether settings were agreed, and which.
    pub fn stream_settings(&self) -> (r: (bool, lenny_stream_settings))
        ensures
            r == (self@.info.has_settings, self@.info.settings),
    {
        (self.info.has_settings, self.info.settings)
    }

    /// Receiver: the phone's full CAPS, with the modes and zoom range of each lens, which
    /// `lenny_peer_info` doesn't carry. `None` until CAPS arrived.
    pub fn peer_caps(&self) -> (r: Option<&Caps>)
        ensures
            match r {
                Some(c) => self@.info.has_caps && c@ == self@.info.peer_caps,
                None => !self@.info.has_caps,
            },
    {
        if self.info.has_caps {
            Some(&self.info.peer_caps)
        } else {
            None
        }
    }

    /// Whether the phone told the state of its camera, and that state.
    pub fn control_state(&self) -> (r: (bool, lenny_control_state))
        ensures
            r == (self@.info.has_control_state, self@.info.control_state),
    {
        (self.info.has_control_state, self.info.control_state)
    }

    /// The state's code.
    pub fn state(&self) -> (r: i32)
        ensures
            r == self@.state.code(),
    {
        self.state.code()
    }

    /// What was counted, with what is known of the clocks.
    pub fn stats(&self) -> (r: lenny_stats)
        ensures
            r == stats_of(self@),
    {
        let rtt_us: i64 = self.clock.rtt_us();
        let clock_offset_us: i64 = self.clock.offset_us();
        lenny_stats {
            rtt_us,
            clock_offset_us,
            frames: self.stats.frames,
            bytes: self.stats.bytes,
            bad_messages: self.stats.bad_messages,
            reconnects: self.stats.reconnects,
            latency_us: self.stats.latency_us,
            dropped_frames: self.stats.dropped_frames,
            bitrate_kbps: self.stats.bitrate_kbps,
        }
    }
}

/// Why a control is not sent, if it is not: only receivers control, only what there is, only on a
/// running stream, and only what the phone's version knows.
pub open spec fn control_refused(s: SessionView, c: lenny_control) -> Option<i32> {
    if s.role != Role::Receiver {
        Some(LENNY_E_STATE)
    } else if c.cmd < CTL_FIRST || c.cmd > CTL_LAST {
        Some(LENNY_E_INVALID_ARG)
    } else if !s.streaming {
        Some(LENNY_E_STATE)
    } else if c.cmd == CTL_PAN && s.minor < 1 {
        Some(LENNY_E_STATE)
    } else {
        None
    }
}

pub open spec fn stats_of(s: SessionView) -> lenny_stats {
    lenny_stats {
        rtt_us: if s.clock.len() > 0 {
            best_sample(s.clock).rtt_us
        } else {
            (-1) as i64
        },
        clock_offset_us: if s.clock.len() > 0 {
            best_sample(s.clock).offset_us
        } else {
            0
        },
        ..s.stats
    }
}

} // verus!
