//! A sender and a receiver against each other, over a pipe in memory and a clock that the test sets.
use lenny::abi::{
    lenny_abi_version, lenny_control, lenny_control_cmd, lenny_control_state, lenny_event, lenny_identity, lenny_lens,
    lenny_lens_caps, lenny_mode, lenny_peer_info, lenny_receiver_config, lenny_sender_config, lenny_state,
    lenny_stream_settings, LENNY_ACK_OK, LENNY_ACK_UNSUPPORTED, LENNY_CAP_EXPOSURE_COMP, LENNY_CAP_FOCUS,
    LENNY_CAP_PAN, LENNY_CAP_TORCH, LENNY_CODEC_H264, LENNY_E_INVALID_ARG, LENNY_E_STATE, LENNY_FRAME_KEYFRAME,
    LENNY_OK, LENNY_PLATFORM_ANDROID, LENNY_PLATFORM_LINUX, LENNY_PLATFORM_WINDOWS, LENNY_REASON_BUSY,
    LENNY_REASON_LINK_LOST, LENNY_REASON_NORMAL, LENNY_REASON_PAIR_DENIED, LENNY_REASON_PROTOCOL_ERROR,
    LENNY_REASON_TIMEOUT, LENNY_REASON_USER, LENNY_REASON_VERSION,
};
use lenny::c_api::{
    out_or_state, plain_call, receiver_config, sender_config, state_or_closed, token_call, video_call,
};
use lenny::session::effect::{Effect, Step};
use lenny::session::link::busy_message;
use lenny::session::negotiate::choose_settings;
use lenny::session::queue::{Pushed, Vq};
use lenny::session::reconnect::{Attempts, Next, Outcome};
use lenny::session::state::{Role, Session};
use lenny::wire::caps::Caps;
use lenny::wire::control::{CapsSelect, StreamStart};
use lenny::wire::frame::{put_header, Header, MessageReader, Status, HEADER_SIZE};
use lenny::wire::message::{to_message, Message};
use lenny::wire::msg;
use lenny::wire::simple::{Goodbye, Hello, Ping};

const MODES: [lenny_mode; 3] = [
    lenny_mode { width: 1280, height: 720, fps_num: 30, fps_den: 1 },
    lenny_mode { width: 1920, height: 1080, fps_num: 30, fps_den: 1 },
    lenny_mode { width: 3840, height: 2160, fps_num: 30, fps_den: 1 },
];

fn settings(w: u16, h: u16, kbps: u32) -> lenny_stream_settings {
    lenny_stream_settings {
        codec: LENNY_CODEC_H264,
        mode: lenny_mode { width: w, height: h, fps_num: 30, fps_den: 1 },
        bitrate_kbps: kbps,
        has_lens: 0,
        lens_id: 0,
    }
}

fn ident(id_byte: u8, name: &str, platform: u8) -> lenny_identity {
    lenny_identity {
        device_id: [id_byte; 16],
        device_name: name.as_bytes().to_vec(),
        app_version: b"test".to_vec(),
        platform,
    }
}

/// One end of a link, with everything that its session asked for.
struct Side {
    s: Session,
    reader: MessageReader,
    out: Vec<u8>,
    ended: Option<i32>,
    approvals: Vec<Vec<u8>>,
    starts: Vec<lenny_stream_settings>,
    configs: usize,
    frames: Vec<(Vec<u8>, u8, i64)>,
    saw_config_before_key: bool,
    acks: Vec<(u32, u8)>,
    events: Vec<(i32, i32)>,
    keyframe_requests: usize,
    controls: Vec<lenny_control>,
    stream_configs: usize,
    bitrates: Vec<u32>,
    clamp: Option<u32>,
}

impl Side {
    fn new(s: Session) -> Side {
        Side {
            s,
            reader: MessageReader::default(),
            out: vec![],
            ended: None,
            approvals: vec![],
            starts: vec![],
            configs: 0,
            frames: vec![],
            saw_config_before_key: false,
            acks: vec![],
            events: vec![],
            keyframe_requests: 0,
            controls: vec![],
            stream_configs: 0,
            bitrates: vec![],
            clamp: Some(10000),
        }
    }

    fn apply(&mut self, effects: Vec<Effect>, now: i64) {
        for e in effects {
            match e {
                Effect::Send(b) | Effect::Post(b) | Effect::Goodbye(b) => self.out.extend(b),
                Effect::State(_, _) => {}
                Effect::Event(e, a, _) => self.events.push((e.code(), a)),
                Effect::ApprovalNeeded(_, name) => self.approvals.push(name),
                Effect::StreamConfig(req) => {
                    self.stream_configs += 1;
                    let eff = lenny_stream_settings { bitrate_kbps: self.clamp.unwrap_or(req.bitrate_kbps), ..req };
                    let step = self.s.stream_configured(eff);
                    self.step(step, now);
                    let step = self.s.stream_started(eff, now);
                    self.step(step, now);
                }
                Effect::Control(c) => {
                    let result = if c.cmd == lenny_control_cmd::LENNY_CTL_KEYFRAME_REQUEST.code() {
                        self.keyframe_requests += 1;
                        LENNY_ACK_OK
                    } else if c.cmd == lenny_control_cmd::LENNY_CTL_FOCUS_AT.code()
                        || c.cmd == lenny_control_cmd::LENNY_CTL_PAN.code()
                    {
                        self.controls.push(c);
                        LENNY_ACK_OK
                    } else {
                        LENNY_ACK_UNSUPPORTED
                    };
                    let step = self.s.control_done(c.req_id, result);
                    self.step(step, now);
                }
                Effect::KeyframeRequest => self.keyframe_requests += 1,
                Effect::Bitrate(k) => self.bitrates.push(k),
                Effect::StreamStart(s) => self.starts.push(s),
                Effect::StreamStatus(_, _) => {}
                Effect::VideoConfig(_) => self.configs += 1,
                Effect::VideoFrame(f) => {
                    if f.flags & LENNY_FRAME_KEYFRAME != 0 && self.configs > 0 {
                        self.saw_config_before_key = true;
                    }
                    self.frames.push((f.data, f.flags, f.local_pts_us));
                }
                Effect::ControlState(_) => {}
                Effect::ControlAck(id, r) => self.acks.push((id, r)),
            }
        }
    }

    fn step(&mut self, step: Step, now: i64) {
        self.apply(step.effects, now);
        if step.end.is_some() {
            self.ended = step.end;
        }
    }

    fn hear(&mut self, bytes: &[u8], now: i64) {
        if self.ended.is_some() {
            return;
        }
        self.reader.feed(bytes);
        self.s.received(now);
        while self.ended.is_none() {
            match self.s.next_message(&mut self.reader, now, now) {
                Some(step) => self.step(step, now),
                None => break,
            }
        }
    }

    fn tick(&mut self, now: i64) {
        let step = self.s.tick(now);
        self.step(step, now);
    }

    fn state(&self) -> i32 {
        self.s.state()
    }

    fn streaming(&self) -> bool {
        self.state() == lenny_state::LENNY_STATE_STREAMING.code()
    }

    fn link(&mut self, now: i64) {
        self.reader = MessageReader::default();
        self.ended = None;
        self.out.clear();
        let effects = self.s.start_link(now);
        self.apply(effects, now);
    }

    fn unlink(&mut self) {
        self.s.end_link();
    }
}

/// Sends what the video queue holds, then lets both sides talk until neither has anything to say.
fn pump(tx: &mut Side, rx: &mut Side, now: i64) {
    loop {
        loop {
            let (effects, next) = tx.s.take_outgoing(now);
            tx.apply(effects, now);
            match next {
                Some(o) => {
                    tx.out.extend(o.msg);
                    tx.s.outgoing_done(true, o.payload);
                }
                None => break,
            }
        }
        let a = std::mem::take(&mut tx.out);
        let b = std::mem::take(&mut rx.out);
        if a.is_empty() && b.is_empty() {
            return;
        }
        rx.hear(&a, now);
        tx.hear(&b, now);
    }
}

fn connect(tx: &mut Side, rx: &mut Side, now: i64) {
    tx.link(now);
    rx.link(now);
    pump(tx, rx, now);
}

fn receiver() -> Side {
    let cfg = lenny_receiver_config {
        identity: ident(0xDD, "Desk", LENNY_PLATFORM_WINDOWS),
        port: 0,
        preferred: settings(1920, 1080, 20000),
    };
    let s = Session::new_receiver(receiver_config(&cfg));
    assert_eq!(s.start(false), LENNY_OK);
    Side::new(s)
}

fn sender_cfg(id: u8) -> lenny_sender_config {
    lenny_sender_config {
        identity: ident(id, "Pixel", LENNY_PLATFORM_ANDROID),
        modes: MODES.to_vec(),
        max_bitrate_kbps: 12000,
        controls: LENNY_CAP_FOCUS | LENNY_CAP_TORCH | LENNY_CAP_EXPOSURE_COMP,
        lenses: vec![
            lenny_lens { lens_id: 0, facing: 0, label: b"Wide".to_vec() },
            lenny_lens { lens_id: 1, facing: 1, label: b"Front".to_vec() },
        ],
        exposure_comp_min: -2000,
        exposure_comp_max: 2000,
        exposure_comp_step_milli: 333,
        lens_caps: vec![
            lenny_lens_caps { modes: MODES[..2].to_vec(), zoom_min: 100, zoom_max: 800, zoom_base: 100 },
            lenny_lens_caps { modes: MODES[..1].to_vec(), zoom_min: 0, zoom_max: 0, zoom_base: 0 },
        ],
    }
}

fn sender(id: u8) -> Side {
    Side::new(Session::new_sender(sender_config(&sender_cfg(id))))
}

fn c_str(b: &[u8]) -> &[u8] {
    &b[..b.iter().position(|&c| c == 0).unwrap()]
}

fn code(s: lenny_state) -> i32 {
    s.code()
}

#[test]
fn abi_version() {
    assert_eq!(lenny_abi_version(), (1 << 16) | 3);
}

#[test]
fn full_session_with_approval_video_and_controls() {
    let mut rx = receiver();
    let mut tx = sender(0x11);
    assert_eq!(tx.s.connect("127.0.0.1", 47474, None, false), LENNY_OK);
    let t = 1_000_000;
    connect(&mut tx, &mut rx, t);

    // Unknown phone: receiver asks the user.
    assert_eq!(rx.approvals, vec![b"Pixel".to_vec()]);
    assert_eq!(rx.state(), code(lenny_state::LENNY_STATE_AWAITING_APPROVAL));
    assert_eq!(tx.s.send_video_frame(b"x", 0, 0, 0, t).0, LENNY_E_STATE); // not yet
    assert_eq!(rx.s.approve(true), LENNY_OK);
    rx.tick(t);
    pump(&mut tx, &mut rx, t);
    assert!(rx.streaming() && tx.streaming());

    // Negotiation: receiver preferred 1080p30 @ 20 Mbps, sender caps max 12 Mbps, platform clamped to 10.
    assert_eq!(rx.starts.len(), 1);
    let st = rx.starts[0];
    assert!(st.mode.width == 1920 && st.mode.height == 1080 && st.bitrate_kbps == 10000);
    assert_eq!(tx.stream_configs, 1);
    assert_eq!(tx.keyframe_requests, 1); // fresh stream -> keyframe

    // Config is cached and resent ahead of each keyframe.
    let sps = [0, 0, 0, 1, 0x67, 0x42];
    let idr = [0, 0, 0, 1, 0x65, 0x88, 0x84];
    let p = [0, 0, 0, 1, 0x41, 0x9A];
    assert_eq!(tx.s.send_video_config(&sps), LENNY_OK);
    pump(&mut tx, &mut rx, t);
    assert_eq!(rx.configs, 1);
    assert_eq!(tx.s.send_video_frame(&idr, t, 1, LENNY_FRAME_KEYFRAME, t).0, LENNY_OK);
    assert_eq!(tx.s.send_video_frame(&p, t + 1, 1, 0, t).0, LENNY_OK);
    pump(&mut tx, &mut rx, t);
    assert_eq!(rx.frames.len(), 2);
    assert!(rx.configs == 2 && rx.saw_config_before_key);
    assert_eq!(rx.frames[1].0, p);

    // Remote tap-to-focus -> phone callback -> ACK back.
    let mut focus = lenny_control {
        cmd: lenny_control_cmd::LENNY_CTL_FOCUS_AT.code(),
        x: 30000,
        y: 20000,
        ..Default::default()
    };
    let bytes = rx.s.send_control(&mut focus).unwrap();
    rx.out.extend(bytes);
    assert_ne!(focus.req_id, 0);
    pump(&mut tx, &mut rx, t);
    assert_eq!(rx.acks.len(), 1);
    assert!(tx.controls.len() == 1 && tx.controls[0].x == 30000);
    assert!(rx.acks[0] == (focus.req_id, LENNY_ACK_OK as u8));
    let mut zoom =
        lenny_control { cmd: lenny_control_cmd::LENNY_CTL_ZOOM.code(), value: 200, ..Default::default() };
    let bytes = rx.s.send_control(&mut zoom).unwrap();
    rx.out.extend(bytes);
    pump(&mut tx, &mut rx, t);
    assert_eq!(rx.acks.len(), 2);
    assert_eq!(rx.acks[1].1, LENNY_ACK_UNSUPPORTED as u8);

    let cs = lenny_control_state { torch: 1, zoom: 100, ..Default::default() };
    let bytes = tx.s.send_control_state(&cs).unwrap();
    tx.out.extend(bytes);
    pump(&mut tx, &mut rx, t);
    assert_eq!(rx.s.control_state().1.torch, 1);

    // Keepalive runs every second: after ~1.2 s both sides have an RTT and the receiver maps pts to local time.
    let later = t + 1_200_000;
    rx.tick(later);
    pump(&mut tx, &mut rx, later);
    assert!(rx.s.stats().rtt_us >= 0);
    assert_eq!(tx.s.send_video_frame(&p, later, 0, 0, later).0, LENNY_OK);
    pump(&mut tx, &mut rx, later);
    assert_eq!(rx.frames.len(), 3);
    // Same machine, same clock: mapped pts is within a few ms of the capture time.
    let lp = rx.frames[2].2;
    assert!(lp != 0 && (lp - later).abs() < 1_000_000);
    assert_eq!(tx.s.stats().frames, 3);

    // Phone user disconnects: sender closes for good, receiver goes back to listening.
    let step = tx.s.stop_link(LENNY_REASON_USER as u16);
    tx.step(step, later);
    assert_eq!(tx.ended, Some(LENNY_REASON_USER));
    let bye = std::mem::take(&mut tx.out);
    rx.hear(&bye, later);
    assert_eq!(rx.ended, Some(LENNY_REASON_USER));
    assert_eq!(
        Attempts::new().after(Outcome::Ended { reason: LENNY_REASON_USER, streamed: true }, true),
        Next::Close(LENNY_REASON_USER)
    );
    rx.unlink();
    rx.s.set_state(lenny_state::LENNY_STATE_CONNECTING, 0);
    assert_eq!(rx.state(), code(lenny_state::LENNY_STATE_CONNECTING));
}

#[test]
fn ui_events_carry_ints_and_getters_have_details() {
    let mut rx = receiver();
    let mut tx = sender(0x11);
    let mut peer = lenny_peer_info::default();
    assert_eq!(out_or_state(rx.s.peer(), &mut peer), LENNY_E_STATE); // nobody yet
    connect(&mut tx, &mut rx, 0);
    let approvals = (lenny_event::LENNY_EVENT_APPROVAL_NEEDED.code(), 0);
    assert_eq!(rx.events.iter().filter(|e| **e == approvals).count(), 1);
    assert_eq!(out_or_state(rx.s.peer(), &mut peer), LENNY_OK);
    assert!(c_str(&peer.name) == b"Pixel" && peer.platform == LENNY_PLATFORM_ANDROID && peer.device_id[0] == 0x11);
    // The phone's camera capabilities, for the desktop's remote controls.
    assert!(peer.controls & LENNY_CAP_TORCH != 0 && peer.controls & LENNY_CAP_FOCUS != 0);
    assert!(peer.lens_count == 2 && c_str(&peer.lens_labels[1]) == b"Front" && peer.lens_facing[1] == 1);
    assert!(peer.exposure_min == -2000 && peer.exposure_max == 2000 && peer.exposure_step_milli == 333);
    rx.s.approve(true);
    rx.tick(0);
    pump(&mut tx, &mut rx, 0);
    let start = lenny_event::LENNY_EVENT_STREAM_START.code();
    assert_eq!(rx.events.iter().filter(|e| e.0 == start).count(), 1);
    let on = (lenny_event::LENNY_EVENT_STATE.code(), code(lenny_state::LENNY_STATE_STREAMING));
    assert_eq!(rx.events.iter().filter(|e| **e == on).count(), 1);
    let mut st = lenny_stream_settings::default();
    assert!(out_or_state(rx.s.stream_settings(), &mut st) == LENNY_OK && st.mode.width == 1920);
    let mut tx_st = lenny_stream_settings::default();
    assert!(out_or_state(tx.s.stream_settings(), &mut tx_st) == LENNY_OK && tx_st.bitrate_kbps == 10000);
    let mut key =
        lenny_control { cmd: lenny_control_cmd::LENNY_CTL_KEYFRAME_REQUEST.code(), ..Default::default() };
    let bytes = rx.s.send_control(&mut key).unwrap();
    rx.out.extend(bytes);
    pump(&mut tx, &mut rx, 0);
    let ack = lenny_event::LENNY_EVENT_CONTROL_ACK.code();
    assert_eq!(rx.events.iter().filter(|e| e.0 == ack).count(), 1);
}

#[test]
fn slow_network_drops_to_keyframe_and_lowers_bitrate_without_blocking() {
    let cfg = lenny_receiver_config {
        identity: ident(0xDD, "Desk", LENNY_PLATFORM_WINDOWS),
        port: 0,
        preferred: settings(1280, 720, 2000),
    };
    let mut rx = Side::new(Session::new_receiver(receiver_config(&cfg)));
    rx.s.trust(&[0x61; 16]);
    let scfg = lenny_sender_config {
        max_bitrate_kbps: 2000,
        controls: 0,
        lenses: vec![],
        lens_caps: vec![],
        exposure_comp_min: 0,
        exposure_comp_max: 0,
        exposure_comp_step_milli: 0,
        ..sender_cfg(0x61)
    };
    let mut tx = Side::new(Session::new_sender(sender_config(&scfg)));
    tx.clamp = None;
    connect(&mut tx, &mut rx, 0);
    assert!(tx.streaming() && rx.streaming());

    // 2 Mbps target, but 60 KB frames (~14 Mbps at 30 fps), and a network that takes one in ten. Keyframe every 10th
    // frame. Timestamps advance like a real 30 fps camera.
    let data = vec![0xABu8; 60 * 1024];
    let base = 1_000_000i64;
    let mut sent = 0;
    for i in 0..300i64 {
        let now = base + i * 33_333;
        let flags = if i % 10 == 0 { LENNY_FRAME_KEYFRAME } else { 0 };
        let (r, effects) = tx.s.send_video_frame(&data, now, 0, flags, now);
        assert_eq!(r, LENNY_OK);
        tx.apply(effects, now);
        if i % 10 == 0 {
            let (effects, next) = tx.s.take_outgoing(now);
            tx.apply(effects, now);
            if let Some(o) = next {
                tx.s.outgoing_done(true, o.payload);
                sent += 1;
            }
        }
    }
    let st = tx.s.stats();
    assert!(st.dropped_frames > 0);
    assert!(tx.keyframe_requests > 1); // one at stream start, more after drops
    let kbps = *tx.bitrates.last().unwrap();
    assert!(kbps > 0 && kbps < 2000); // bitrate stepped down
    assert_eq!(st.bitrate_kbps, kbps);
    assert!(sent > 0 && sent < 300); // some got through, but not the whole backlog
}

#[test]
fn update_stream_reaches_receiver_and_latency_is_measured() {
    let mut rx = receiver();
    rx.s.trust(&[0x71; 16]);
    let mut tx = sender(0x71);
    connect(&mut tx, &mut rx, 0);
    assert!(rx.starts.len() == 1 && tx.streaming());

    // Camera picked 1280x720 instead of the requested 1080p.
    let actual = settings(1280, 720, 10000);
    let bytes = tx.s.update_stream(&actual).unwrap();
    tx.out.extend(bytes);
    pump(&mut tx, &mut rx, 0);
    assert_eq!(rx.starts.len(), 2);
    assert!(rx.starts[1].mode.width == 1280 && rx.starts[1].mode.height == 720);

    // Latency appears once clock sync has a sample (first PING after ~1 s).
    assert!(rx.s.stats().latency_us < 0);
    let idr = [0, 0, 0, 1, 0x65];
    let now = 1_100_000;
    rx.tick(now);
    pump(&mut tx, &mut rx, now);
    assert_eq!(tx.s.send_video_frame(&idr, now, 0, LENNY_FRAME_KEYFRAME, now).0, LENNY_OK);
    pump(&mut tx, &mut rx, now + 30_000);
    let latency = rx.s.stats().latency_us;
    assert!(latency >= 0);
    assert!(latency < 200_000); // same machine: well under 200 ms
}

#[test]
fn receiver_lists_modes_and_switches_mid_stream() {
    let mut rx = receiver();
    rx.s.trust(&[0x72; 16]);
    let mut tx = sender(0x72);
    connect(&mut tx, &mut rx, 0);
    assert!(rx.starts.len() == 1 && tx.streaming());

    let mut p = lenny_peer_info::default();
    assert_eq!(out_or_state(rx.s.peer(), &mut p), LENNY_OK);
    assert!(p.mode_count == 3 && p.modes[2].width == 3840 && p.modes[2].height == 2160);

    // Ask for 720p mid-stream: the phone gets CAPS_SELECT, the receiver a new STREAM_START.
    let want = settings(1280, 720, 5000);
    let bytes = rx.s.select_stream(&want).unwrap().unwrap();
    rx.out.extend(bytes);
    pump(&mut tx, &mut rx, 0);
    assert!(rx.starts.len() == 2 && tx.stream_configs == 2);
    assert!(rx.starts[1].mode.width == 1280 && rx.starts[1].mode.height == 720);
    assert!(tx.streaming() && rx.streaming()); // no reconnect
    assert_eq!(tx.s.select_stream(&want), Err(LENNY_E_STATE)); // senders don't choose
}

#[test]
fn qr_token_skips_approval_and_is_single_use() {
    let mut rx = receiver();
    let token = rx.s.new_pair_token(0, [0x5A; 16], 0);

    let mut tx = sender(0x21);
    assert_eq!(tx.s.connect("127.0.0.1", 47474, Some(token), false), LENNY_OK);
    connect(&mut tx, &mut rx, 0);
    assert!(rx.streaming() && tx.streaming());
    assert_eq!(rx.approvals.len(), 0);
    rx.unlink();

    // A photo of the same QR code, different phone: rejected, no retry.
    let mut tx2 = sender(0x22);
    assert_eq!(tx2.s.connect("127.0.0.1", 47474, Some(token), false), LENNY_OK);
    connect(&mut tx2, &mut rx, 1);
    assert_eq!(rx.ended, Some(LENNY_REASON_PAIR_DENIED));
    let reason = tx2.ended.unwrap();
    assert_eq!(reason, LENNY_REASON_PAIR_DENIED);
    assert_eq!(
        Attempts::new().after(Outcome::Ended { reason, streamed: false }, false),
        Next::Close(LENNY_REASON_PAIR_DENIED)
    );
}

#[test]
fn trusted_device_skips_prompt_denied_device_is_closed() {
    let mut rx = receiver();
    rx.s.trust(&[0x31; 16]);

    let mut tx = sender(0x31);
    connect(&mut tx, &mut rx, 0);
    assert!(rx.streaming() && tx.streaming());
    assert_eq!(rx.approvals.len(), 0);
    rx.unlink();

    let mut tx2 = sender(0x32);
    connect(&mut tx2, &mut rx, 0);
    assert_eq!(rx.approvals.len(), 1);
    assert_eq!(rx.s.approve(false), LENNY_OK);
    rx.tick(1);
    pump(&mut tx2, &mut rx, 1);
    assert_eq!(tx2.ended, Some(LENNY_REASON_PAIR_DENIED));
    assert_eq!(
        Attempts::new().after(Outcome::Ended { reason: LENNY_REASON_PAIR_DENIED, streamed: false }, false),
        Next::Close(LENNY_REASON_PAIR_DENIED)
    );
}

#[test]
fn second_phone_gets_busy_first_keeps_streaming() {
    let mut rx = receiver();
    rx.s.trust(&[0x41; 16]);
    rx.s.trust(&[0x42; 16]);
    let mut tx = sender(0x41);
    connect(&mut tx, &mut rx, 0);
    assert!(tx.streaming());

    let mut tx2 = sender(0x42);
    tx2.link(0);
    tx2.hear(&busy_message(), 0);
    assert!(!tx2.streaming());
    assert_eq!(tx2.ended, Some(LENNY_REASON_BUSY));
    // BUSY is not fatal: it keeps trying.
    assert_eq!(
        Attempts::new().after(Outcome::Ended { reason: LENNY_REASON_BUSY, streamed: false }, false),
        Next::Retry { reason: LENNY_REASON_BUSY, wait_ms: 250 }
    );
    assert!(tx.streaming() && rx.streaming());

    // First phone leaves -> the waiting one gets in on its next retry.
    rx.unlink();
    tx2.unlink();
    connect(&mut tx2, &mut rx, 0);
    assert!(tx2.streaming());
}

#[test]
fn sender_reconnects_after_receiver_restart() {
    let mut rx = receiver();
    rx.s.trust(&[0x51; 16]);
    let mut tx = sender(0x51);
    connect(&mut tx, &mut rx, 0);
    assert!(tx.streaming());

    // Desktop app restarts on the same port.
    let step = rx.s.stop_link(LENNY_REASON_NORMAL as u16);
    rx.step(step, 0);
    let bye = std::mem::take(&mut rx.out);
    tx.hear(&bye, 0);
    assert_eq!(tx.ended, Some(LENNY_REASON_NORMAL));
    tx.unlink();
    assert_eq!(
        Attempts { failed: 3 }.after(Outcome::Ended { reason: LENNY_REASON_NORMAL, streamed: true }, false),
        Next::Retry { reason: LENNY_REASON_NORMAL, wait_ms: 250 }
    );
    tx.s.set_state(lenny_state::LENNY_STATE_RECONNECTING, LENNY_REASON_NORMAL);
    assert_eq!(tx.state(), code(lenny_state::LENNY_STATE_RECONNECTING));
    let mut rx = receiver();
    rx.s.trust(&[0x51; 16]);
    connect(&mut tx, &mut rx, 1);
    assert!(tx.streaming() && rx.streaming());
    assert_eq!(tx.keyframe_requests, 2); // one per stream
    assert_eq!(tx.s.stats().reconnects, 1);
}

#[test]
fn nothing_listening_keeps_retrying_and_disconnect_is_fast() {
    let mut tx = sender(0x11);
    assert_eq!(tx.s.connect("127.0.0.1", 1, None, false), LENNY_OK);
    let mut attempts = Attempts::new();
    for wait_ms in [250, 500, 1000, 2000, 2000] {
        assert_eq!(
            attempts.after(Outcome::Unreachable, false),
            Next::Retry { reason: LENNY_REASON_LINK_LOST, wait_ms }
        );
    }
    tx.s.set_state(lenny_state::LENNY_STATE_RECONNECTING, LENNY_REASON_LINK_LOST);
    assert_eq!(tx.state(), code(lenny_state::LENNY_STATE_RECONNECTING));
    assert_eq!(tx.s.connect("127.0.0.1", 1, None, true), LENNY_E_STATE); // already running
    assert_eq!(attempts.after(Outcome::Unreachable, true), Next::Close(LENNY_REASON_USER));
}

#[test]
fn null_and_bad_args_do_not_crash() {
    assert_eq!(plain_call(false, true), LENNY_E_INVALID_ARG);
    assert_eq!(state_or_closed(None), code(lenny_state::LENNY_STATE_CLOSED));
    let mut tx = sender(0x11);
    assert_eq!(tx.s.connect("", 1, None, false), LENNY_E_INVALID_ARG);
    assert_eq!(video_call(Some(tx.s.role()), false), LENNY_E_INVALID_ARG);
    assert_eq!(token_call(Some(tx.s.role()), false), LENNY_E_INVALID_ARG);
    assert_eq!(token_call(Some(Role::Receiver), true), LENNY_OK);
    assert_eq!(video_call(Some(Role::Receiver), true), LENNY_E_STATE);
    assert_eq!(video_call(None, true), LENNY_E_INVALID_ARG);
    let mut c = lenny_control { cmd: 999, ..Default::default() };
    assert_eq!(tx.s.send_control(&mut c), Err(LENNY_E_STATE)); // sender can't send controls
}

#[test]
fn per_lens_caps_pan_and_control_state_reach_the_receiver() {
    let cfg = lenny_receiver_config {
        identity: ident(0xDD, "Desk", LENNY_PLATFORM_LINUX),
        port: 0,
        preferred: settings(1920, 1080, 8000),
    };
    let mut rx = Side::new(Session::new_receiver(receiver_config(&cfg)));
    assert!(rx.s.peer_caps().is_none());
    rx.s.trust(&[0x81; 16]);
    assert_eq!(rx.s.start(false), LENNY_OK);
    let mut tx = sender(0x81);
    connect(&mut tx, &mut rx, 0);
    assert!(rx.streaming() && tx.streaming());

    let caps = rx.s.peer_caps().unwrap();
    assert_eq!(caps.lenses[0].modes, MODES[..2].to_vec());
    assert!(caps.lenses[0].zoom_min == 100 && caps.lenses[0].zoom_max == 800);
    assert_eq!(caps.lenses[1].modes, MODES[..1].to_vec());

    let mut pan =
        lenny_control { cmd: lenny_control_cmd::LENNY_CTL_PAN.code(), x: 50000, y: 32768, ..Default::default() };
    let bytes = rx.s.send_control(&mut pan).unwrap();
    rx.out.extend(bytes);
    pump(&mut tx, &mut rx, 0);
    assert!(rx.acks.len() == 1 && tx.controls[0].x == 50000);

    let cs = lenny_control_state { pan_x: 50000, pan_y: 1234, zoom: 250, ..Default::default() };
    let bytes = tx.s.send_control_state(&cs).unwrap();
    tx.out.extend(bytes);
    pump(&mut tx, &mut rx, 0);
    assert_eq!(rx.s.control_state().1.pan_y, 1234);
}

/// A 1.0 phone: pan is refused locally instead of sent, the rest works.
#[test]
fn pan_needs_a_1_1_phone() {
    let mut rx = receiver();
    rx.s.trust(&[0x91; 16]);
    rx.link(0);
    let hello =
        Hello { proto_minor: 0, role: 1, device_id: [0x91; 16], device_name: b"Old".to_vec(), ..Default::default() };
    rx.hear(&to_message(&hello, 0), 0);
    let caps = Caps { modes: MODES.to_vec(), controls: LENNY_CAP_PAN as u64, ..Default::default() };
    rx.hear(&to_message(&caps, 0), 0);
    // Read until CAPS_SELECT, then start streaming with what was asked.
    let mut reader = MessageReader::default();
    reader.feed(&rx.out);
    let mut sel = None;
    while let Status::Message(h, p) = reader.next() {
        assert_eq!(h.ver_minor, 0); // everything after our HELLO uses the negotiated 1.0
        if h.typ == msg::HELLO {
            assert_eq!(Hello::decode(p).unwrap().proto_minor, 1); // while announcing its own 1.1
        }
        if h.typ == msg::CAPS_SELECT {
            sel = CapsSelect::decode(p);
        }
    }
    rx.hear(&to_message(&StreamStart(sel.unwrap().0), 0), 0);
    assert!(rx.streaming());
    let mut pan = lenny_control { cmd: lenny_control_cmd::LENNY_CTL_PAN.code(), x: 1, y: 1, ..Default::default() };
    assert_eq!(rx.s.send_control(&mut pan), Err(LENNY_E_STATE));
    let mut key =
        lenny_control { cmd: lenny_control_cmd::LENNY_CTL_KEYFRAME_REQUEST.code(), ..Default::default() };
    assert!(rx.s.send_control(&mut key).is_ok());
}

#[test]
fn unknown_types_are_skipped_and_undecodable_messages_are_counted() {
    let mut rx = receiver();
    rx.s.trust(&[0x31; 16]);
    let mut tx = sender(0x31);
    connect(&mut tx, &mut rx, 0);
    let mut m = vec![0xAB; HEADER_SIZE + 3];
    put_header(&mut m, &Header { typ: 0x7777, length: 3, ..Default::default() });
    rx.hear(&m, 1);
    assert!(rx.ended.is_none() && rx.s.stats().bad_messages == 0);
    let mut bad = vec![0; HEADER_SIZE + 1];
    put_header(&mut bad, &Header { typ: msg::PING, length: 1, ..Default::default() });
    rx.hear(&bad, 1);
    assert!(rx.ended.is_none() && rx.s.stats().bad_messages == 1);
    assert!(rx.streaming());
}

#[test]
fn garbage_ends_the_link_with_a_protocol_error() {
    let mut rx = receiver();
    rx.link(0);
    rx.hear(b"GET / HTTP/1.1\r\n", 0);
    assert_eq!(rx.ended, Some(LENNY_REASON_PROTOCOL_ERROR));
    let mut reader = MessageReader::default();
    reader.feed(&rx.out);
    assert!(matches!(reader.next(), Status::Message(h, p)
        if h.typ == msg::GOODBYE && Goodbye::decode(p).unwrap().reason == LENNY_REASON_PROTOCOL_ERROR as u16));
}

#[test]
fn another_major_version_is_told() {
    let mut rx = receiver();
    rx.link(0);
    let mut m = vec![0; HEADER_SIZE];
    put_header(&mut m, &Header { ver_major: 2, typ: msg::HELLO, length: 0, ..Default::default() });
    rx.hear(&m, 0);
    assert_eq!(rx.ended, Some(LENNY_REASON_VERSION));
}

#[test]
fn nothing_counts_before_hello_and_silence_ends_the_link() {
    let mut rx = receiver();
    rx.link(0);
    rx.hear(&to_message(&Ping { seq: 1, t1: 1 }, 1), 0);
    assert!(rx.out.is_empty() && rx.ended.is_none());
    rx.tick(3_100_000);
    assert_eq!(rx.ended, Some(LENNY_REASON_LINK_LOST));
}

#[test]
fn a_side_that_never_says_hello_times_out() {
    let mut rx = receiver();
    rx.link(0);
    for s in 1..=5 {
        rx.hear(&[], s * 1_000_000);
    }
    rx.tick(5_000_001);
    assert_eq!(rx.ended, Some(LENNY_REASON_TIMEOUT));
}

#[test]
fn an_unanswered_prompt_is_a_denial() {
    let mut rx = receiver();
    let mut tx = sender(0x32);
    connect(&mut tx, &mut rx, 0);
    assert_eq!(rx.approvals.len(), 1);
    rx.s.received(30_000_000);
    rx.tick(30_000_001);
    assert_eq!(rx.ended, Some(LENNY_REASON_PAIR_DENIED));
}

#[test]
fn congestion_never_raises_the_bitrate() {
    let congested = |kbps: u32| {
        let mut q = Vq::new();
        q.retarget(kbps);
        assert!(matches!(q.push_frame(&[1], 0, 0, LENNY_FRAME_KEYFRAME, 1, 0), Pushed::Queued));
        let told = match q.push_frame(&[2], 250_001, 0, 0, 1, 0) {
            Pushed::Congested(kbps) => kbps,
            _ => panic!("not congested"),
        };
        (told, q.current_kbps)
    };
    assert_eq!(congested(2000), (Some(1600), 1600));
    assert_eq!(congested(1100), (Some(1000), 1000));
    assert_eq!(congested(1000), (None, 1000));
    assert_eq!(congested(600), (None, 600));
}

#[test]
fn giving_up_keeps_the_count_unless_the_link_streamed() {
    let mut a = Attempts { failed: 2 };
    assert!(matches!(a.after(Outcome::Unreachable, true), Next::Close(LENNY_REASON_USER)));
    assert_eq!(a.failed, 2);
    let o = Outcome::Ended { reason: LENNY_REASON_PAIR_DENIED, streamed: true };
    assert!(matches!(a.after(o, false), Next::Close(LENNY_REASON_PAIR_DENIED)));
    assert_eq!(a.failed, 0);
}

#[test]
fn choosing_twice_changes_nothing() {
    let caps = Caps { modes: MODES.to_vec(), max_bitrate_kbps: 6000, ..Default::default() };
    for (w, h, kbps) in [(1000, 1000, 0), (4000, 4000, 9000), (1, 1, 500), (1920, 1080, 6000)] {
        let wish = lenny_stream_settings { codec: 0, has_lens: 1, lens_id: 9, ..settings(w, h, kbps) };
        let first = choose_settings(&caps, wish);
        assert_eq!(choose_settings(&caps, first), first);
    }
    assert_eq!(choose_settings(&caps, settings(1000, 1000, 0)), settings(1280, 720, 6000));
}
