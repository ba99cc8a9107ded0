//! What holds of the video between the two sides: what the phone hands over is what the desktop gets, at the right
//! time, and no faster than the network takes it.
use vstd::prelude::*;
use crate::abi::{LENNY_OK, lenny_stats};
use crate::session::api::{
    after_config, after_frame, after_take, config_code, frame_code, frame_effects, stats_of,
};
use crate::session::effect::{EffectView, StepView, go_on};
use crate::session::laws::hears;
use crate::session::link::{message_step, wrapped};
use crate::session::queue::{config_item, frame_bytes, law_the_first_frame_is_the_oldest, lemma_config_fits};
use crate::session::state::{Phase, Role, SessionView};
use crate::timing::{
    Sample, best_sample, law_best_sample_has_the_shortest_round_trip, law_symmetric_exchange_is_exact,
};
use crate::wire::frame::{Front, Header, after_front, front, header_bytes, law_message_reads_back};
use crate::wire::message::{law_a_message_reads_back, message_bytes};
use crate::wire::simple::{
    Pong, VideoConfig, VideoConfigView, law_pong_round_trip, law_video_config_round_trip,
};
use crate::wire::video::{VideoFrameMeta, law_video_frame_round_trip, lemma_meta_len, meta_bytes};

verus! {

// ---- The bytes of a stream ---------------------------------------------------------------------

/// What a receiver makes of the first message of `bytes`: where it then stands, what it does, and the bytes that stay.
#[verifier::opaque]
pub open spec fn reads(rx: SessionView, bytes: Seq<u8>, now: i64, at: i64) -> Option<(SessionView, StepView, Seq<u8>)> {
    match front(bytes) {
        Front::Message(h, p) => {
            let (s, step) = message_step(rx, h, p, now, at);
            Some((s, step, after_front(bytes)))
        },
        _ => None,
    }
}

/// A receiver on a running stream.
pub open spec fn watches(rx: SessionView) -> bool {
    rx.role == Role::Receiver && rx.link.phase == Phase::Streaming
}

proof fn lemma_config_arrives(rx: SessionView, data: Seq<u8>, minor: u8, rest: Seq<u8>, now: i64, at: i64)
    requires
        watches(rx),
        data.len() <= 60000,
    ensures
        reads(rx, config_item(data, minor).msg + rest, now, at) == Some(
            (rx, go_on(seq![EffectView::VideoConfig(data)]), rest),
        ),
{
    reveal(reads);
    let m = VideoConfigView { codec: crate::abi::LENNY_CODEC_H264, config: data };
    lemma_config_fits(m, minor);
    law_a_message_reads_back::<VideoConfig>(m, minor, rest);
    law_video_config_round_trip(m, minor);
    assert(config_item(data, minor).msg == message_bytes::<VideoConfig>(m, minor));
}

/// A configuration that the encoder hands over is sent as it is: on a running stream at once, behind all that waits.
/// The receiver reads one message, finds the very bytes, and nothing else changes. Between 1 and 60000 bytes are
/// accepted.
pub proof fn law_a_configuration_arrives(
    tx: SessionView,
    rx: SessionView,
    data: Seq<u8>,
    rest: Seq<u8>,
    now: i64,
    at: i64,
)
    requires
        tx.role == Role::Sender,
        tx.streaming,
        1 <= data.len() <= 60000,
        watches(rx),
    ensures
        config_code(tx, data.len()) == LENNY_OK,
        after_config(tx, data).vq.video_config == data,
        after_config(tx, data).vq.q.len() == tx.vq.q.len() + 1,
        after_config(tx, data).vq.q.take(tx.vq.q.len() as int) == tx.vq.q,
        reads(rx, after_config(tx, data).vq.q.last().msg + rest, now, at) == Some(
            (rx, go_on(seq![EffectView::VideoConfig(data)]), rest),
        ),
{
    lemma_config_arrives(rx, data, tx.minor, rest, now, at);
    assert(after_config(tx, data).vq.q.take(tx.vq.q.len() as int) =~= tx.vq.q);
}

/// Every keyframe is sent right behind the configuration in force: the receiver gets that configuration as it was
/// handed over, then the keyframe.
#[verifier::spinoff_prover]
#[verifier::rlimit(40)]
pub proof fn law_a_keyframe_follows_its_configuration(
    tx: SessionView,
    rx: SessionView,
    data: Seq<u8>,
    pts_us: i64,
    orientation: u8,
    flags: u8,
    rest: Seq<u8>,
    now: i64,
    at: i64,
)
    requires
        tx.role == Role::Sender,
        tx.streaming,
        1 <= tx.vq.video_config.len() <= 60000,
        1 <= data.len() <= 4194304 - 16,
        flags % 2 == 1,
        watches(rx),
    ensures
        frame_code(tx, data.len()) == LENNY_OK,
        frame_effects(tx, pts_us, flags).len() == 0,
        ({
            let n = tx.vq.q.len() as int;
            let q = after_frame(tx, data, pts_us, orientation, flags, now).vq.q;
            &&& q.len() == n + 2
            &&& q.take(n) == tx.vq.q
            &&& reads(rx, q[n].msg + (q[n + 1].msg + rest), now, at) == Some(
                (rx, go_on(seq![EffectView::VideoConfig(tx.vq.video_config)]), q[n + 1].msg + rest),
            )
            &&& reads(rx, q[n + 1].msg + rest, now, at) matches Some((_, step, left)) && left == rest
                && step.effects.len() == 1 && is_picture(
                step.effects[0],
                tx.vq.frame_seq,
                data,
                pts_us,
                orientation,
                flags,
            )
        }),
{
    let n = tx.vq.q.len() as int;
    let w = after_frame(tx, data, pts_us, orientation, flags, now);
    lemma_config_arrives(rx, tx.vq.video_config, tx.minor, w.vq.q[n + 1].msg + rest, now, at);
    lemma_frame_arrives(rx, tx.minor, tx.vq.frame_seq, data, pts_us, orientation, flags, rest, now, at);
    assert(w.vq.q.take(n) =~= tx.vq.q);
}

/// The effect hands out this very picture.
pub open spec fn is_picture(
    e: EffectView,
    frame_seq: u32,
    data: Seq<u8>,
    pts_us: i64,
    orientation: u8,
    flags: u8,
) -> bool {
    e matches EffectView::VideoFrame(f) && f.frame_seq == frame_seq && f.data == data && f.pts_us == pts_us
        && f.orientation == orientation % 4 && f.flags == flags
}

proof fn lemma_frame_arrives(
    rx: SessionView,
    minor: u8,
    seq_no: u32,
    data: Seq<u8>,
    pts_us: i64,
    orientation: u8,
    flags: u8,
    rest: Seq<u8>,
    now: i64,
    at: i64,
)
    requires
        watches(rx),
        data.len() <= 4194304 - 16,
    ensures
        ({
            let m = VideoFrameMeta { frame_seq: seq_no, pts_us, orientation: (orientation % 4) as u8, flags };
            reads(rx, frame_bytes(minor, m, data) + rest, now, at) matches Some((s, step, left)) && left == rest
                && step.end is None && step.effects.len() == 1 && is_picture(
                step.effects[0],
                seq_no,
                data,
                pts_us,
                orientation,
                flags,
            )
        }),
{
    reveal(reads);
    let m = VideoFrameMeta { frame_seq: seq_no, pts_us, orientation: (orientation % 4) as u8, flags };
    let h = Header {
        ver_major: 1,
        ver_minor: minor,
        typ: 0x31,
        flags: 0,
        length: (16 + data.len()) as u32,
    };
    let p = meta_bytes(m) + data;
    lemma_meta_len(m);
    law_video_frame_round_trip(m, data);
    law_message_reads_back(h, p, rest);
    assert(frame_bytes(minor, m, data) + rest =~= header_bytes(h) + p + rest);
}

/// A frame that is no keyframe goes out behind all that waits, unless it is useless or the queue is behind. The first
/// frame that waits stands at `i`, if there is one; the queue is behind when that one was captured more than a quarter
/// of a second before.
#[verifier::spinoff_prover]
#[verifier::rlimit(40)]
pub proof fn law_a_frame_waits_its_turn(
    tx: SessionView,
    rx: SessionView,
    i: int,
    data: Seq<u8>,
    pts_us: i64,
    orientation: u8,
    flags: u8,
    rest: Seq<u8>,
    now: i64,
    at: i64,
)
    requires
        tx.role == Role::Sender,
        tx.streaming,
        1 <= data.len() <= 4194304 - 16,
        flags % 2 == 0,
        watches(rx),
        0 <= i <= tx.vq.q.len(),
        forall|j: int| 0 <= j < i ==> !(#[trigger] tx.vq.q[j]).frame,
        i < tx.vq.q.len() ==> tx.vq.q[i].frame,
    ensures
        frame_code(tx, data.len()) == LENNY_OK,
        ({
            let n = tx.vq.q.len() as int;
            let t = after_frame(tx, data, pts_us, orientation, flags, now);
            let told = frame_effects(tx, pts_us, flags);
            let late = i < n && pts_us - tx.vq.q[i].pts_us > 250_000;
            let k = tx.vq.current_kbps as int;
            let less = if k <= 1000 {
                k
            } else if k * 8 / 10 < 1000 {
                1000
            } else {
                k * 8 / 10
            };
            if tx.vq.drop_until_key {
                t == tx && told.len() == 0
            } else if late {
                &&& t.vq.drop_until_key
                &&& t.vq.last_congestion == now
                &&& t.vq.current_kbps == less
                &&& t.vq.target_kbps == tx.vq.target_kbps
                &&& t.vq.video_config == tx.vq.video_config
                &&& told[0] == EffectView::KeyframeRequest
                &&& told.len() == (if less == k {
                    1int
                } else {
                    2
                })
                &&& less != k ==> told[1] == EffectView::Bitrate(less as u32)
                &&& t.stats == (lenny_stats {
                    dropped_frames: if tx.stats.dropped_frames == u32::MAX {
                        0
                    } else {
                        (tx.stats.dropped_frames + 1) as u32
                    },
                    bitrate_kbps: if less == k {
                        tx.stats.bitrate_kbps
                    } else {
                        less as u32
                    },
                    ..tx.stats
                })
            } else {
                &&& told.len() == 0
                &&& t.stats == tx.stats
                &&& t.vq.q.len() == n + 1
                &&& t.vq.q.take(n) == tx.vq.q
                &&& t.vq.q[n].frame && t.vq.q[n].pts_us == pts_us && !t.vq.q[n].key
                &&& reads(rx, t.vq.q[n].msg + rest, now, at) matches Some((_, step, left)) && left == rest
                    && step.effects.len() == 1 && is_picture(
                    step.effects[0],
                    tx.vq.frame_seq,
                    data,
                    pts_us,
                    orientation,
                    flags,
                )
                &&& t.vq.frame_seq == (if tx.vq.frame_seq == u32::MAX {
                    0
                } else {
                    tx.vq.frame_seq + 1
                })
            }
        }),
{
    let n = tx.vq.q.len() as int;
    let t = after_frame(tx, data, pts_us, orientation, flags, now);
    law_the_first_frame_is_the_oldest(tx.vq.q, i);
    lemma_frame_arrives(rx, tx.minor, tx.vq.frame_seq, data, pts_us, orientation, flags, rest, now, at);
    if !tx.vq.drop_until_key && !(i < n && pts_us - tx.vq.q[i].pts_us > 250_000) {
        assert(t.vq.q.take(n) =~= tx.vq.q);
    }
}

/// Nothing is taken from the encoder but what can be sent: a frame of 1 to 4194288 bytes and a configuration of 1 to
/// 60000, by a sender. Frames only on a running stream.
pub proof fn law_only_what_can_be_sent_is_taken(s: SessionView, len: nat)
    ensures
        frame_code(s, len) == LENNY_OK <==> s.role == Role::Sender && s.streaming && 1 <= len <= 4194288,
        config_code(s, len) == LENNY_OK <==> s.role == Role::Sender && 1 <= len <= 60000,
        s.role == Role::Sender && !(1 <= len <= 4194288) ==> frame_code(s, len) == -1,
        s.role == Role::Sender && !(1 <= len <= 60000) ==> config_code(s, len) == -1,
        s.role != Role::Sender ==> frame_code(s, len) == -2 && config_code(s, len) == -2,
        s.role == Role::Sender && !s.streaming && 1 <= len <= 4194288 ==> frame_code(s, len) == -2,
{
}

/// The writer takes what waits longest, and leaves the rest in order. After more than five seconds without congestion,
/// and five after the last step, the bitrate goes up by a tenth, to the negotiated one at most, and the encoder is
/// told.
pub proof fn law_the_writer_takes_the_oldest(tx: SessionView, now: i64)
    ensures
        ({
            let t = after_take(tx, now);
            let k = tx.vq.current_kbps as int;
            let more = k * 11 / 10 + 1;
            let due = k < tx.vq.target_kbps && now - tx.vq.last_congestion > 5_000_000 && now >= tx.vq.next_raise;
            &&& tx.vq.q.len() > 0 ==> t.vq.q.len() == tx.vq.q.len() - 1 && forall|i: int|
                0 <= i < t.vq.q.len() ==> #[trigger] t.vq.q[i] == tx.vq.q[i + 1]
            &&& tx.vq.q.len() == 0 ==> t.vq.q.len() == 0
            &&& t.vq.current_kbps == (if !due {
                k
            } else if more < tx.vq.target_kbps {
                more
            } else {
                tx.vq.target_kbps as int
            })
            &&& t.stats.bitrate_kbps == (if due {
                t.vq.current_kbps
            } else {
                tx.stats.bitrate_kbps
            })
            &&& due && now <= i64::MAX - 5_000_000 ==> t.vq.next_raise == now + 5_000_000
            &&& !due ==> t.vq.next_raise == tx.vq.next_raise
            &&& t.vq.target_kbps == tx.vq.target_kbps
            &&& t.vq.drop_until_key == tx.vq.drop_until_key
            &&& t.vq.video_config == tx.vq.video_config
            &&& t.vq.frame_seq == tx.vq.frame_seq
        }),
{
}

// ---- Clocks ------------------------------------------------------------------------------------

/// Every exchange so far said that the other clock is ahead by `a`.
pub open spec fn all_ahead(clock: Seq<Sample>, a: i64) -> bool {
    forall|i: int| 0 <= i < clock.len() ==> (#[trigger] clock[i]).offset_us == a
}

/// An exchange with a phone whose clock is ahead by `a` tells just that, where both ways take as long: our PING left at
/// `t1`, took `way`, was held for `held`, and the PONG took `way` back.
pub proof fn law_a_pong_tells_how_far_the_clock_is_ahead(
    rx: SessionView,
    seq_no: u32,
    minor: u8,
    t1: i64,
    way: int,
    held: int,
    a: i64,
)
    requires
        rx.link.phase != Phase::HelloWait,
        0 <= way,
        0 <= held,
        i64::MIN <= t1 + way + a,
        t1 + way + a + held <= i64::MAX,
        t1 + way + held + way <= i64::MAX,
        2 * way <= i64::MAX,
        all_ahead(rx.clock, a),
    ensures
        ({
            let t2 = (t1 + way + a) as i64;
            let t3 = (t1 + way + a + held) as i64;
            let t4 = (t1 + way + held + way) as i64;
            let (s, step) = hears::<Pong>(rx, Pong { seq: seq_no, t1, t2, t3 }, minor, t4);
            &&& s == (SessionView { clock: s.clock, ..rx })
            &&& step.effects.len() == 0 && step.end is None
            &&& s.clock.len() > 0
            &&& s.clock.last().rtt_us == 2 * way
            &&& all_ahead(s.clock, a)
            &&& stats_of(s).clock_offset_us == a
            &&& stats_of(s).rtt_us <= 2 * way
        }),
{
    let t2 = (t1 + way + a) as i64;
    let t3 = (t1 + way + a + held) as i64;
    let t4 = (t1 + way + held + way) as i64;
    let m = Pong { seq: seq_no, t1, t2, t3 };
    law_pong_round_trip(m, minor);
    law_symmetric_exchange_is_exact(t1, way, held, a as int);
    let c = hears::<Pong>(rx, m, minor, t4).0.clock;
    assert(c.last() == (Sample { rtt_us: (2 * way) as i64, offset_us: a }));
    assert forall|i: int| 0 <= i < c.len() implies (#[trigger] c[i]).offset_us == a by {
        if i < c.len() - 1 {
            assert(c[i] == rx.clock[i + (rx.clock.len() + 1 - c.len())]);
        }
    }
    law_best_sample_has_the_shortest_round_trip(c);
    let k = choose|k: int| 0 <= k < c.len() && c[k] == best_sample(c);
    assert(c[k].offset_us == a);
    assert(best_sample(c).rtt_us <= c[c.len() - 1].rtt_us);
}

/// A frame that was captured at `t` by our clock, on a phone whose clock is ahead by `a`, is handed out with `t`. The
/// first one that is measured gives the latency: the time from its capture to its arrival.
pub proof fn law_capture_times_are_told_by_our_clock(
    rx: SessionView,
    minor: u8,
    m: VideoFrameMeta,
    data: Seq<u8>,
    rest: Seq<u8>,
    t: i64,
    a: i64,
    now: i64,
    at: i64,
)
    requires
        watches(rx),
        rx.clock.len() > 0,
        all_ahead(rx.clock, a),
        data.len() <= 4194304 - 16,
        m.pts_us == t + a,
    ensures
        reads(rx, frame_bytes(minor, m, data) + rest, now, at) matches Some((s, step, _)) && {
            &&& step.effects[0] matches EffectView::VideoFrame(f) && f.local_pts_us == t
            &&& rx.stats.latency_us < 0 && i64::MIN <= now - t <= i64::MAX ==> s.stats.latency_us == now - t
            &&& rx.stats.latency_us >= 0 && 0 <= now - t && rx.stats.latency_us * 7 + (now - t) <= i64::MAX
                ==> 8 * s.stats.latency_us <= rx.stats.latency_us * 7 + (now - t) < 8 * s.stats.latency_us + 8
            &&& rx.stats.latency_us >= 0 && i64::MIN <= now - t <= i64::MAX && rx.stats.latency_us * 7 + (now - t)
                <= i64::MAX ==> -8 < rx.stats.latency_us * 7 + (now - t) - 8 * s.stats.latency_us < 8
            &&& s.clock == rx.clock
        },
{
    reveal(reads);
    law_best_sample_has_the_shortest_round_trip(rx.clock);
    let k = choose|k: int| 0 <= k < rx.clock.len() && rx.clock[k] == best_sample(rx.clock);
    assert(rx.clock[k].offset_us == a);
    let p = meta_bytes(m) + data;
    let h = Header { ver_major: 1, ver_minor: minor, typ: 0x31, flags: 0, length: (16 + data.len()) as u32 };
    lemma_meta_len(m);
    law_video_frame_round_trip(m, data);
    law_message_reads_back(h, p, rest);
    assert(frame_bytes(minor, m, data) + rest =~= header_bytes(h) + p + rest);
    lemma_wrapped_in_range(t as int);
    lemma_wrapped_in_range(now - t);
    lemma_wrapped_in_range(rx.stats.latency_us * 7 + (now - t));
}

/// While the clocks are not known, a frame has no time of our own, and the latency stays unknown.
pub proof fn law_unknown_clocks_tell_no_time(
    rx: SessionView,
    minor: u8,
    m: VideoFrameMeta,
    data: Seq<u8>,
    rest: Seq<u8>,
    now: i64,
    at: i64,
)
    requires
        watches(rx),
        rx.clock.len() == 0,
        data.len() <= 4194304 - 16,
    ensures
        reads(rx, frame_bytes(minor, m, data) + rest, now, at) matches Some((s, step, _)) && {
            &&& step.effects[0] matches EffectView::VideoFrame(f) && f.local_pts_us == 0
            &&& s.stats.latency_us == rx.stats.latency_us
        },
{
    reveal(reads);
    let p = meta_bytes(m) + data;
    let h = Header { ver_major: 1, ver_minor: minor, typ: 0x31, flags: 0, length: (16 + data.len()) as u32 };
    lemma_meta_len(m);
    law_video_frame_round_trip(m, data);
    law_message_reads_back(h, p, rest);
    assert(frame_bytes(minor, m, data) + rest =~= header_bytes(h) + p + rest);
}

/// Every frame that comes in counts, with the bytes of its picture.
pub proof fn law_frames_are_counted(
    rx: SessionView,
    minor: u8,
    m: VideoFrameMeta,
    data: Seq<u8>,
    rest: Seq<u8>,
    now: i64,
    at: i64,
)
    requires
        watches(rx),
        data.len() <= 4194304 - 16,
        rx.stats.frames < u64::MAX,
        rx.stats.bytes + data.len() <= u64::MAX,
    ensures
        reads(rx, frame_bytes(minor, m, data) + rest, now, at) matches Some((s, _, _)) && s == (SessionView {
            stats: lenny_stats {
                frames: (rx.stats.frames + 1) as u64,
                bytes: (rx.stats.bytes + data.len()) as u64,
                latency_us: s.stats.latency_us,
                ..rx.stats
            },
            ..rx
        }),
{
    reveal(reads);
    let p = meta_bytes(m) + data;
    let h = Header { ver_major: 1, ver_minor: minor, typ: 0x31, flags: 0, length: (16 + data.len()) as u32 };
    lemma_meta_len(m);
    law_video_frame_round_trip(m, data);
    law_message_reads_back(h, p, rest);
    assert(frame_bytes(minor, m, data) + rest =~= header_bytes(h) + p + rest);
}

/// A number in range is its own wrapped value.
proof fn lemma_wrapped_in_range(x: int)
    ensures
        i64::MIN <= x <= i64::MAX ==> wrapped(x) == x,
{
}

} // verus!
