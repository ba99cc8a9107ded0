//! The sender's video queue. The encoder puts frames in and a writer sends them, so that a slow
//! network never blocks the encoder. When the queue falls behind, old video is dropped.
use std::collections::VecDeque;
use vstd::prelude::*;
use crate::abi::LENNY_CODEC_H264;
use crate::bytes::copy;
use crate::session::negotiate::DEFAULT_BITRATE_KBPS;
use crate::timing::{MS, SEC, later, more_than, time_later};
use crate::wire::frame::{HEADER_SIZE, Header, VERSION_MAJOR, header_bytes, lemma_header_len, put_header};
use crate::wire::message::{Message, message_bytes, to_message};
use crate::wire::msg;
use crate::wire::simple::{VideoConfig, VideoConfigView};
use crate::wire::tlv::{all_fit, tlv_bytes};
use crate::wire::video::{
    VIDEO_FRAME_META_SIZE, VideoFrameMeta, encode_video_meta, lemma_meta_len, meta_bytes,
};

verus! {

/// A configuration must fit in one TLV field.
pub const MAX_VIDEO_CONFIG: usize = 60000;

/// More than this much video waiting to be sent means that we are behind. Measured in capture
/// time, not bytes: a single keyframe can be bigger than 250 ms of average bitrate.
pub const QUEUE_BUDGET_US: i64 = 250 * MS;

pub const MIN_BITRATE_KBPS: u32 = 1000;

/// Healthy for this long: the bitrate goes up a step.
pub const RAISE_INTERVAL: i64 = 5 * SEC;

/// The largest picture that fits in a VIDEO_FRAME behind its meta data.
pub const MAX_FRAME: usize = 4194288;

/// A message that waits to be sent.
pub struct Outgoing {
    pub msg: Vec<u8>,
    /// Video bytes, for the statistics.
    pub payload: usize,
    /// Frames only.
    pub pts_us: i64,
    pub frame: bool,
    pub key: bool,
}

#[verifier::ext_equal]
pub struct OutgoingView {
    pub msg: Seq<u8>,
    pub payload: usize,
    pub pts_us: i64,
    pub frame: bool,
    pub key: bool,
}

impl View for Outgoing {
    type V = OutgoingView;

    open spec fn view(&self) -> OutgoingView {
        OutgoingView {
            msg: self.msg@,
            payload: self.payload,
            pts_us: self.pts_us,
            frame: self.frame,
            key: self.key,
        }
    }
}

/// What a queue of messages stands for.
pub open spec fn outgoing_view(q: Seq<Outgoing>) -> Seq<OutgoingView> {
    q.map_values(|o: Outgoing| o@)
}

/// The sender's video queue.
pub struct Vq {
    pub q: VecDeque<Outgoing>,
    /// Frames are dropped until the next keyframe.
    pub drop_until_key: bool,
    /// Resent before every keyframe.
    pub video_config: Vec<u8>,
    pub frame_seq: u32,
    /// The negotiated bitrate.
    pub target_kbps: u32,
    /// The bitrate after congestion control.
    pub current_kbps: u32,
    pub last_congestion: i64,
    pub next_raise: i64,
}

#[verifier::ext_equal]
pub struct VqView {
    pub q: Seq<OutgoingView>,
    pub drop_until_key: bool,
    pub video_config: Seq<u8>,
    pub frame_seq: u32,
    pub target_kbps: u32,
    pub current_kbps: u32,
    pub last_congestion: i64,
    pub next_raise: i64,
}

impl View for Vq {
    type V = VqView;

    open spec fn view(&self) -> VqView {
        VqView {
            q: outgoing_view(self.q@),
            drop_until_key: self.drop_until_key,
            video_config: self.video_config@,
            frame_seq: self.frame_seq,
            target_kbps: self.target_kbps,
            current_kbps: self.current_kbps,
            last_congestion: self.last_congestion,
            next_raise: self.next_raise,
        }
    }
}

/// A queue before anything was sent.
pub open spec fn empty_queue() -> VqView {
    VqView {
        q: Seq::empty(),
        drop_until_key: true,
        video_config: Seq::empty(),
        frame_seq: 0,
        target_kbps: 0,
        current_kbps: 0,
        last_congestion: 0,
        next_raise: 0,
    }
}

/// Only frames are keyframes.
pub open spec fn queue_wf(q: Seq<OutgoingView>) -> bool {
    forall|i: int| 0 <= i < q.len() && (#[trigger] q[i]).key ==> q[i].frame
}

/// Whether a frame with these flags is a keyframe.
pub open spec fn is_key(flags: u8) -> bool {
    flags % 2 == 1
}

/// A configuration as it goes out.
pub open spec fn config_item(config: Seq<u8>, minor: u8) -> OutgoingView {
    OutgoingView {
        msg: message_bytes::<VideoConfig>(
            VideoConfigView { codec: LENNY_CODEC_H264, config },
            minor,
        ),
        payload: 0,
        pts_us: 0,
        frame: false,
        key: false,
    }
}

/// A VIDEO_FRAME on the wire.
pub open spec fn frame_bytes(minor: u8, m: VideoFrameMeta, data: Seq<u8>) -> Seq<u8> {
    header_bytes(
        Header {
            ver_major: VERSION_MAJOR,
            ver_minor: minor,
            typ: msg::VIDEO_FRAME,
            flags: 0,
            length: (VIDEO_FRAME_META_SIZE + data.len()) as u32,
        },
    ) + meta_bytes(m) + data
}

/// A frame as it goes out.
pub open spec fn frame_item(
    minor: u8,
    seq: u32,
    data: Seq<u8>,
    pts_us: i64,
    orientation: u8,
    flags: u8,
) -> OutgoingView {
    OutgoingView {
        msg: frame_bytes(
            minor,
            VideoFrameMeta {
                frame_seq: seq,
                pts_us,
                orientation: (orientation % 4) as u8,
                flags,
            },
            data,
        ),
        payload: data.len() as usize,
        pts_us,
        frame: true,
        key: is_key(flags),
    }
}

/// Where the newest keyframe stands.
pub open spec fn newest_key(q: Seq<OutgoingView>) -> Option<int>
    decreases q.len(),
{
    if q.len() == 0 {
        None
    } else if q.last().key {
        Some(q.len() - 1)
    } else {
        newest_key(q.drop_last())
    }
}

/// What is kept of a backlog: the newest keyframe, and the configuration right before it.
pub open spec fn kept(q: Seq<OutgoingView>) -> Seq<OutgoingView> {
    match newest_key(q) {
        None => Seq::empty(),
        Some(i) => if i > 0 && !q[i - 1].frame {
            seq![q[i - 1], q[i]]
        } else {
            seq![q[i]]
        },
    }
}

/// The capture time of the oldest frame that waits.
pub open spec fn oldest_pts(q: Seq<OutgoingView>) -> Option<i64>
    decreases q.len(),
{
    if q.len() == 0 {
        None
    } else {
        match oldest_pts(q.drop_last()) {
            Some(t) => Some(t),
            None => if q.last().frame {
                Some(q.last().pts_us)
            } else {
                None
            },
        }
    }
}

/// Whether the queue is behind when a frame captured at `pts_us` comes.
pub open spec fn behind(q: Seq<OutgoingView>, pts_us: i64) -> bool {
    oldest_pts(q) matches Some(t) && pts_us - t > QUEUE_BUDGET_US
}

/// One step down: 20 % less, but not below `MIN_BITRATE_KBPS`. A bitrate that is not above that stays as it is.
pub open spec fn lowered(kbps: u32) -> u32 {
    if kbps <= MIN_BITRATE_KBPS {
        kbps
    } else if kbps as int * 8 / 10 > MIN_BITRATE_KBPS {
        (kbps as int * 8 / 10) as u32
    } else {
        MIN_BITRATE_KBPS
    }
}

/// One step up: 10 % more, but not above the negotiated bitrate.
pub open spec fn raised(kbps: u32, target: u32) -> u32 {
    if kbps as int * 11 / 10 + 1 < target {
        (kbps as int * 11 / 10 + 1) as u32
    } else {
        target
    }
}

/// What became of a frame.
#[derive(Clone, Copy, Debug, PartialEq, Eq, Structural)]
pub enum Pushed {
    /// It waits to be sent.
    Queued,
    /// It depends on a keyframe that was never sent.
    Useless,
    /// The queue was behind: the backlog is gone, and so is the frame. A keyframe is needed, and
    /// the encoder should produce this many kbit/s from now on, if that is less than before.
    Congested(Option<u32>),
}

/// What becomes of a frame that the encoder hands over.
pub open spec fn push_outcome(v: VqView, pts_us: i64, flags: u8) -> Pushed {
    if v.drop_until_key && !is_key(flags) {
        Pushed::Useless
    } else if !is_key(flags) && behind(v.q, pts_us) {
        Pushed::Congested(
            if lowered(v.current_kbps) == v.current_kbps {
                None
            } else {
                Some(lowered(v.current_kbps))
            },
        )
    } else {
        Pushed::Queued
    }
}

/// The queue after that.
pub open spec fn pushed(
    v: VqView,
    data: Seq<u8>,
    pts_us: i64,
    orientation: u8,
    flags: u8,
    minor: u8,
    now: i64,
) -> VqView {
    match push_outcome(v, pts_us, flags) {
        Pushed::Useless => v,
        Pushed::Congested(_) => VqView {
            q: kept(v.q),
            drop_until_key: true,
            last_congestion: now,
            current_kbps: lowered(v.current_kbps),
            ..v
        },
        Pushed::Queued => {
            let head = if is_key(flags) && v.video_config.len() > 0 {
                v.q.push(config_item(v.video_config, minor))
            } else {
                v.q
            };
            VqView {
                q: head.push(frame_item(minor, v.frame_seq, data, pts_us, orientation, flags)),
                drop_until_key: false,
                frame_seq: if v.frame_seq == u32::MAX {
                    0
                } else {
                    (v.frame_seq + 1) as u32
                },
                ..v
            }
        },
    }
}

/// The queue after the encoder handed over a configuration.
pub open spec fn with_config(v: VqView, data: Seq<u8>, streaming: bool, minor: u8) -> VqView {
    VqView {
        video_config: data,
        q: if streaming {
            v.q.push(config_item(data, minor))
        } else {
            v.q
        },
        ..v
    }
}

/// Whether it is time to creep back up towards the negotiated bitrate.
pub open spec fn raise_due(v: VqView, now: i64) -> bool {
    v.current_kbps < v.target_kbps && now - v.last_congestion > RAISE_INTERVAL && now
        >= v.next_raise
}

/// The queue after the writer took what is next, which it does at least once a second.
pub open spec fn taken(v: VqView, now: i64) -> VqView {
    let w = if raise_due(v, now) {
        VqView {
            current_kbps: raised(v.current_kbps, v.target_kbps),
            next_raise: later(now, RAISE_INTERVAL),
            ..v
        }
    } else {
        v
    };
    VqView {
        q: if v.q.len() > 0 {
            v.q.skip(1)
        } else {
            v.q
        },
        ..w
    }
}

/// The queue when the link is gone: the next link starts from a keyframe.
pub open spec fn emptied(v: VqView) -> VqView {
    VqView { q: Seq::empty(), drop_until_key: true, ..v }
}

/// The queue of a stream with newly negotiated settings.
pub open spec fn retargeted(v: VqView, bitrate_kbps: u32) -> VqView {
    let kbps = if bitrate_kbps != 0 {
        bitrate_kbps
    } else {
        DEFAULT_BITRATE_KBPS
    };
    VqView { target_kbps: kbps, current_kbps: kbps, last_congestion: 0, next_raise: 0, ..v }
}

/// The message of a VIDEO_FRAME.
fn make_frame(minor: u8, m: &VideoFrameMeta, data: &[u8]) -> (r: Vec<u8>)
    requires
        data@.len() <= MAX_FRAME,
    ensures
        r@ == frame_bytes(minor, *m, data@),
{
    let h = Header {
        ver_major: VERSION_MAJOR,
        ver_minor: minor,
        typ: msg::VIDEO_FRAME,
        flags: 0,
        length: (VIDEO_FRAME_META_SIZE + data.len()) as u32,
    };
    let mut head: Vec<u8> = vec![0; HEADER_SIZE];
    put_header(head.as_mut_slice(), &h);
    let mut meta: Vec<u8> = vec![0; VIDEO_FRAME_META_SIZE];
    encode_video_meta(meta.as_mut_slice(), m);
    proof {
        lemma_header_len(h);
        lemma_meta_len(*m);
        assert(head@ =~= header_bytes(h));
        assert(meta@ =~= meta_bytes(*m));
    }
    head.append(&mut meta);
    head.extend_from_slice(data);
    assert(head@ =~= frame_bytes(minor, *m, data@));
    head
}

impl Vq {
    pub open spec fn wf(&self) -> bool {
        queue_wf(self@.q)
    }

    pub fn new() -> (r: Vq)
        ensures
            r@ == empty_queue(),
            r.wf(),
    {
        let r = Vq {
            q: VecDeque::new(),
            drop_until_key: true,
            video_config: Vec::new(),
            frame_seq: 0,
            target_kbps: 0,
            current_kbps: 0,
            last_congestion: 0,
            next_raise: 0,
        };
        assert(r@ =~= empty_queue());
        r
    }

    fn push(&mut self, o: Outgoing)
        ensures
            final(self)@ == (VqView { q: old(self)@.q.push(o@), ..old(self)@ }),
    {
        self.q.push_back(o);
        assert(self@.q =~= old(self)@.q.push(o@));
    }

    fn push_config(&mut self, minor: u8)
        ensures
            final(self)@ == (VqView {
                q: old(self)@.q.push(config_item(old(self)@.video_config, minor)),
                ..old(self)@
            }),
    {
        let m = VideoConfig {
            codec: LENNY_CODEC_H264,
            config: copy(self.video_config.as_slice()),
        };
        let msg = to_message(&m, minor);
        let o = Outgoing { msg, payload: 0, pts_us: 0, frame: false, key: false };
        assert(o@ =~= config_item(self@.video_config, minor));
        self.push(o);
    }

    /// Keeps the configuration for later keyframes and, on a running stream, sends it too. Queued
    /// (not sent directly) so it stays in order with the frames around it.
    pub fn set_config(&mut self, data: &[u8], streaming: bool, minor: u8)
        requires
            old(self).wf(),
        ensures
            final(self).wf(),
            final(self)@ == with_config(old(self)@, data@, streaming, minor),
    {
        self.video_config = copy(data);
        if streaming {
            self.push_config(minor);
        }
    }

    fn oldest(&self) -> (r: Option<i64>)
        ensures
            r == oldest_pts(self@.q),
    {
        let mut r: Option<i64> = None;
        let mut i: usize = 0;
        let ghost all = self@.q;
        assert(all.take(0) =~= Seq::empty());
        while i < self.q.len()
            invariant
                i <= self.q@.len(),
                all == self@.q,
                r == oldest_pts(all.take(i as int)),
            decreases self.q.len() - i,
        {
            assert(all.take(i + 1).drop_last() =~= all.take(i as int));
            assert(all[i as int] == self.q@[i as int]@);
            if r.is_none() && self.q[i].frame {
                r = Some(self.q[i].pts_us);
            }
            i = i + 1;
        }
        assert(all.take(all.len() as int) =~= all);
        r
    }

    /// Keeps only the newest queued keyframe (and the config right before it): it's what the
    /// receiver can restart from. Everything else, especially P-frames that depend on dropped
    /// frames, goes.
    fn drop_backlog(&mut self)
        requires
            old(self).wf(),
        ensures
            final(self).wf(),
            final(self)@ == (VqView { q: kept(old(self)@.q), ..old(self)@ }),
    {
        let ghost all = self@.q;
        let ghost rest = self@;
        let mut keep: VecDeque<Outgoing> = VecDeque::new();
        let mut config: Option<Outgoing> = None;
        let ghost mut n: int = 0;
        assert(all.skip(0) =~= all);
        assert(all.take(0) =~= Seq::empty());
        assert(outgoing_view(keep@) =~= Seq::empty());
        loop
            invariant
                0 <= n <= all.len(),
                queue_wf(all),
                self@ == (VqView { q: all.skip(n), ..rest }),
                outgoing_view(keep@) == kept(all.take(n)),
                match config {
                    Some(c) => n > 0 && c@ == all[n - 1] && !c@.frame,
                    None => n == 0 || all[n - 1].frame,
                },
            ensures
                self@ == (VqView { q: all.skip(n), ..rest }),
                outgoing_view(keep@) == kept(all),
            decreases all.len() - n,
        {
            let ghost before = self.q@;
            assert(outgoing_view(before).len() == before.len());
            match self.q.pop_front() {
                None => {
                    assert(all.take(n) =~= all);
                    break ;
                },
                Some(o) => {
                    proof {
                        assert(outgoing_view(before) == all.skip(n));
                        assert(before.len() > 0 && n < all.len());
                        assert(o@ == outgoing_view(before)[0]);
                        assert(o@ == all[n]);
                        assert forall|j: int| 0 <= j < self.q@.len() implies #[trigger] outgoing_view(
                            self.q@,
                        )[j] == all[n + 1 + j] by {
                            assert(self.q@[j] == before[j + 1]);
                            assert(outgoing_view(before)[j + 1] == all.skip(n)[j + 1]);
                        }
                        assert(outgoing_view(self.q@) =~= all.skip(n + 1));
                        assert(all.take(n + 1).drop_last() =~= all.take(n));
                        lemma_newest_key_range(all.take(n));
                        n = n + 1;
                    }
                    if o.key {
                        let mut fresh: VecDeque<Outgoing> = VecDeque::new();
                        if let Some(c) = config {
                            fresh.push_back(c);
                        }
                        fresh.push_back(o);
                        keep = fresh;
                        config = None;
                        assert(outgoing_view(keep@) =~= kept(all.take(n)));
                    } else if !o.frame {
                        config = Some(o);
                        assert(kept(all.take(n)) =~= kept(all.take(n - 1)));
                    } else {
                        config = None;
                        assert(kept(all.take(n)) =~= kept(all.take(n - 1)));
                    }
                },
            }
        }
        self.q = keep;
        proof {
            lemma_newest_key_range(all);
        }
    }

    /// Takes a frame from the encoder.
    pub fn push_frame(
        &mut self,
        data: &[u8],
        pts_us: i64,
        orientation: u8,
        flags: u8,
        minor: u8,
        now: i64,
    ) -> (r: Pushed)
        requires
            old(self).wf(),
            data@.len() <= MAX_FRAME,
        ensures
            final(self).wf(),
            r == push_outcome(old(self)@, pts_us, flags),
            final(self)@ == pushed(old(self)@, data@, pts_us, orientation, flags, minor, now),
    {
        let key = flags % 2 == 1;
        if self.drop_until_key && !key {
            return Pushed::Useless;
        }
        let late = match self.oldest() {
            Some(t) => more_than(pts_us, t, QUEUE_BUDGET_US),
            None => false,
        };
        if !key && late {
            // Behind: that video is too old to be worth sending. Restart from a fresh keyframe,
            // and send less from now on.
            self.drop_backlog();
            self.drop_until_key = true;
            self.last_congestion = now;
            let less: u64 = self.current_kbps as u64 * 8 / 10;
            let kbps: u32 = if self.current_kbps <= MIN_BITRATE_KBPS {
                self.current_kbps
            } else if less > MIN_BITRATE_KBPS as u64 {
                less as u32
            } else {
                MIN_BITRATE_KBPS
            };
            if kbps == self.current_kbps {
                return Pushed::Congested(None);
            }
            self.current_kbps = kbps;
            return Pushed::Congested(Some(kbps));
        }
        if key {
            self.drop_until_key = false;
            // SPS/PPS before every keyframe, so a receiver that just joined or lost its decoder
            // recovers.
            if self.video_config.len() > 0 {
                self.push_config(minor);
            }
        }
        let seq: u32 = self.frame_seq;
        self.frame_seq = if seq == u32::MAX {
            0
        } else {
            seq + 1
        };
        let meta = VideoFrameMeta { frame_seq: seq, pts_us, orientation: orientation % 4, flags };
        let msg = make_frame(minor, &meta, data);
        let o = Outgoing { msg, payload: data.len(), pts_us, frame: true, key };
        assert(o@ =~= frame_item(minor, seq, data@, pts_us, orientation, flags));
        self.push(o);
        Pushed::Queued
    }

    /// Takes out what is to be sent next. Also says which bitrate the encoder should go up to,
    /// after a while without congestion.
    pub fn take(&mut self, now: i64) -> (r: (Option<u32>, Option<Outgoing>))
        requires
            old(self).wf(),
        ensures
            final(self).wf(),
            final(self)@ == taken(old(self)@, now),
            r.0 == (if raise_due(old(self)@, now) {
                Some(raised(old(self)@.current_kbps, old(self)@.target_kbps))
            } else {
                None
            }),
            match r.1 {
                Some(o) => old(self)@.q.len() > 0 && o@ == old(self)@.q[0],
                None => old(self)@.q.len() == 0,
            },
    {
        let mut up: Option<u32> = None;
        if self.current_kbps < self.target_kbps && more_than(
            now,
            self.last_congestion,
            RAISE_INTERVAL,
        ) && now >= self.next_raise {
            let more: u64 = self.current_kbps as u64 * 11 / 10 + 1;
            let kbps: u32 = if more < self.target_kbps as u64 {
                more as u32
            } else {
                self.target_kbps
            };
            self.current_kbps = kbps;
            self.next_raise = time_later(now, RAISE_INTERVAL);
            up = Some(kbps);
        }
        let ghost before = self.q@;
        let o = self.q.pop_front();
        proof {
            assert(outgoing_view(before) == old(self)@.q);
            if before.len() > 0 {
                assert(outgoing_view(before)[0] == before[0]@);
                assert(self@.q =~= old(self)@.q.skip(1));
            } else {
                assert(self@.q =~= old(self)@.q);
            }
        }
        (up, o)
    }

    /// The link is gone.
    pub fn reset(&mut self)
        ensures
            final(self).wf(),
            final(self)@ == emptied(old(self)@),
    {
        self.q = VecDeque::new();
        self.drop_until_key = true;
        assert(self@.q =~= Seq::empty());
    }

    /// New settings were negotiated.
    pub fn retarget(&mut self, bitrate_kbps: u32)
        requires
            old(self).wf(),
        ensures
            final(self).wf(),
            final(self)@ == retargeted(old(self)@, bitrate_kbps),
    {
        let kbps: u32 = if bitrate_kbps != 0 {
            bitrate_kbps
        } else {
            DEFAULT_BITRATE_KBPS
        };
        self.target_kbps = kbps;
        self.current_kbps = kbps;
        self.last_congestion = 0;
        self.next_raise = 0;
    }
}

proof fn lemma_newest_key_range(q: Seq<OutgoingView>)
    ensures
        newest_key(q) matches Some(i) ==> 0 <= i < q.len() && q[i].key,
    decreases q.len(),
{
    if q.len() > 0 {
        lemma_newest_key_range(q.drop_last());
    }
}

/// A configuration of the allowed size fits in one field and in one message.
pub proof fn lemma_config_fits(m: VideoConfigView, minor: u8)
    requires
        m.config.len() <= 60000,
    ensures
        all_fit(VideoConfig::fields(m, minor)),
        tlv_bytes(VideoConfig::fields(m, minor)).len() == 9 + m.config.len(),
{
    broadcast use {crate::le::lemma_le, crate::wire::tlv::lemma_all_fit_push, crate::wire::tlv::lemma_tlv_bytes_push};

    crate::wire::tlv::lemma_tlv_bytes_empty();
}

// ---- Laws --------------------------------------------------------------------------------------

/// The oldest time is that of the first frame that waits; without a frame there is none.
pub proof fn law_the_first_frame_is_the_oldest(q: Seq<OutgoingView>, i: int)
    requires
        0 <= i <= q.len(),
        forall|j: int| 0 <= j < i ==> !(#[trigger] q[j]).frame,
        i < q.len() ==> q[i].frame,
    ensures
        oldest_pts(q) == (if i < q.len() {
            Some(q[i].pts_us)
        } else {
            None
        }),
    decreases q.len(),
{
    if q.len() > 0 {
        let init = q.drop_last();
        assert forall|j: int| 0 <= j < init.len() && j < i implies !(#[trigger] init[j]).frame by {
            assert(init[j] == q[j]);
        }
        if i < q.len() {
            law_the_first_frame_is_the_oldest(init, i);
        } else {
            assert(!q[q.len() - 1].frame);
            law_the_first_frame_is_the_oldest(init, i - 1);
        }
    }
}

/// Of a backlog at most two messages are kept: the newest keyframe, last, and before it the
/// configuration that was queued right before it. Without a keyframe nothing is kept.
pub proof fn law_backlog_keeps_the_newest_keyframe(q: Seq<OutgoingView>, i: int)
    requires
        0 <= i < q.len(),
        q[i].key,
        forall|j: int| i < j < q.len() ==> !(#[trigger] q[j]).key,
    ensures
        kept(q).len() <= 2,
        kept(q).last() == q[i],
        i > 0 && !q[i - 1].frame ==> kept(q) == seq![q[i - 1], q[i]],
        i == 0 || q[i - 1].frame ==> kept(q) == seq![q[i]],
    decreases q.len(),
{
    lemma_newest_key_is(q, i);
}

proof fn lemma_newest_key_is(q: Seq<OutgoingView>, i: int)
    requires
        0 <= i < q.len(),
        q[i].key,
        forall|j: int| i < j < q.len() ==> !(#[trigger] q[j]).key,
    ensures
        newest_key(q) == Some(i),
    decreases q.len(),
{
    if i < q.len() - 1 {
        assert(!q[q.len() - 1].key);
        let init = q.drop_last();
        assert forall|j: int| i < j < init.len() implies !(#[trigger] init[j]).key by {
            assert(init[j] == q[j]);
        }
        lemma_newest_key_is(init, i);
    }
}

/// Of a backlog without a keyframe nothing is kept.
pub proof fn law_backlog_without_a_keyframe_is_gone(q: Seq<OutgoingView>)
    requires
        forall|j: int| 0 <= j < q.len() ==> !(#[trigger] q[j]).key,
    ensures
        kept(q) == Seq::<OutgoingView>::empty(),
{
    lemma_newest_key_range(q);
}

/// After a drop, and on a new link, frames that are no keyframes change nothing until a keyframe
/// comes, and that keyframe goes out with its configuration right before it.
pub proof fn law_a_drop_ends_with_a_keyframe(
    v: VqView,
    data: Seq<u8>,
    pts_us: i64,
    orientation: u8,
    flags: u8,
    minor: u8,
    now: i64,
)
    requires
        v.drop_until_key,
    ensures
        !is_key(flags) ==> pushed(v, data, pts_us, orientation, flags, minor, now) == v,
        is_key(flags) ==> {
            let w = pushed(v, data, pts_us, orientation, flags, minor, now);
            let frame = frame_item(minor, v.frame_seq, data, pts_us, orientation, flags);
            &&& !w.drop_until_key
            &&& v.video_config.len() > 0 ==> w.q == v.q.push(
                config_item(v.video_config, minor),
            ).push(frame)
            &&& v.video_config.len() == 0 ==> w.q == v.q.push(frame)
        },
{
}

/// When a frame finds the queue behind, what is left does not span the budget any more, and a
/// keyframe is waited for.
pub proof fn law_congestion_empties_the_backlog(
    v: VqView,
    data: Seq<u8>,
    pts_us: i64,
    orientation: u8,
    flags: u8,
    minor: u8,
    now: i64,
)
    requires
        push_outcome(v, pts_us, flags) is Congested,
    ensures
        ({
            let w = pushed(v, data, pts_us, orientation, flags, minor, now);
            &&& w.drop_until_key
            &&& w.q == kept(v.q)
            &&& w.q.len() <= 2
            &&& w.frame_seq == v.frame_seq
            &&& w.video_config == v.video_config
        }),
{
}

/// Congestion lowers the bitrate by a fifth, but not below the minimum, and never raises it.
pub proof fn law_congestion_lowers_the_bitrate(kbps: u32)
    ensures
        lowered(kbps) <= kbps,
        kbps > MIN_BITRATE_KBPS ==> MIN_BITRATE_KBPS <= lowered(kbps) < kbps,
        kbps > MIN_BITRATE_KBPS ==> lowered(kbps) == MIN_BITRATE_KBPS || lowered(kbps) == kbps as int * 8 / 10,
        kbps <= MIN_BITRATE_KBPS ==> lowered(kbps) == kbps,
{
}

/// Whatever frames come, they never raise the bitrate above what was negotiated, and one that is announced is lower
/// than the one before.
pub proof fn law_frames_never_raise_the_bitrate(
    v: VqView,
    data: Seq<u8>,
    pts_us: i64,
    orientation: u8,
    flags: u8,
    minor: u8,
    now: i64,
)
    ensures
        pushed(v, data, pts_us, orientation, flags, minor, now).current_kbps <= v.current_kbps,
        push_outcome(v, pts_us, flags) matches Pushed::Congested(Some(k)) ==> k < v.current_kbps,
{
}

/// Without congestion the bitrate goes up, and never above what was negotiated.
pub proof fn law_recovery_stays_within_the_negotiated_bitrate(v: VqView, now: i64)
    requires
        v.current_kbps <= v.target_kbps,
    ensures
        v.current_kbps <= taken(v, now).current_kbps <= v.target_kbps,
        raise_due(v, now) ==> taken(v, now).current_kbps > v.current_kbps,
{
}

/// No step goes up sooner than the interval after a congestion or after the step before.
pub proof fn law_steps_up_are_apart(v: VqView, now: i64, next: i64)
    requires
        raise_due(v, now),
        raise_due(taken(v, now), next),
    ensures
        now - v.last_congestion > RAISE_INTERVAL,
        next - now >= RAISE_INTERVAL || next == i64::MAX,
{
}

/// Of a backlog nothing is kept but frames and configurations that waited, in their order, and no frame but a keyframe.
pub proof fn law_what_is_kept_had_waited(q: Seq<OutgoingView>, i: int)
    requires
        0 <= i < kept(q).len(),
    ensures
        q.contains(kept(q)[i]),
        kept(q)[i].frame ==> kept(q)[i].key,
        kept(q).len() <= 2,
        kept(q).last().key,
{
    lemma_newest_key_range(q);
    let k = newest_key(q)->0;
    if kept(q)[i] == q[k] {
        assert(q.contains(q[k]));
    } else {
        assert(q.contains(q[k - 1]));
    }
}

} // verus!
