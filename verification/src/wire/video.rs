//! VIDEO_FRAME: its payload is binary, not TLV.
use vstd::prelude::*;
use crate::le::Le;

verus! {

pub const VIDEO_FRAME_META_SIZE: usize = 16;

/// What precedes the picture in a VIDEO_FRAME.
#[derive(Clone, Copy, Debug, PartialEq, Eq, Structural)]
pub struct VideoFrameMeta {
    pub frame_seq: u32,
    pub pts_us: i64,
    pub orientation: u8,
    pub flags: u8,
}

impl Default for VideoFrameMeta {
    fn default() -> (m: Self)
        ensures
            m == (VideoFrameMeta { frame_seq: 0, pts_us: 0, orientation: 0, flags: 0 }),
    {
        VideoFrameMeta { frame_seq: 0, pts_us: 0, orientation: 0, flags: 0 }
    }
}

/// The meta data on the wire. Two bytes are reserved.
pub open spec fn meta_bytes(m: VideoFrameMeta) -> Seq<u8> {
    m.frame_seq.bytes() + m.pts_us.bytes() + seq![m.orientation, m.flags, 0u8, 0u8]
}

/// The meta data that a payload starts with. Only two bits of the orientation count.
pub open spec fn meta_of(payload: Seq<u8>) -> VideoFrameMeta {
    VideoFrameMeta {
        frame_seq: u32::of_bytes(payload.subrange(0, 4)),
        pts_us: i64::of_bytes(payload.subrange(4, 12)),
        orientation: (payload[12] % 4) as u8,
        flags: payload[13],
    }
}

/// Writes the meta data over the first bytes of `out`.
pub fn encode_video_meta(out: &mut [u8], m: &VideoFrameMeta)
    requires
        old(out)@.len() >= VIDEO_FRAME_META_SIZE,
    ensures
        final(out)@ == meta_bytes(*m) + old(out)@.skip(VIDEO_FRAME_META_SIZE as int),
{
    let mut b: Vec<u8> = Vec::new();
    m.frame_seq.put(&mut b);
    m.pts_us.put(&mut b);
    b.push(m.orientation);
    b.push(m.flags);
    b.push(0);
    b.push(0);
    proof {
        lemma_meta_len(*m);
        assert(b@ =~= meta_bytes(*m));
    }
    let mut i: usize = 0;
    while i < VIDEO_FRAME_META_SIZE
        invariant
            b@.len() == VIDEO_FRAME_META_SIZE,
            out@.len() >= VIDEO_FRAME_META_SIZE,
            i <= VIDEO_FRAME_META_SIZE,
            out@ == b@.take(i as int) + old(out)@.skip(i as int),
            out@.len() == old(out)@.len(),
        decreases VIDEO_FRAME_META_SIZE - i,
    {
        out[i] = b[i];
        i = i + 1;
        assert(out@ =~= b@.take(i as int) + old(out)@.skip(i as int));
    }
    assert(b@.take(VIDEO_FRAME_META_SIZE as int) =~= b@);
}

/// The meta data of a payload and the picture behind it, or `None` if the payload is too short.
pub fn decode_video_meta(payload: &[u8]) -> (r: Option<(VideoFrameMeta, &[u8])>)
    ensures
        match r {
            Some((m, data)) => {
                &&& payload@.len() >= VIDEO_FRAME_META_SIZE
                &&& m == meta_of(payload@)
                &&& data@ == payload@.skip(VIDEO_FRAME_META_SIZE as int)
            },
            None => payload@.len() < VIDEO_FRAME_META_SIZE,
        },
{
    if payload.len() < VIDEO_FRAME_META_SIZE {
        return None;
    }
    let frame_seq: u32 = match <u32 as Le>::get(&payload[0..4]) {
        Some(x) => x,
        None => 0,
    };
    let pts_us: i64 = match <i64 as Le>::get(&payload[4..12]) {
        Some(x) => x,
        None => 0,
    };
    let m = VideoFrameMeta {
        frame_seq,
        pts_us,
        orientation: payload[12] % 4,
        flags: payload[13],
    };
    let data = &payload[VIDEO_FRAME_META_SIZE..payload.len()];
    assert(data@ =~= payload@.skip(VIDEO_FRAME_META_SIZE as int));
    Some((m, data))
}

pub proof fn lemma_meta_len(m: VideoFrameMeta)
    ensures
        meta_bytes(m).len() == VIDEO_FRAME_META_SIZE,
{
    m.frame_seq.lemma_bytes_then_of();
    m.pts_us.lemma_bytes_then_of();
}

/// The meta data of a frame comes back as it was sent, but for the orientation, of which two bits count. The picture
/// behind it stays whole.
pub proof fn law_video_frame_round_trip(m: VideoFrameMeta, data: Seq<u8>)
    ensures
        meta_of(meta_bytes(m) + data) == (VideoFrameMeta { orientation: (m.orientation % 4) as u8, ..m }),
        (meta_bytes(m) + data).skip(VIDEO_FRAME_META_SIZE as int) == data,
{
    lemma_meta_len(m);
    m.frame_seq.lemma_bytes_then_of();
    m.pts_us.lemma_bytes_then_of();
    let p = meta_bytes(m) + data;
    assert(p.subrange(0, 4) =~= m.frame_seq.bytes());
    assert(p.subrange(4, 12) =~= m.pts_us.bytes());
    assert(p.skip(VIDEO_FRAME_META_SIZE as int) =~= data);
}

} // verus!
