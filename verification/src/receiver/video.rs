//! H.264 decoding: which packets go to the decoder, when a keyframe is asked for, and how large the preview is.
use vstd::prelude::*;

use openh264::decoder::Decoder;
use openh264::formats::YUVSource;

use crate::timing::{more_than, SEC};

verus! {

/// An OpenH264 decoder: `fed` and `came_back` tell what went through it.
#[verifier::external_type_specification]
#[verifier::external_body]
pub struct ExDecoder(openh264::decoder::Decoder);

/// OpenH264's error.
#[verifier::external_type_specification]
#[verifier::external_body]
pub struct ExError(openh264::Error);

/// What the phone sends for the decoder.
pub enum Packet {
    /// SPS and PPS: the decoder keeps them for the frames that follow.
    Config(Vec<u8>),
    Frame { data: Vec<u8>, orientation: u8, key: bool },
    Stop,
}

/// A decoded picture: three planes, the last two at half the size.
pub struct Picture {
    pub y: Vec<u8>,
    pub u: Vec<u8>,
    pub v: Vec<u8>,
    pub y_stride: usize,
    pub uv_stride: usize,
    pub width: usize,
    pub height: usize,
}

/// What came of a decode.
pub enum Decoded {
    Picture(Picture),
    /// Nothing to show yet.
    Nothing,
    /// The data was corrupt, or a picture that it refers to is missing.
    Failed,
}

/// What to do about a packet.
pub enum Outcome {
    /// Stop decoding.
    Stop,
    /// Nothing to do.
    Wait,
    /// Show the picture.
    Show { picture: Picture, orientation: u8 },
    /// Ask the phone for a keyframe.
    RequestKeyframe,
}

/// Whether decoding waits for a keyframe, and when one was last asked for.
#[derive(Clone, Copy, Debug, PartialEq, Eq, Structural)]
pub struct Guard {
    pub need_key: bool,
    pub last_request: Option<i64>,
}

/// Decoding starts at a keyframe.
pub open spec fn start_guard() -> Guard {
    Guard { need_key: true, last_request: None }
}

/// The guard when a frame arrives: frames that were dropped on the way make a keyframe necessary.
pub open spec fn at_frame(g: Guard, want_keyframe: bool) -> Guard {
    Guard { need_key: g.need_key || want_keyframe, ..g }
}

/// What of a packet goes to the decoder: parameter sets always, frames unless a keyframe is needed and they are none
/// (they would decode as garbage).
pub open spec fn to_decode(g: Guard, packet: Packet, want_keyframe: bool) -> Option<Seq<u8>> {
    match packet {
        Packet::Config(c) => Some(c@),
        Packet::Frame { data, orientation, key } => if at_frame(g, want_keyframe).need_key && !key {
            None
        } else {
            Some(data@)
        },
        Packet::Stop => None,
    }
}

/// Whether a keyframe may be asked for at `now`: at most one request a second.
pub open spec fn may_request(g: Guard, now: i64) -> bool {
    match g.last_request {
        Some(t) => now - t > SEC,
        None => true,
    }
}

/// The guard after a frame was decoded.
pub open spec fn guard_after(g: Guard, r: Decoded, now: i64) -> Guard {
    match r {
        Decoded::Picture(_) => Guard { need_key: false, ..g },
        Decoded::Nothing => g,
        Decoded::Failed => Guard {
            need_key: true,
            last_request: if may_request(g, now) {
                Some(now)
            } else {
                g.last_request
            },
        },
    }
}

/// What to do after a frame was decoded.
pub open spec fn outcome_after(g: Guard, r: Decoded, orientation: u8, now: i64) -> Outcome {
    match r {
        Decoded::Picture(picture) => Outcome::Show { picture, orientation },
        Decoded::Nothing => Outcome::Wait,
        Decoded::Failed => if may_request(g, now) {
            Outcome::RequestKeyframe
        } else {
            Outcome::Wait
        },
    }
}

/// `next` and `o` are what follows from `r`.
pub open spec fn follows(g: Guard, r: Decoded, orientation: u8, now: i64, next: Guard, o: Outcome) -> bool {
    next == guard_after(g, r, now) && o == outcome_after(g, r, orientation, now)
}

impl Guard {
    /// The guard at the start: closed until a keyframe comes, and no request made.
    pub fn new() -> (g: Guard)
        ensures
            g == start_guard(),
    {
        Guard { need_key: true, last_request: None }
    }

    /// What of a packet goes to the decoder.
    pub fn let_through<'a>(&mut self, packet: &'a Packet, want_keyframe: bool) -> (r: Option<&'a Vec<u8>>)
        ensures
            *final(self) == (if packet is Frame {
                at_frame(*old(self), want_keyframe)
            } else {
                *old(self)
            }),
            r is Some <==> to_decode(*old(self), *packet, want_keyframe) is Some,
            r matches Some(d) ==> to_decode(*old(self), *packet, want_keyframe) == Some(d@),
    {
        match packet {
            Packet::Config(c) => Some(c),
            Packet::Frame { data, orientation: _, key } => {
                if want_keyframe {
                    self.need_key = true;
                }
                if self.need_key && !*key {
                    None
                } else {
                    Some(data)
                }
            },
            Packet::Stop => None,
        }
    }

    /// What to do about a frame of which `r` came.
    pub fn decoded(&mut self, r: Decoded, orientation: u8, now: i64) -> (o: Outcome)
        ensures
            *final(self) == guard_after(*old(self), r, now),
            o == outcome_after(*old(self), r, orientation, now),
    {
        match r {
            Decoded::Picture(picture) => {
                self.need_key = false;
                Outcome::Show { picture, orientation }
            },
            Decoded::Nothing => Outcome::Wait,
            Decoded::Failed => {
                self.need_key = true;
                let may = match self.last_request {
                    Some(t) => more_than(now, t, SEC),
                    None => true,
                };
                if may {
                    self.last_request = Some(now);
                    Outcome::RequestKeyframe
                } else {
                    Outcome::Wait
                }
            },
        }
    }
}

/// After a failed decode no frame but a keyframe goes to the decoder.
pub proof fn law_only_a_keyframe_follows_a_failure(g: Guard, now: i64, packet: Packet, want: bool)
    requires
        packet is Frame,
    ensures
        to_decode(guard_after(g, Decoded::Failed, now), packet, want) is Some <==> packet->key,
{
}

/// Keyframe requests are more than a second apart: while one is that recent, a failure asks for none.
pub proof fn law_requests_are_a_second_apart(g: Guard, t: i64, now: i64, orientation: u8)
    requires
        g.last_request == Some(t),
        now - t <= SEC,
    ensures
        !(outcome_after(g, Decoded::Failed, orientation, now) is RequestKeyframe),
        guard_after(g, Decoded::Failed, now).last_request == g.last_request,
{
}

/// The packets that a decoder was given, in order.
pub uninterp spec fn fed(decoder: Decoder) -> Seq<Seq<u8>>;

/// What came back of those packets, one for each.
pub uninterp spec fn came_back(decoder: Decoder) -> Seq<Decoded>;

/// What came of a decode, by what the decoder returned.
pub open spec fn decoded_of(r: Result<Option<Picture>, openh264::Error>) -> Decoded {
    match r {
        Ok(Some(picture)) => Decoded::Picture(picture),
        Ok(None) => Decoded::Nothing,
        Err(_) => Decoded::Failed,
    }
}

/// The planes of a picture are as long as its strides and its height say.
pub open spec fn planes_are_whole(p: Picture) -> bool {
    &&& p.y@.len() == p.height * p.y_stride
    &&& p.u@.len() == p.height * p.uv_stride / 2
    &&& p.v@.len() == p.height * p.uv_stride / 2
}

/// The planes of a picture can be counted in 31 bits.
pub open spec fn countable(p: Picture) -> bool {
    p.height <= i32::MAX && p.height * p.y_stride <= i32::MAX && p.height * p.uv_stride <= i32::MAX
}

/// `Decoder::new`: a decoder that was given nothing, or none where the library fails to make one.
#[verifier::external_body]
fn new_decoder() -> (r: Option<Decoder>)
    ensures
        r matches Some(d) ==> fed(d) == Seq::<Seq<u8>>::empty() && came_back(d) == Seq::<Decoded>::empty(),
{
    Decoder::new().ok()
}

/// `Decoder::decode`: hands one packet to the decoder. A picture that comes back has whole planes, as far as the
/// decoder's own 31-bit arithmetic reaches. Whether one comes back, and what it shows, depends on all that the decoder
/// was given before and is not said.
#[verifier::external_body]
fn decode(decoder: &mut Decoder, packet: &[u8]) -> (r: Result<Option<Picture>, openh264::Error>)
    ensures
        fed(*final(decoder)) == fed(*old(decoder)).push(packet@),
        came_back(*final(decoder)) == came_back(*old(decoder)).push(decoded_of(r)),
        r matches Ok(Some(p)) ==> countable(p) ==> planes_are_whole(p),
{
    let found = decoder.decode(packet)?;
    Ok(found.map(|yuv| {
        let (width, height) = yuv.dimensions();
        let (y_stride, uv_stride, _) = yuv.strides();
        let (y, u, v) = (yuv.y().to_vec(), yuv.u().to_vec(), yuv.v().to_vec());
        Picture { y, u, v, y_stride, uv_stride, width, height }
    }))
}

/// A decoder with its guard.
pub struct VideoDecoder {
    decoder: Decoder,
    guard: Guard,
}

impl VideoDecoder {
    /// Whether it waits for a keyframe, and when one was last asked for.
    pub closed spec fn guard(&self) -> Guard {
        self.guard
    }

    /// The packets that went to the decoder, in order.
    pub closed spec fn fed(&self) -> Seq<Seq<u8>> {
        fed(self.decoder)
    }

    /// What came back of those packets, one for each.
    pub closed spec fn came_back(&self) -> Seq<Decoded> {
        came_back(self.decoder)
    }

    /// A decoder that has seen nothing; none where OpenH264 cannot make one. Whether it can is up to OpenH264; `over`
    /// says what comes of either.
    pub fn new() -> (r: Option<VideoDecoder>)
        ensures
            r matches Some(d) ==> d.guard() == start_guard() && d.fed() == Seq::<Seq<u8>>::empty() && d.came_back()
                == Seq::<Decoded>::empty(),
    {
        VideoDecoder::over(new_decoder())
    }

    /// The decoder that OpenH264 made, with a guard that waits for a keyframe; none where it made none.
    pub fn over(made: Option<Decoder>) -> (r: Option<VideoDecoder>)
        ensures
            r is Some <==> made is Some,
            r matches Some(d) ==> d.guard() == start_guard() && d.fed() == fed(made->0) && d.came_back() == came_back(
                made->0,
            ),
    {
        match made {
            Some(decoder) => Some(VideoDecoder { decoder, guard: Guard::new() }),
            None => None,
        }
    }

    /// Handles one packet. What the guard lets through goes to the decoder, and nothing else does. Whatever comes back
    /// of a frame is handled as `Guard::decoded` says, and a picture among it has whole planes; what comes back of
    /// parameter sets is of no account.
    pub fn handle(&mut self, packet: Packet, want_keyframe: bool, now: i64) -> (o: Outcome)
        ensures
            final(self).fed() == (match to_decode(old(self).guard(), packet, want_keyframe) {
                Some(data) => old(self).fed().push(data),
                None => old(self).fed(),
            }),
            packet is Stop ==> o is Stop && final(self).guard() == old(self).guard(),
            packet is Config ==> o is Wait && final(self).guard() == old(self).guard(),
            packet is Frame && to_decode(old(self).guard(), packet, want_keyframe) is None ==> o is Wait
                && final(self).guard() == at_frame(old(self).guard(), want_keyframe),
            to_decode(old(self).guard(), packet, want_keyframe) is None ==> final(self).came_back() == old(
                self,
            ).came_back(),
            to_decode(old(self).guard(), packet, want_keyframe) is Some ==> final(self).came_back().len() == old(
                self,
            ).came_back().len() + 1 && final(self).came_back().drop_last() == old(self).came_back(),
            packet is Frame && to_decode(old(self).guard(), packet, want_keyframe) is Some ==> follows(
                at_frame(old(self).guard(), want_keyframe),
                final(self).came_back().last(),
                packet->orientation,
                now,
                final(self).guard(),
                o,
            ),
            o matches Outcome::Show { picture, .. } ==> countable(picture) ==> planes_are_whole(picture),
    {
        let passed = self.guard.let_through(&packet, want_keyframe);
        let data = match passed {
            Some(d) => d,
            None => {
                return match packet {
                    Packet::Stop => Outcome::Stop,
                    _ => Outcome::Wait,
                };
            },
        };
        let ghost before = came_back(self.decoder);
        let found = decode(&mut self.decoder, data.as_slice());
        assert(came_back(self.decoder).drop_last() =~= before);
        match packet {
            Packet::Frame { data: _, orientation, key: _ } => {
                let r = match found {
                    Ok(Some(p)) => Decoded::Picture(p),
                    Ok(None) => Decoded::Nothing,
                    Err(_) => Decoded::Failed,
                };
                self.guard.decoded(r, orientation, now)
            },
            _ => Outcome::Wait,
        }
    }
}

/// The preview is at most this wide.
pub const PREVIEW_MAX_W: usize = 960;

/// The size of a picture once it stands upright: a quarter turn swaps the sides.
pub open spec fn upright_size(width: usize, height: usize, rotation: u8) -> (usize, usize) {
    if rotation % 2 == 1 {
        (height, width)
    } else {
        (width, height)
    }
}

/// The largest even number up to `n`.
pub open spec fn even(n: int) -> int {
    n - n % 2
}

/// The preview's size: the upright picture, at most `PREVIEW_MAX_W` wide, in the picture's own proportions; both
/// sides even, and the height not under two.
pub open spec fn preview_size_of(width: usize, height: usize, rotation: u8) -> (int, int) {
    let (rw, rh) = upright_size(width, height, rotation);
    let pw = even(
        if rw < PREVIEW_MAX_W {
            rw as int
        } else {
            PREVIEW_MAX_W as int
        },
    );
    let ph = even(
        rh * pw / (if rw > 1 {
            rw as int
        } else {
            1
        }),
    );
    (
        pw,
        if ph < 2 {
            2
        } else {
            ph
        },
    )
}

/// The preview's size for a picture of `width` by `height` that has to be turned by `rotation` quarter turns.
pub fn preview_size(width: usize, height: usize, rotation: u8) -> (r: (usize, usize))
    ensures
        (r.0 as int, r.1 as int) == preview_size_of(width, height, rotation),
        r.0 <= PREVIEW_MAX_W,
        r.1 == 2 || r.1 <= upright_size(width, height, rotation).1,
{
    let (rw, rh): (usize, usize) = if rotation % 2 == 1 {
        (height, width)
    } else {
        (width, height)
    };
    let w: usize = if rw < PREVIEW_MAX_W {
        rw
    } else {
        PREVIEW_MAX_W
    };
    let pw: usize = w - w % 2;
    let div: u128 = if rw > 1 {
        rw as u128
    } else {
        1
    };
    assert(0 <= rh * pw <= u64::MAX * 960) by (nonlinear_arith)
        requires
            rh <= u64::MAX,
            pw <= 960,
    ;
    let full: u128 = rh as u128 * pw as u128;
    assert(full as int == rh * pw);
    assert(full as int / div as int <= rh) by (nonlinear_arith)
        requires
            full as int == rh * pw,
            pw <= div,
            div >= 1,
    ;
    let h: usize = (full / div) as usize;
    let ph: usize = h - h % 2;
    (
        pw,
        if ph < 2 {
            2
        } else {
            ph
        },
    )
}

} // verus!
