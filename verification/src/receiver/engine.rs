//! What the desktop keeps up between the session and the window: the phones allowed before, the pairing link on
//! show, what the phone says of its stream, and the text on the virtual camera while there is no picture.
use vstd::prelude::*;
use vstd::utf8::encode_utf8;

use crate::abi::{
    lenny_control, lenny_control_cmd, lenny_identity, lenny_mode, lenny_peer_info, lenny_state, lenny_stream_settings,
    LENNY_CODEC_H264, LENNY_PAIR_OK, LENNY_PLATFORM_LINUX, LENNY_PLATFORM_WINDOWS, LENNY_STREAM_CAMERA_LOST,
    LENNY_STREAM_LIVE,
};
use crate::bytes::copy;
use crate::pairing::{answer, find, law_fresh_token_holds_for_its_time, EntryView};
use crate::receiver::known::KnownPhones;
use crate::receiver::link::{pair_uri, pair_uri_text, texts};
use crate::receiver::video::{preview_size, preview_size_of, Picture};
use crate::session::peer::{c_string, until_nul};
use crate::session::state::ReceiverConfig;
use crate::text::{lossy, utf8_lossy};
use crate::timing::{more_than, MS};
use crate::vcam::frame::{canvas_of, compose_i420, i420_to_rgba, is_usable, rgba_of, usable};

verus! {

/// A link stays on show this long.
pub const TOKEN_RENEW_US: i64 = 80_000_000;

/// Tokens live this long, in milliseconds.
pub const TOKEN_TTL_MS: u32 = 90_000;

/// The last good frame stays on the virtual camera this long.
pub const STALE_US: i64 = 500_000;

/// What the phone said of its stream, where it is not live: the state and why.
pub struct Status {
    pub state: u8,
    pub reason: String,
}

/// The text on the virtual camera while there is no picture.
#[derive(Clone, Copy, Debug, PartialEq, Eq, Structural)]
pub enum Notice {
    CameraBusy,
    Paused,
    WaitingForVideo,
    AllowThePhone,
    Connecting,
    WaitingForPhone,
}

/// The words of a notice.
pub open spec fn notice_text(n: Notice) -> Seq<char> {
    match n {
        Notice::CameraBusy => "phone camera busy"@,
        Notice::Paused => "phone paused"@,
        Notice::WaitingForVideo => "waiting for video"@,
        Notice::AllowThePhone => "allow the phone on the pc"@,
        Notice::Connecting => "connecting"@,
        Notice::WaitingForPhone => "waiting for phone"@,
    }
}

impl Notice {
    pub fn text(self) -> (t: &'static str)
        ensures
            t@ == notice_text(self),
    {
        match self {
            Notice::CameraBusy => "phone camera busy",
            Notice::Paused => "phone paused",
            Notice::WaitingForVideo => "waiting for video",
            Notice::AllowThePhone => "allow the phone on the pc",
            Notice::Connecting => "connecting",
            Notice::WaitingForPhone => "waiting for phone",
        }
    }
}

/// What a session in `state` puts on the virtual camera, where the phone said `status` of its stream.
pub open spec fn notice_of(state: i32, status: Option<u8>) -> Notice {
    if state == lenny_state::LENNY_STATE_STREAMING.code() {
        match status {
            Some(s) => if s == LENNY_STREAM_CAMERA_LOST {
                Notice::CameraBusy
            } else {
                Notice::Paused
            },
            None => Notice::WaitingForVideo,
        }
    } else if state == lenny_state::LENNY_STATE_AWAITING_APPROVAL.code() {
        Notice::AllowThePhone
    } else if state == lenny_state::LENNY_STATE_HANDSHAKE.code() {
        Notice::Connecting
    } else {
        Notice::WaitingForPhone
    }
}

/// What is left to do after a tick.
pub struct Tick {
    /// The phones allowed before have changed: write the file.
    pub save: bool,
    pub notice: Notice,
    /// Ask the phone for a keyframe.
    pub request_keyframe: bool,
}

/// The link on show, and since when.
pub struct Link {
    pub uri: String,
    pub since: i64,
}

/// The desktop's own state.
pub struct Engine {
    pub known: KnownPhones,
    pub status: Option<Status>,
    pub link: Option<Link>,
    pub last_state: i32,
}

/// The state in a status.
pub open spec fn status_state(s: Option<Status>) -> Option<u8> {
    match s {
        Some(s) => Some(s.state),
        None => None,
    }
}

/// Whether a link has to be made: there is none, or the one on show has been there too long.
pub open spec fn link_is_due(link: Option<Link>, now: i64) -> bool {
    match link {
        Some(l) => now - l.since > TOKEN_RENEW_US,
        None => true,
    }
}

/// The link on show after the session was seen in `state`: one is used up when streaming starts.
pub open spec fn link_after_tick(link: Option<Link>, last_state: i32, state: i32) -> Option<Link> {
    if state != last_state && state == lenny_state::LENNY_STATE_STREAMING.code() {
        None
    } else {
        link
    }
}

/// Whether the phone is remembered once the session was seen in `state`: it is there, and streaming has just started.
pub open spec fn learns(last_state: i32, state: i32, has_peer: bool) -> bool {
    state != last_state && state == lenny_state::LENNY_STATE_STREAMING.code() && has_peer
}

/// What the phone said of its stream, after the session was seen in `state`: it is over when streaming is.
pub open spec fn status_after_tick(status: Option<Status>, last_state: i32, state: i32) -> Option<Status> {
    if state != last_state && state != lenny_state::LENNY_STATE_STREAMING.code() {
        None
    } else {
        status
    }
}

/// A fixed text of a peer info, up to its end.
pub fn c_chars(b: &[u8]) -> (text: String)
    ensures
        text@ == utf8_lossy(until_nul(b@)),
{
    let bytes = c_string(b);
    lossy(bytes.as_slice())
}

impl Engine {
    /// The state at the start, with the phones from the file.
    pub fn new(known: KnownPhones) -> (e: Engine)
        ensures
            e.known == known,
            e.status is None,
            e.link is None,
            e.last_state == -1,
    {
        Engine { known, status: None, link: None, last_state: -1 }
    }

    /// A stream has started: whatever the phone said of an earlier one is over.
    pub fn stream_started(&mut self)
        ensures
            *final(self) == (Engine { status: None, ..*old(self) }),
    {
        self.status = None;
    }

    /// The phone said something of its stream. That it is live is no status.
    pub fn on_stream_status(&mut self, state: u8, reason: &[u8])
        ensures
            final(self).known == old(self).known,
            final(self).link == old(self).link,
            final(self).last_state == old(self).last_state,
            final(self).status is Some <==> state != LENNY_STREAM_LIVE,
            final(self).status matches Some(s) ==> s.state == state && s.reason@ == utf8_lossy(reason@),
    {
        self.status = if state != LENNY_STREAM_LIVE {
            Some(Status { state, reason: lossy(reason) })
        } else {
            None
        };
    }

    /// Once per drawn frame: what a change of the session's state calls for. A phone that streams is remembered, so
    /// that it comes back without asking, and its link is used up; when streaming ends, so does what the phone said of
    /// the stream.
    pub fn tick(&mut self, state: i32, has_peer: bool, peer: &lenny_peer_info, want_keyframe: bool) -> (t: Tick)
        ensures
            final(self).last_state == state,
            final(self).known@ == (if learns(old(self).last_state, state, has_peer) {
                old(self).known@.insert(peer.device_id@, utf8_lossy(until_nul(peer.name@)))
            } else {
                old(self).known@
            }),
            final(self).link == link_after_tick(old(self).link, old(self).last_state, state),
            final(self).status == status_after_tick(old(self).status, old(self).last_state, state),
            t.save == learns(old(self).last_state, state, has_peer),
            t.notice == notice_of(state, status_state(final(self).status)),
            t.request_keyframe == want_keyframe,
    {
        let streams = state == lenny_state::LENNY_STATE_STREAMING.code();
        let changed = state != self.last_state;
        let mut save = false;
        if changed && streams {
            if has_peer {
                let name = c_chars(peer.name.as_slice());
                self.known.insert(peer.device_id, name);
                save = true;
            }
            self.link = None;
        }
        if changed && !streams {
            self.status = None;
        }
        self.last_state = state;
        let notice = if streams {
            match &self.status {
                Some(s) => if s.state == LENNY_STREAM_CAMERA_LOST {
                    Notice::CameraBusy
                } else {
                    Notice::Paused
                },
                None => Notice::WaitingForVideo,
            }
        } else if state == lenny_state::LENNY_STATE_AWAITING_APPROVAL.code() {
            Notice::AllowThePhone
        } else if state == lenny_state::LENNY_STATE_HANDSHAKE.code() {
            Notice::Connecting
        } else {
            Notice::WaitingForPhone
        };
        Tick { save, notice, request_keyframe: want_keyframe }
    }

    /// Whether a fresh token is needed for the link on show.
    pub fn needs_link(&self, now: i64) -> (r: bool)
        ensures
            r == link_is_due(self.link, now),
    {
        match &self.link {
            Some(l) => more_than(now, l.since, TOKEN_RENEW_US),
            None => true,
        }
    }

    /// Puts a link with a fresh token on show.
    pub fn show_link(&mut self, hosts: &[String], port: u16, token: &[u8; 16], name: &str, now: i64)
        ensures
            final(self).known == old(self).known,
            final(self).status == old(self).status,
            final(self).last_state == old(self).last_state,
            final(self).link matches Some(l) && l.since == now && l.uri@ == pair_uri_text(
                texts(hosts@),
                port,
                Some(token@),
                name@,
            ),
    {
        let uri = pair_uri(hosts, port, Some(token), name);
        self.link = Some(Link { uri, since: now });
    }

    /// Stops remembering a phone.
    pub fn forget(&mut self, id: &[u8; 16])
        ensures
            final(self).known@ == old(self).known@.remove(id@),
            final(self).status == old(self).status,
            final(self).link == old(self).link,
            final(self).last_state == old(self).last_state,
    {
        self.known.remove(id);
    }
}

/// A link that needs no renewal can be used: its token, issued when the link was put on show, is accepted, unless it
/// has been used already.
pub proof fn law_the_link_on_show_can_be_used(tokens: Seq<EntryView>, token: Seq<u8>, link: Option<Link>, now: i64)
    requires
        find(tokens, token) is None,
        !link_is_due(link, now),
    ensures
        link matches Some(l) && answer(
            tokens.push(
                EntryView { token, issued: l.since, ttl_us: (TOKEN_TTL_MS * MS) as i64, used: false },
            ),
            token,
            now,
        ) == LENNY_PAIR_OK,
{
    law_fresh_token_holds_for_its_time(tokens, token, link->0.since, (TOKEN_TTL_MS * MS) as i64, now);
}

/// Once a phone streams, the link that was on show is replaced.
pub proof fn law_a_used_link_is_replaced(link: Option<Link>, last_state: i32, now: i64)
    requires
        last_state != lenny_state::LENNY_STATE_STREAMING.code(),
    ensures
        link_is_due(link_after_tick(link, last_state, lenny_state::LENNY_STATE_STREAMING.code()), now),
{
}

/// The CONTROL to send for a command.
pub fn control(cmd: lenny_control_cmd, x: u16, y: u16, value: i32) -> (c: lenny_control)
    ensures
        c == (lenny_control { req_id: 0, cmd: cmd.code(), x, y, value }),
{
    lenny_control { req_id: 0, cmd: cmd.code(), x, y, value }
}

/// The desktop's session: it prefers 1080p at 30 frames a second, 8 Mbit/s, and asks for no lens.
pub fn receiver_config(name: &str, version: &str, port: u16, windows: bool) -> (c: ReceiverConfig)
    ensures
        c.port == port,
        c.identity.device_id@ =~= Seq::new(16, |i: int| 0u8),
        c.identity.device_name@ == encode_utf8(name@),
        c.identity.app_version@ == encode_utf8(version@),
        c.identity.platform == (if windows {
            LENNY_PLATFORM_WINDOWS
        } else {
            LENNY_PLATFORM_LINUX
        }),
        c.preferred == (lenny_stream_settings {
            codec: LENNY_CODEC_H264,
            mode: (lenny_mode { width: 1920, height: 1080, fps_num: 30, fps_den: 1 }),
            bitrate_kbps: 8000,
            has_lens: 0,
            lens_id: 0,
        }),
{
    ReceiverConfig {
        identity: lenny_identity {
            device_id: [0;16],
            device_name: copy(name.as_bytes()),
            app_version: copy(version.as_bytes()),
            platform: if windows {
                LENNY_PLATFORM_WINDOWS
            } else {
                LENNY_PLATFORM_LINUX
            },
        },
        port,
        preferred: lenny_stream_settings {
            codec: LENNY_CODEC_H264,
            mode: lenny_mode { width: 1920, height: 1080, fps_num: 30, fps_den: 1 },
            bitrate_kbps: 8000,
            has_lens: 0,
            lens_id: 0,
        },
    }
}

// ---- pictures ----

/// A picture for the preview: upright, in the video's own proportions.
pub struct Preview {
    pub width: usize,
    pub height: usize,
    pub rgba: Vec<u8>,
    /// The size that the decoder produced, before it was turned.
    pub source: (usize, usize),
}

/// The bytes of the preview of a picture.
pub open spec fn preview_rgba(p: Picture, rotation: u8) -> Seq<u8> {
    let (w, h) = preview_size_of(p.width, p.height, rotation);
    if w > 0 {
        rgba_of(canvas_of(p, rotation, w, h), w, h)
    } else {
        Seq::empty()
    }
}

/// What the virtual camera gets of a picture.
pub open spec fn camera_canvas(p: Picture, rotation: u8) -> Seq<u8> {
    canvas_of(p, rotation, 1280, 720)
}

/// The preview of a picture can be held in memory.
pub open spec fn preview_fits(p: Picture, rotation: u8) -> bool {
    let (w, h) = preview_size_of(p.width, p.height, rotation);
    w * h * 4 <= usize::MAX
}

/// A decoded picture for the virtual camera, fitted into its canvas, and for the preview. Nothing for a picture whose
/// planes do not hold what its size promises, or whose preview does not fit in memory.
pub fn present(p: &Picture, rotation: u8) -> (r: Option<(Vec<u8>, Preview)>)
    ensures
        r is Some <==> usable(*p) && preview_fits(*p, rotation),
        r matches Some((canvas, v)) ==> {
            &&& canvas@ == camera_canvas(*p, rotation)
            &&& (v.width as int, v.height as int) == preview_size_of(p.width, p.height, rotation)
            &&& v.rgba@ == preview_rgba(*p, rotation)
            &&& v.source == (p.width, p.height)
        },
{
    if !is_usable(p) {
        return None;
    }
    let (width, height): (usize, usize) = preview_size(p.width, p.height, rotation);
    assert(0 <= width * height <= 960 * usize::MAX) by (nonlinear_arith)
        requires
            0 <= width <= 960,
            0 <= height <= usize::MAX,
    ;
    if width as u128 * height as u128 * 4 > usize::MAX as u128 {
        return None;
    }
    let canvas = compose_i420(p, rotation, 1280, 720);
    let rgba = if width > 0 {
        let small = compose_i420(p, rotation, width, height);
        i420_to_rgba(small.as_slice(), width, height)
    } else {
        Vec::new()
    };
    assert(rgba@ =~= preview_rgba(*p, rotation));
    Some((canvas, Preview { width, height, rgba, source: (p.width, p.height) }))
}

// ---- the virtual camera ----

/// The time between two frames of the virtual camera, in nanoseconds.
pub const FRAME_PERIOD_NS: i64 = 33_333_333;

/// The virtual camera's thread: when the next frame is due, which notice is drawn, and whether writing fails.
#[derive(Clone, Copy, Debug, PartialEq, Eq, Structural)]
pub struct CameraLoop {
    pub next_ns: i64,
    pub drawn: Option<Notice>,
    pub failing: bool,
}

/// What goes to the camera.
#[derive(Clone, Copy, Debug, PartialEq, Eq, Structural)]
pub enum Feed {
    /// The last good frame.
    Live,
    /// The drawn notice.
    Drawn,
    /// The notice, which has to be drawn first.
    Draw(Notice),
}

/// Whether the last good frame still counts: it came less than `STALE_US` ago.
pub open spec fn is_live(frame_at: Option<i64>, now: i64) -> bool {
    match frame_at {
        Some(t) => now - t < STALE_US,
        None => false,
    }
}

/// What goes to the camera.
pub open spec fn feed_of(c: CameraLoop, frame_at: Option<i64>, notice: Notice, now: i64) -> Feed {
    if is_live(frame_at, now) {
        Feed::Live
    } else if c.drawn == Some(notice) {
        Feed::Drawn
    } else {
        Feed::Draw(notice)
    }
}

/// When the next frame is due, once one was written: a period later, or now for a loop that fell behind.
pub open spec fn next_due(next_ns: i64, now_ns: i64) -> int {
    if next_ns + FRAME_PERIOD_NS > now_ns {
        next_ns + FRAME_PERIOD_NS
    } else {
        now_ns as int
    }
}

impl CameraLoop {
    pub fn new(now_ns: i64) -> (c: CameraLoop)
        ensures
            c == (CameraLoop { next_ns: now_ns, drawn: None, failing: false }),
    {
        CameraLoop { next_ns: now_ns, drawn: None, failing: false }
    }

    /// What goes to the camera at `now`: the last good frame while it counts, else the notice. A notice is drawn once.
    pub fn feed(&mut self, frame_at: Option<i64>, notice: Notice, now: i64) -> (f: Feed)
        ensures
            f == feed_of(*old(self), frame_at, notice, now),
            *final(self) == (if is_live(frame_at, now) {
                *old(self)
            } else {
                CameraLoop { drawn: Some(notice), ..*old(self) }
            }),
    {
        let live = match frame_at {
            Some(t) => !more_than(now, t, STALE_US - 1),
            None => false,
        };
        if live {
            return Feed::Live;
        }
        let same = match self.drawn {
            Some(d) => d == notice,
            None => false,
        };
        self.drawn = Some(notice);
        if same {
            Feed::Drawn
        } else {
            Feed::Draw(notice)
        }
    }

    /// A frame was written, or not. True for the first of a run of failures: that one is logged.
    pub fn wrote(&mut self, ok: bool) -> (log: bool)
        ensures
            log == (!ok && !old(self).failing),
            *final(self) == (CameraLoop { failing: !ok, ..*old(self) }),
    {
        let log = !ok && !self.failing;
        self.failing = !ok;
        log
    }

    /// How long to sleep until the next frame, in nanoseconds.
    pub fn pace(&mut self, now_ns: i64) -> (sleep: u64)
        requires
            old(self).next_ns <= i64::MAX - FRAME_PERIOD_NS,
        ensures
            *final(self) == (CameraLoop { next_ns: next_due(old(self).next_ns, now_ns) as i64, ..*old(self) }),
            sleep == next_due(old(self).next_ns, now_ns) - now_ns,
    {
        let next: i64 = self.next_ns + FRAME_PERIOD_NS;
        if next > now_ns {
            self.next_ns = next;
            (next as i128 - now_ns as i128) as u64
        } else {
            self.next_ns = now_ns;
            0
        }
    }
}

} // verus!
