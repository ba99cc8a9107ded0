//! A phone without a phone: a synthetic camera in front of an H.264 encoder. It answers controls like a phone would;
//! zoom and pan move its synthetic sensor, focus and exposure are echoed.
use vstd::prelude::*;

use openh264::encoder::{Encoder, FrameType};
use openh264::formats::YUVBuffer;

use crate::abi::{
    lenny_control, lenny_control_cmd, lenny_control_state, lenny_identity, lenny_mode, lenny_stream_settings,
    LENNY_ACK_OK, LENNY_ACK_UNSUPPORTED, LENNY_CAP_EXPOSURE_COMP, LENNY_CAP_EXPOSURE_LOCK, LENNY_CAP_FOCUS,
    LENNY_CAP_LENS, LENNY_CAP_PAN, LENNY_CAP_TORCH, LENNY_CAP_ZOOM, LENNY_FRAME_KEYFRAME, LENNY_PLATFORM_ANDROID,
};
use crate::session::state::SenderConfig;
use crate::ui::panel::all_auto;
use crate::wire::caps::{Lens, LensView};
use crate::wire::control::low_byte;
use crate::wire::simple::PAN_CENTER;

verus! {

/// The synthetic camera.
#[derive(Clone, Copy, Debug)]
pub struct Camera {
    /// The next frame has to be a keyframe.
    pub want_key: bool,
    pub state: lenny_control_state,
    /// The stream's width, height and whole frames per second; nothing before the first configuration.
    pub size: Option<(u16, u16, u16)>,
    /// Something changed that the desktop has to be told.
    pub changed: bool,
}

/// What the phone does next.
#[derive(Clone, Copy, Debug, PartialEq, Eq, Structural)]
pub enum Step {
    Wait,
    /// Encode a picture; before that, if `tell`, send the camera's state.
    Picture { width: u16, height: u16, fps: u16, tell: bool },
}

/// The camera at the start: not zoomed, in the centre, three quarters charged.
pub open spec fn first_state() -> lenny_control_state {
    lenny_control_state {
        af_mode: 0,
        exposure_comp: 0,
        exposure_lock: 0,
        wb_lock: 0,
        torch: 0,
        lens_id: 0,
        zoom: 100,
        battery: 76,
        charging: 0,
        pan_x: PAN_CENTER,
        pan_y: PAN_CENTER,
    }
}

/// `v` within `lo` and `hi`.
pub open spec fn within(v: int, lo: int, hi: int) -> int {
    if v < lo {
        lo
    } else if v > hi {
        hi
    } else {
        v
    }
}

/// The controls after a command that the camera knows.
pub open spec fn controlled(s: lenny_control_state, c: lenny_control) -> lenny_control_state {
    if c.cmd == lenny_control_cmd::LENNY_CTL_ZOOM.code() {
        lenny_control_state { zoom: within(c.value as int, 100, 400) as u16, ..s }
    } else if c.cmd == lenny_control_cmd::LENNY_CTL_PAN.code() {
        lenny_control_state { pan_x: c.x, pan_y: c.y, ..s }
    } else if c.cmd == lenny_control_cmd::LENNY_CTL_FOCUS_AT.code() {
        lenny_control_state { af_mode: 1, ..s }
    } else if c.cmd == lenny_control_cmd::LENNY_CTL_EXPOSURE_COMP.code() {
        lenny_control_state { exposure_comp: c.value, ..s }
    } else if c.cmd == lenny_control_cmd::LENNY_CTL_EXPOSURE_LOCK.code() {
        lenny_control_state { exposure_lock: (c.value as int % 256) as u8, ..s }
    } else if c.cmd == lenny_control_cmd::LENNY_CTL_TORCH.code() {
        lenny_control_state { torch: (c.value as int % 256) as u8, ..s }
    } else if c.cmd == lenny_control_cmd::LENNY_CTL_SELECT_LENS.code() {
        lenny_control_state { lens_id: (c.value as int % 256) as u8, ..s }
    } else if c.cmd == lenny_control_cmd::LENNY_CTL_RESET_AUTO.code() {
        lenny_control_state { af_mode: 0, exposure_comp: 0, exposure_lock: 0, wb_lock: 0, ..s }
    } else {
        s
    }
}

/// The commands that the camera knows.
pub open spec fn knows(cmd: u16) -> bool {
    ||| cmd == lenny_control_cmd::LENNY_CTL_KEYFRAME_REQUEST.code()
    ||| cmd == lenny_control_cmd::LENNY_CTL_ZOOM.code()
    ||| cmd == lenny_control_cmd::LENNY_CTL_PAN.code()
    ||| cmd == lenny_control_cmd::LENNY_CTL_FOCUS_AT.code()
    ||| cmd == lenny_control_cmd::LENNY_CTL_EXPOSURE_COMP.code()
    ||| cmd == lenny_control_cmd::LENNY_CTL_EXPOSURE_LOCK.code()
    ||| cmd == lenny_control_cmd::LENNY_CTL_TORCH.code()
    ||| cmd == lenny_control_cmd::LENNY_CTL_SELECT_LENS.code()
    ||| cmd == lenny_control_cmd::LENNY_CTL_RESET_AUTO.code()
}

/// The camera after the desktop asked for a stream.
pub open spec fn asked_for(cam: Camera, req: lenny_stream_settings) -> Camera {
    Camera {
        size: Some(
            (
                req.mode.width,
                req.mode.height,
                (req.mode.fps_num / (if req.mode.fps_den > 1 {
                    req.mode.fps_den
                } else {
                    1
                })),
            ),
        ),
        changed: true,
        ..cam
    }
}

/// What it streams with.
pub open spec fn granted(req: lenny_stream_settings) -> lenny_stream_settings {
    lenny_stream_settings {
        bitrate_kbps: (if req.bitrate_kbps < 4000 {
            req.bitrate_kbps
        } else {
            4000
        }),
        ..req
    }
}

/// What to do next.
pub open spec fn step_of(cam: Camera, streaming: bool) -> Step {
    match cam.size {
        Some((width, height, fps)) => if streaming && width != 0 {
            Step::Picture { width, height, fps, tell: cam.changed }
        } else {
            Step::Wait
        },
        None => Step::Wait,
    }
}

/// What a control is answered.
pub open spec fn ack_of(c: lenny_control) -> i32 {
    if knows(c.cmd) {
        LENNY_ACK_OK
    } else {
        LENNY_ACK_UNSUPPORTED
    }
}

/// The camera after a control.
pub open spec fn after_control(cam: Camera, c: lenny_control) -> Camera {
    if knows(c.cmd) {
        Camera {
            want_key: cam.want_key || c.cmd == lenny_control_cmd::LENNY_CTL_KEYFRAME_REQUEST.code(),
            state: controlled(cam.state, c),
            changed: true,
            ..cam
        }
    } else {
        cam
    }
}

impl Camera {
    pub fn new() -> (c: Camera)
        ensures
            c == (Camera { want_key: false, state: first_state(), size: None, changed: false }),
    {
        let mut state = lenny_control_state::default();
        state.zoom = 100;
        state.battery = 76;
        state.pan_x = PAN_CENTER;
        state.pan_y = PAN_CENTER;
        Camera { want_key: false, state, size: None, changed: false }
    }

    /// The desktop asks for a stream. The camera takes its mode as it is and gives at most 4 Mbit/s.
    pub fn on_config(&mut self, req: &lenny_stream_settings) -> (eff: lenny_stream_settings)
        ensures
            *final(self) == asked_for(*old(self), *req),
            eff == granted(*req),
    {
        let den: u16 = if req.mode.fps_den > 1 {
            req.mode.fps_den
        } else {
            1
        };
        self.size = Some((req.mode.width, req.mode.height, req.mode.fps_num / den));
        self.changed = true;
        let kbps: u32 = if req.bitrate_kbps < 4000 {
            req.bitrate_kbps
        } else {
            4000
        };
        lenny_stream_settings { bitrate_kbps: kbps, ..*req }
    }

    /// Carries out a control. One that the camera does not know changes nothing.
    pub fn on_control(&mut self, c: &lenny_control) -> (ack: i32)
        ensures
            ack == ack_of(*c),
            *final(self) == after_control(*old(self), *c),
    {
        if c.cmd == lenny_control_cmd::LENNY_CTL_KEYFRAME_REQUEST.code() {
            self.want_key = true;
        } else if c.cmd == lenny_control_cmd::LENNY_CTL_ZOOM.code() {
            let v: i32 = if c.value < 100 {
                100
            } else if c.value > 400 {
                400
            } else {
                c.value
            };
            self.state.zoom = v as u16;
        } else if c.cmd == lenny_control_cmd::LENNY_CTL_PAN.code() {
            self.state.pan_x = c.x;
            self.state.pan_y = c.y;
        } else if c.cmd == lenny_control_cmd::LENNY_CTL_FOCUS_AT.code() {
            self.state.af_mode = 1;
        } else if c.cmd == lenny_control_cmd::LENNY_CTL_EXPOSURE_COMP.code() {
            self.state.exposure_comp = c.value;
        } else if c.cmd == lenny_control_cmd::LENNY_CTL_EXPOSURE_LOCK.code() {
            self.state.exposure_lock = low_byte(c.value);
        } else if c.cmd == lenny_control_cmd::LENNY_CTL_TORCH.code() {
            self.state.torch = low_byte(c.value);
        } else if c.cmd == lenny_control_cmd::LENNY_CTL_SELECT_LENS.code() {
            self.state.lens_id = low_byte(c.value);
        } else if c.cmd == lenny_control_cmd::LENNY_CTL_RESET_AUTO.code() {
            self.state.af_mode = 0;
            self.state.exposure_comp = 0;
            self.state.exposure_lock = 0;
            self.state.wb_lock = 0;
        } else {
            return LENNY_ACK_UNSUPPORTED;
        }
        self.changed = true;
        LENNY_ACK_OK
    }

    /// What to do next: nothing while the session does not stream or no stream has been configured; else a picture of
    /// the stream's size. A change is told once.
    pub fn next(&mut self, streaming: bool) -> (s: Step)
        ensures
            s == step_of(*old(self), streaming),
            *final(self) == (if s is Wait {
                *old(self)
            } else {
                Camera { changed: false, ..*old(self) }
            }),
    {
        if !streaming {
            return Step::Wait;
        }
        match self.size {
            Some((width, height, fps)) => {
                if width == 0 {
                    return Step::Wait;
                }
                let tell = self.take_changed();
                Step::Picture { width, height, fps, tell }
            },
            None => Step::Wait,
        }
    }

    /// Whether the desktop has to be told of a change; it is told once.
    pub fn take_changed(&mut self) -> (r: bool)
        ensures
            r == old(self).changed,
            *final(self) == (Camera { changed: false, ..*old(self) }),
    {
        let r = self.changed;
        self.changed = false;
        r
    }
}

/// A click on "Auto" undoes everything that manual focus and exposure have set.
pub proof fn law_reset_returns_to_auto(s: lenny_control_state, c: lenny_control)
    requires
        c.cmd == lenny_control_cmd::LENNY_CTL_RESET_AUTO.code(),
    ensures
        all_auto(controlled(s, c)),
{
}

// ---- capabilities ----

pub open spec fn mode_of(width: u16, height: u16, fps: u16) -> lenny_mode {
    lenny_mode { width, height, fps_num: fps, fps_den: 1 }
}

fn mode(width: u16, height: u16, fps: u16) -> (m: lenny_mode)
    ensures
        m == mode_of(width, height, fps),
{
    lenny_mode { width, height, fps_num: fps, fps_den: 1 }
}

/// What the lens on the back streams.
pub open spec fn back_modes() -> Seq<lenny_mode> {
    seq![
        mode_of(1920, 1080, 30),
        mode_of(1280, 720, 30),
        mode_of(1280, 720, 60),
        mode_of(1440, 1080, 30),
        mode_of(960, 720, 30),
    ]
}

/// What the lens on the front streams.
pub open spec fn front_modes() -> Seq<lenny_mode> {
    seq![mode_of(1280, 720, 30), mode_of(960, 720, 30)]
}

fn back() -> (r: Vec<lenny_mode>)
    ensures
        r@ == back_modes(),
{
    let r = vec![
        mode(1920, 1080, 30),
        mode(1280, 720, 30),
        mode(1280, 720, 60),
        mode(1440, 1080, 30),
        mode(960, 720, 30),
    ];
    assert(r@ =~= back_modes());
    r
}

fn front() -> (r: Vec<lenny_mode>)
    ensures
        r@ == front_modes(),
{
    let r = vec![mode(1280, 720, 30), mode(960, 720, 30)];
    assert(r@ =~= front_modes());
    r
}

/// The two lenses: `1x` on the back, up to four times, and `Front`, up to twice.
pub open spec fn lens_views() -> Seq<LensView> {
    seq![
        LensView {
            id: 0,
            facing: 0,
            label: seq![49, 120],
            modes: back_modes(),
            zoom_min: 100,
            zoom_max: 400,
            zoom_base: 100,
        },
        LensView {
            id: 1,
            facing: 1,
            label: seq![70, 114, 111, 110, 116],
            modes: front_modes(),
            zoom_min: 100,
            zoom_max: 200,
            zoom_base: 100,
        },
    ]
}

/// What the phone is: its id is `id` sixteen times over, and it knows all controls but focus and white balance locks.
pub fn phone_config(id: u8) -> (c: SenderConfig)
    ensures
        c.identity.device_id@ =~= Seq::new(16, |i: int| id),
        c.identity.device_name@ =~= seq![70u8, 97, 107, 101, 32, 112, 104, 111, 110, 101],
        c.identity.app_version@ =~= seq![116u8, 101, 115, 116],
        c.identity.platform == LENNY_PLATFORM_ANDROID,
        c.modes@ == back_modes(),
        c.max_bitrate_kbps == 8000,
        c.controls == LENNY_CAP_FOCUS + LENNY_CAP_EXPOSURE_COMP + LENNY_CAP_EXPOSURE_LOCK + LENNY_CAP_TORCH
            + LENNY_CAP_LENS + LENNY_CAP_ZOOM + LENNY_CAP_PAN,
        c.lenses@.map_values(|l: Lens| l@) =~= lens_views(),
        c.exposure_comp_min == -2000,
        c.exposure_comp_max == 2000,
        c.exposure_comp_step_milli == 333,
{
    let first = Lens {
        id: 0,
        facing: 0,
        label: vec![49u8, 120],
        modes: back(),
        zoom_min: 100,
        zoom_max: 400,
        zoom_base: 100,
    };
    let second = Lens {
        id: 1,
        facing: 1,
        label: vec![70u8, 114, 111, 110, 116],
        modes: front(),
        zoom_min: 100,
        zoom_max: 200,
        zoom_base: 100,
    };
    assert(first@ =~= lens_views()[0]);
    assert(second@ =~= lens_views()[1]);
    let lenses = vec![first, second];
    assert(lenses@.map_values(|l: Lens| l@) =~= lens_views());
    SenderConfig {
        identity: lenny_identity {
            device_id: [id;16],
            device_name: vec![70u8, 97, 107, 101, 32, 112, 104, 111, 110, 101],
            app_version: vec![116u8, 101, 115, 116],
            platform: LENNY_PLATFORM_ANDROID,
        },
        modes: back(),
        max_bitrate_kbps: 8000,
        controls: LENNY_CAP_FOCUS + LENNY_CAP_EXPOSURE_COMP + LENNY_CAP_EXPOSURE_LOCK + LENNY_CAP_TORCH
            + LENNY_CAP_LENS + LENNY_CAP_ZOOM + LENNY_CAP_PAN,
        lenses,
        exposure_comp_min: -2000,
        exposure_comp_max: 2000,
        exposure_comp_step_milli: 333,
    }
}

// ---- parameter sets ----

/// A NAL unit's start code, 00 00 01, stands at `i`, and a byte of the unit behind it.
pub open spec fn starts_at(au: Seq<u8>, i: int) -> bool {
    0 <= i && i + 3 < au.len() && au[i] == 0 && au[i + 1] == 0 && au[i + 2] == 1
}

/// The first start code from `i` on, or the length where there is none.
pub open spec fn next_start(au: Seq<u8>, i: int) -> int
    decreases au.len() - i,
{
    if i + 3 >= au.len() {
        au.len() as int
    } else if starts_at(au, i) {
        i
    } else {
        next_start(au, i + 1)
    }
}

/// Where a unit ends whose follower starts at `next`: a zero byte before the start code belongs to the start code.
pub open spec fn unit_end(au: Seq<u8>, next: int) -> int {
    if next < au.len() && au[next - 1] == 0 {
        next - 1
    } else {
        next
    }
}

/// SPS (7) and PPS (8).
pub open spec fn is_parameter_set(header: u8) -> bool {
    header & 0x1f == 7 || header & 0x1f == 8
}

/// The parameter sets among the units from the one that starts at `s`, each behind a long start code.
pub open spec fn sets_from(au: Seq<u8>, s: int) -> Seq<u8>
    decreases au.len() - s,
{
    if s < 0 || s + 3 >= au.len() {
        Seq::empty()
    } else {
        proof {
            lemma_next_start(au, s + 1);
        }
        let next = next_start(au, s + 1);
        let rest = sets_from(au, next);
        if is_parameter_set(au[s + 3]) {
            seq![0u8, 0, 0, 1] + au.subrange(s + 3, unit_end(au, next)) + rest
        } else {
            rest
        }
    }
}

/// The SPS and PPS of an access unit in Annex B form.
pub open spec fn parameter_sets_of(au: Seq<u8>) -> Seq<u8> {
    sets_from(au, next_start(au, 0))
}

/// The first start code lies in the rest of the unit, and none lies before it.
pub proof fn lemma_next_start(au: Seq<u8>, i: int)
    requires
        0 <= i <= au.len(),
    ensures
        i <= next_start(au, i) <= au.len(),
        next_start(au, i) < au.len() ==> starts_at(au, next_start(au, i)),
        forall|k: int| i <= k < next_start(au, i) ==> !starts_at(au, k),
    decreases au.len() - i,
{
    if i + 3 < au.len() && !starts_at(au, i) {
        lemma_next_start(au, i + 1);
    }
}

fn find_start(au: &[u8], from: usize) -> (r: usize)
    requires
        from <= au@.len(),
    ensures
        r == next_start(au@, from as int),
{
    let n: usize = au.len();
    if n < 3 {
        return n;
    }
    let mut i: usize = from;
    while i < n - 3
        invariant
            from <= i <= n,
            3 <= n,
            n == au@.len(),
            next_start(au@, i as int) == next_start(au@, from as int),
        decreases n - i,
    {
        if au[i] == 0 && au[i + 1] == 0 && au[i + 2] == 1 {
            return i;
        }
        i = i + 1;
    }
    n
}

/// The SPS and PPS of an access unit in Annex B form, each behind a long start code.
pub fn parameter_sets(au: &[u8]) -> (out: Vec<u8>)
    ensures
        out@ == parameter_sets_of(au@),
{
    let n: usize = au.len();
    let mut out: Vec<u8> = Vec::new();
    let mut s: usize = find_start(au, 0);
    proof {
        lemma_next_start(au@, 0);
    }
    assert(out@ + sets_from(au@, s as int) =~= sets_from(au@, s as int));
    while s < n
        invariant
            s <= n,
            n == au@.len(),
            s < n ==> starts_at(au@, s as int),
            out@ + sets_from(au@, s as int) == parameter_sets_of(au@),
        decreases n - s,
    {
        let next: usize = find_start(au, s + 1);
        proof {
            lemma_next_start(au@, s + 1);
            assert(!starts_at(au@, s + 1) && !starts_at(au@, s + 2));
        }
        let end: usize = if next < n && au[next - 1] == 0 {
            next - 1
        } else {
            next
        };
        assert(s + 3 <= end <= n);
        let ghost before = out@;
        let header: u8 = au[s + 3];
        if header & 0x1f == 7 || header & 0x1f == 8 {
            out.push(0);
            out.push(0);
            out.push(0);
            out.push(1);
            out.extend_from_slice(&au[s + 3..end]);
            assert(out@ =~= before + (seq![0u8, 0, 0, 1] + au@.subrange(s + 3, end as int)));
        }
        assert(out@ + sets_from(au@, next as int) =~= before + sets_from(au@, s as int));
        s = next;
    }
    assert(out@ + sets_from(au@, s as int) =~= out@);
    out
}

// ---- encoding ----

/// An OpenH264 encoder: `given` and `came_back` tell what went through it.
#[verifier::external_type_specification]
#[verifier::external_body]
pub struct ExEncoder(openh264::encoder::Encoder);

/// What the encoder says that it made.
#[derive(Clone, Copy, Debug, PartialEq, Eq, Structural)]
pub enum Made {
    Invalid,
    Idr,
    I,
    P,
    Skip,
    Mixed,
}

/// What an encoder was given, in order: pictures, with their width, height and planes, and between them, as `None`,
/// the wish that the next one be a keyframe.
pub uninterp spec fn given(encoder: Encoder) -> Seq<Option<(nat, nat, Seq<u8>)>>;

/// What came back of those pictures, one for each: a kind and bytes, or `None` where the encoder failed.
pub uninterp spec fn came_back(encoder: Encoder) -> Seq<Option<(Made, Seq<u8>)>>;

/// What came of a picture, by what the encoder returned.
pub open spec fn made_of(r: Result<(Made, Vec<u8>), openh264::Error>) -> Option<(Made, Seq<u8>)> {
    match r {
        Ok((made, data)) => Some((made, data@)),
        Err(_) => None,
    }
}

/// `Encoder::new`: an encoder that was given nothing, or none where the library fails to make one.
#[verifier::external_body]
fn new_encoder() -> (r: Option<Encoder>)
    ensures
        r matches Some(e) ==> given(e).len() == 0 && came_back(e).len() == 0,
{
    Encoder::new().ok()
}

/// `Encoder::force_intra_frame`: asks that the next frame be a keyframe.
#[verifier::external_body]
fn force_intra_frame(encoder: &mut Encoder)
    ensures
        given(*final(encoder)) == given(*old(encoder)).push(None),
        came_back(*final(encoder)) == came_back(*old(encoder)),
{
    encoder.force_intra_frame();
}

/// No picture is larger than this, lying or standing, in what the encoder takes.
pub open spec fn too_large(width: int, height: int) -> bool {
    width > 3840 || height > 3840 || (width > 2160 && height > 2160)
}

/// `Encoder::encode`, on a `YUVBuffer` of the picture: its kind and its bytes. Pictures that are too large are refused.
/// What comes back of others depends on all that the encoder was given before, and on the machine's threads, and is not
/// said.
#[verifier::external_body]
fn encode(encoder: &mut Encoder, yuv: Vec<u8>, width: usize, height: usize) -> (r: Result<
    (Made, Vec<u8>),
    openh264::Error,
>)
    requires
        width % 2 == 0,
        height % 2 == 0,
        2 * yuv@.len() == 3 * (width * height),
        3 * (width * height) <= usize::MAX,
    ensures
        given(*final(encoder)) == given(*old(encoder)).push(Some((width as nat, height as nat, yuv@))),
        came_back(*final(encoder)) == came_back(*old(encoder)).push(made_of(r)),
        width <= i32::MAX && height <= i32::MAX && too_large(width as int, height as int) ==> r is Err,
{
    let picture = YUVBuffer::from_vec(yuv, width, height);
    let stream = encoder.encode(&picture)?;
    let made = match stream.frame_type() {
        FrameType::Invalid => Made::Invalid,
        FrameType::IDR => Made::Idr,
        FrameType::I => Made::I,
        FrameType::P => Made::P,
        FrameType::Skip => Made::Skip,
        FrameType::IPMixed => Made::Mixed,
    };
    Ok((made, stream.to_vec()))
}

/// What goes to the desktop for one picture: parameter sets before a keyframe, and the frame, unless it is empty.
pub struct Encoded {
    pub config: Option<Vec<u8>>,
    pub frame: Option<(Vec<u8>, u8)>,
}

/// A picture that can be decoded without others.
pub open spec fn is_key(made: Made) -> bool {
    made == Made::Idr || made == Made::I
}

/// `e` is what goes to the desktop where the encoder made `data` of kind `made`.
pub open spec fn is_encoded(made: Made, data: Seq<u8>, e: Encoded) -> bool {
    &&& e.config is Some <==> is_key(made)
    &&& e.config matches Some(c) ==> c@ == parameter_sets_of(data)
    &&& e.frame is Some <==> data.len() > 0
    &&& e.frame matches Some((d, flags)) ==> d@ == data && flags == (if is_key(made) {
        LENNY_FRAME_KEYFRAME
    } else {
        0
    })
}

/// What goes to the desktop where the encoder made `data` of kind `made`.
pub fn encoded(made: Made, data: Vec<u8>) -> (e: Encoded)
    ensures
        is_encoded(made, data@, e),
{
    let key = made == Made::Idr || made == Made::I;
    let config = if key {
        Some(parameter_sets(data.as_slice()))
    } else {
        None
    };
    let flags: u8 = if key {
        LENNY_FRAME_KEYFRAME
    } else {
        0
    };
    let frame = if data.len() > 0 {
        Some((data, flags))
    } else {
        None
    };
    Encoded { config, frame }
}

/// The phone's encoder: made anew whenever the picture changes its size.
pub struct PhoneEncoder {
    encoder: Option<Encoder>,
    width: usize,
    height: usize,
}

impl PhoneEncoder {
    /// The size that it encodes, once it has an encoder.
    pub closed spec fn size(&self) -> Option<(usize, usize)> {
        match self.encoder {
            Some(_) => Some((self.width, self.height)),
            None => None,
        }
    }

    /// What its encoder was given since it was made; nothing while there is none.
    pub closed spec fn given(&self) -> Seq<Option<(nat, nat, Seq<u8>)>> {
        match self.encoder {
            Some(e) => given(e),
            None => Seq::empty(),
        }
    }

    /// What came back of the pictures among it, one for each.
    pub closed spec fn came_back(&self) -> Seq<Option<(Made, Seq<u8>)>> {
        match self.encoder {
            Some(e) => came_back(e),
            None => Seq::empty(),
        }
    }

    pub fn new() -> (e: PhoneEncoder)
        ensures
            e.size() is None,
            e.given().len() == 0,
            e.came_back().len() == 0,
    {
        PhoneEncoder { encoder: None, width: 0, height: 0 }
    }

    /// Takes the encoder that OpenH264 made for pictures of this size, in place of the one before. It starts with a
    /// keyframe. Where none was made there is none, and the camera still owes a keyframe.
    pub fn replaced(
        &mut self,
        made: Option<Encoder>,
        camera: &mut Camera,
        width: usize,
        height: usize,
    ) -> (r: Option<(usize, usize)>)
        ensures
            match made {
                Some(e) => {
                    &&& r == Some((width, height))
                    &&& final(self).size() == r
                    &&& final(self).given() == given(e).push(None)
                    &&& final(self).came_back() == came_back(e)
                    &&& *final(camera) == (Camera { want_key: false, ..*old(camera) })
                },
                None => {
                    &&& r is None
                    &&& final(self).size() is None
                    &&& final(self).given().len() == 0
                    &&& final(self).came_back().len() == 0
                    &&& *final(camera) == (Camera { want_key: true, ..*old(camera) })
                },
            },
    {
        self.width = width;
        self.height = height;
        match made {
            Some(mut e) => {
                force_intra_frame(&mut e);
                self.encoder = Some(e);
                camera.want_key = false;
                Some((width, height))
            },
            None => {
                self.encoder = None;
                camera.want_key = true;
                None
            },
        }
    }

    /// Gets ready for the camera's next picture: the even size that it has to have, or nothing where no encoder can be
    /// made. An encoder for another size is replaced; a keyframe that the camera was asked for is handed on. Whether an
    /// encoder can be made is up to OpenH264; `replaced` says what comes of either.
    pub fn prepare(&mut self, camera: &mut Camera, width: usize, height: usize) -> (r: Option<(usize, usize)>)
        ensures
            r matches Some((w, h)) ==> w == width - width % 2 && h == height - height % 2 && final(self).size() == Some(
                (w, h),
            ) && *final(camera) == (Camera { want_key: false, ..*old(camera) }),
            r is None ==> final(self).size() is None && *final(camera) == (Camera { want_key: true, ..*old(camera) }),
            r is None ==> final(self).given().len() == 0 && final(self).came_back().len() == 0,
            old(self).size() == Some(((width - width % 2) as usize, (height - height % 2) as usize)) ==> r is Some
                && final(self).came_back() == old(self).came_back() && final(self).given() == (if old(
                camera,
            ).want_key {
                old(self).given().push(None)
            } else {
                old(self).given()
            }),
            r is Some && old(self).size() != Some(((width - width % 2) as usize, (height - height % 2) as usize))
                ==> final(self).given() == seq![None::<(nat, nat, Seq<u8>)>] && final(self).came_back().len() == 0,
    {
        let w: usize = width - width % 2;
        let h: usize = height - height % 2;
        if self.width == w && self.height == h {
            match &mut self.encoder {
                Some(e) => {
                    if camera.want_key {
                        camera.want_key = false;
                        force_intra_frame(e);
                    }
                    return Some((w, h));
                },
                None => {},
            }
        }
        let r = self.replaced(new_encoder(), camera, w, h);
        assert(r is Some ==> self.given() =~= seq![None::<(nat, nat, Seq<u8>)>]);
        r
    }

    /// Encodes a picture of the size that `prepare` gave, in planar YUV with the colours at half the size. Nothing
    /// where the encoder fails; else what goes to the desktop of what it made.
    pub fn encode(&mut self, yuv: Vec<u8>) -> (r: Option<Encoded>)
        requires
            old(self).size() matches Some((w, h)) && w % 2 == 0 && h % 2 == 0 && 2 * yuv@.len() == 3 * (w * h) && 3 * (w
                * h) <= usize::MAX,
        ensures
            final(self).size() == old(self).size(),
            old(self).size() matches Some((w, h)) && final(self).given() == old(self).given().push(
                Some((w as nat, h as nat, yuv@)),
            ),
            final(self).came_back().len() == old(self).came_back().len() + 1,
            final(self).came_back().drop_last() == old(self).came_back(),
            match final(self).came_back().last() {
                Some((made, data)) => r matches Some(e) && is_encoded(made, data, e),
                None => r is None,
            },
            old(self).size() matches Some((w, h)) && (w <= i32::MAX && h <= i32::MAX && too_large(w as int, h as int)
                ==> r is None),
    {
        let (w, h): (usize, usize) = (self.width, self.height);
        match &mut self.encoder {
            Some(e) => {
                let ghost before = came_back(*e);
                let made = encode(e, yuv, w, h);
                assert(came_back(*e).drop_last() =~= before);
                match made {
                    Ok((made, data)) => Some(encoded(made, data)),
                    Err(_) => None,
                }
            },
            None => None,
        }
    }
}

} // verus!
