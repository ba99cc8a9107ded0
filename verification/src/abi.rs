//! The values that cross the library's C interface: constants, codes and plain records.
#![allow(non_camel_case_types)]
use vstd::prelude::*;

verus! {

pub const LENNY_ABI_VERSION_MAJOR: u32 = 1;

pub const LENNY_ABI_VERSION_MINOR: u32 = 3;

pub const LENNY_DEFAULT_PORT: u16 = 47474;

pub const LENNY_DEVICE_ID_SIZE: usize = 16;

pub const LENNY_PAIR_TOKEN_SIZE: usize = 16;

// ---- Results ----
pub const LENNY_OK: i32 = 0;

pub const LENNY_E_INVALID_ARG: i32 = -1;

pub const LENNY_E_STATE: i32 = -2;

pub const LENNY_E_IO: i32 = -3;

pub const LENNY_E_INTERNAL: i32 = -4;

/// Session state. Functions and callbacks carry it as its code.
#[derive(Clone, Copy, Debug, PartialEq, Eq, Structural)]
pub enum lenny_state {
    LENNY_STATE_IDLE,
    LENNY_STATE_CONNECTING,
    LENNY_STATE_HANDSHAKE,
    LENNY_STATE_AWAITING_APPROVAL,
    LENNY_STATE_STREAMING,
    LENNY_STATE_RECONNECTING,
    LENNY_STATE_CLOSED,
}

impl lenny_state {
    /// The number that stands for the state.
    #[verifier::allow_in_spec]
    pub fn code(self) -> i32
        returns
            (match self {
                lenny_state::LENNY_STATE_IDLE => 0i32,
                lenny_state::LENNY_STATE_CONNECTING => 1i32,
                lenny_state::LENNY_STATE_HANDSHAKE => 2i32,
                lenny_state::LENNY_STATE_AWAITING_APPROVAL => 3i32,
                lenny_state::LENNY_STATE_STREAMING => 4i32,
                lenny_state::LENNY_STATE_RECONNECTING => 5i32,
                lenny_state::LENNY_STATE_CLOSED => 6i32,
            }),
    {
        match self {
            lenny_state::LENNY_STATE_IDLE => 0,
            lenny_state::LENNY_STATE_CONNECTING => 1,
            lenny_state::LENNY_STATE_HANDSHAKE => 2,
            lenny_state::LENNY_STATE_AWAITING_APPROVAL => 3,
            lenny_state::LENNY_STATE_STREAMING => 4,
            lenny_state::LENNY_STATE_RECONNECTING => 5,
            lenny_state::LENNY_STATE_CLOSED => 6,
        }
    }
}

// ---- GOODBYE reasons, also reported with a state ----
pub const LENNY_REASON_NORMAL: i32 = 0;

pub const LENNY_REASON_VERSION: i32 = 1;

pub const LENNY_REASON_ROLE: i32 = 2;

pub const LENNY_REASON_PAIR_DENIED: i32 = 3;

pub const LENNY_REASON_BUSY: i32 = 4;

pub const LENNY_REASON_TIMEOUT: i32 = 5;

pub const LENNY_REASON_PROTOCOL_ERROR: i32 = 6;

pub const LENNY_REASON_USER: i32 = 7;

pub const LENNY_REASON_LINK_LOST: i32 = 100;

// ---- PAIR_RESULT codes ----
pub const LENNY_PAIR_OK: u8 = 0;

pub const LENNY_PAIR_UNKNOWN_TOKEN: u8 = 1;

pub const LENNY_PAIR_EXPIRED: u8 = 2;

pub const LENNY_PAIR_ALREADY_USED: u8 = 3;

pub const LENNY_PAIR_DENIED: u8 = 4;

pub const LENNY_PLATFORM_ANDROID: u8 = 1;

pub const LENNY_PLATFORM_IOS: u8 = 2;

pub const LENNY_PLATFORM_WINDOWS: u8 = 3;

pub const LENNY_PLATFORM_LINUX: u8 = 5;

pub const LENNY_CODEC_H264: u8 = 1;

/// A picture size and a frame rate `fps_num / fps_den`.
#[derive(Clone, Copy, Debug, PartialEq, Eq, Structural)]
pub struct lenny_mode {
    pub width: u16,
    pub height: u16,
    pub fps_num: u16,
    pub fps_den: u16,
}

impl Default for lenny_mode {
    fn default() -> (m: Self)
        ensures
            m == (lenny_mode { width: 0, height: 0, fps_num: 0, fps_den: 0 }),
    {
        lenny_mode { width: 0, height: 0, fps_num: 0, fps_den: 0 }
    }
}

#[derive(Clone, Copy, Debug, PartialEq, Eq, Structural)]
pub struct lenny_stream_settings {
    pub codec: u8,
    pub mode: lenny_mode,
    pub bitrate_kbps: u32,
    pub has_lens: u8,
    pub lens_id: u8,
}

impl Default for lenny_stream_settings {
    fn default() -> (s: Self)
        ensures
            s == (lenny_stream_settings {
                codec: 0,
                mode: lenny_mode { width: 0, height: 0, fps_num: 0, fps_den: 0 },
                bitrate_kbps: 0,
                has_lens: 0,
                lens_id: 0,
            }),
    {
        lenny_stream_settings {
            codec: 0,
            mode: lenny_mode::default(),
            bitrate_kbps: 0,
            has_lens: 0,
            lens_id: 0,
        }
    }
}

#[derive(Clone, Debug, PartialEq, Eq)]
pub struct lenny_lens {
    pub lens_id: u8,
    pub facing: u8,
    pub label: Vec<u8>,
}

/// Camera controls.
#[derive(Clone, Copy, Debug, PartialEq, Eq, Structural)]
pub enum lenny_control_cmd {
    LENNY_CTL_KEYFRAME_REQUEST,
    LENNY_CTL_FOCUS_AT,
    LENNY_CTL_FOCUS_LOCK,
    LENNY_CTL_FOCUS_AUTO,
    LENNY_CTL_EXPOSURE_COMP,
    LENNY_CTL_EXPOSURE_LOCK,
    LENNY_CTL_WB_LOCK,
    LENNY_CTL_TORCH,
    LENNY_CTL_SELECT_LENS,
    LENNY_CTL_ZOOM,
    LENNY_CTL_RESET_AUTO,
    LENNY_CTL_PAN,
}

/// The first and the last control tag.
pub const CTL_FIRST: u16 = 10;

pub const CTL_LAST: u16 = 21;

impl lenny_control_cmd {
    /// The number that stands for the control: its tag in a CONTROL message.
    #[verifier::allow_in_spec]
    pub fn code(self) -> u16
        returns
            (match self {
                lenny_control_cmd::LENNY_CTL_KEYFRAME_REQUEST => 10u16,
                lenny_control_cmd::LENNY_CTL_FOCUS_AT => 11u16,
                lenny_control_cmd::LENNY_CTL_FOCUS_LOCK => 12u16,
                lenny_control_cmd::LENNY_CTL_FOCUS_AUTO => 13u16,
                lenny_control_cmd::LENNY_CTL_EXPOSURE_COMP => 14u16,
                lenny_control_cmd::LENNY_CTL_EXPOSURE_LOCK => 15u16,
                lenny_control_cmd::LENNY_CTL_WB_LOCK => 16u16,
                lenny_control_cmd::LENNY_CTL_TORCH => 17u16,
                lenny_control_cmd::LENNY_CTL_SELECT_LENS => 18u16,
                lenny_control_cmd::LENNY_CTL_ZOOM => 19u16,
                lenny_control_cmd::LENNY_CTL_RESET_AUTO => 20u16,
                lenny_control_cmd::LENNY_CTL_PAN => 21u16,
            }),
    {
        match self {
            lenny_control_cmd::LENNY_CTL_KEYFRAME_REQUEST => 10,
            lenny_control_cmd::LENNY_CTL_FOCUS_AT => 11,
            lenny_control_cmd::LENNY_CTL_FOCUS_LOCK => 12,
            lenny_control_cmd::LENNY_CTL_FOCUS_AUTO => 13,
            lenny_control_cmd::LENNY_CTL_EXPOSURE_COMP => 14,
            lenny_control_cmd::LENNY_CTL_EXPOSURE_LOCK => 15,
            lenny_control_cmd::LENNY_CTL_WB_LOCK => 16,
            lenny_control_cmd::LENNY_CTL_TORCH => 17,
            lenny_control_cmd::LENNY_CTL_SELECT_LENS => 18,
            lenny_control_cmd::LENNY_CTL_ZOOM => 19,
            lenny_control_cmd::LENNY_CTL_RESET_AUTO => 20,
            lenny_control_cmd::LENNY_CTL_PAN => 21,
        }
    }

    /// The control that a tag stands for.
    pub open spec fn of(tag: u16) -> Option<lenny_control_cmd> {
        if tag == 10 {
            Some(lenny_control_cmd::LENNY_CTL_KEYFRAME_REQUEST)
        } else if tag == 11 {
            Some(lenny_control_cmd::LENNY_CTL_FOCUS_AT)
        } else if tag == 12 {
            Some(lenny_control_cmd::LENNY_CTL_FOCUS_LOCK)
        } else if tag == 13 {
            Some(lenny_control_cmd::LENNY_CTL_FOCUS_AUTO)
        } else if tag == 14 {
            Some(lenny_control_cmd::LENNY_CTL_EXPOSURE_COMP)
        } else if tag == 15 {
            Some(lenny_control_cmd::LENNY_CTL_EXPOSURE_LOCK)
        } else if tag == 16 {
            Some(lenny_control_cmd::LENNY_CTL_WB_LOCK)
        } else if tag == 17 {
            Some(lenny_control_cmd::LENNY_CTL_TORCH)
        } else if tag == 18 {
            Some(lenny_control_cmd::LENNY_CTL_SELECT_LENS)
        } else if tag == 19 {
            Some(lenny_control_cmd::LENNY_CTL_ZOOM)
        } else if tag == 20 {
            Some(lenny_control_cmd::LENNY_CTL_RESET_AUTO)
        } else if tag == 21 {
            Some(lenny_control_cmd::LENNY_CTL_PAN)
        } else {
            None
        }
    }

    /// The control that a tag stands for, or `None` for a tag that stands for none.
    pub fn from_code(tag: u16) -> (r: Option<lenny_control_cmd>)
        ensures
            r == lenny_control_cmd::of(tag),
            r matches Some(c) ==> c.code() == tag,
            r is None ==> tag < CTL_FIRST || tag > CTL_LAST,
    {
        match tag {
            10 => Some(lenny_control_cmd::LENNY_CTL_KEYFRAME_REQUEST),
            11 => Some(lenny_control_cmd::LENNY_CTL_FOCUS_AT),
            12 => Some(lenny_control_cmd::LENNY_CTL_FOCUS_LOCK),
            13 => Some(lenny_control_cmd::LENNY_CTL_FOCUS_AUTO),
            14 => Some(lenny_control_cmd::LENNY_CTL_EXPOSURE_COMP),
            15 => Some(lenny_control_cmd::LENNY_CTL_EXPOSURE_LOCK),
            16 => Some(lenny_control_cmd::LENNY_CTL_WB_LOCK),
            17 => Some(lenny_control_cmd::LENNY_CTL_TORCH),
            18 => Some(lenny_control_cmd::LENNY_CTL_SELECT_LENS),
            19 => Some(lenny_control_cmd::LENNY_CTL_ZOOM),
            20 => Some(lenny_control_cmd::LENNY_CTL_RESET_AUTO),
            21 => Some(lenny_control_cmd::LENNY_CTL_PAN),
            _ => None,
        }
    }
}

// ---- CAPS controls bitmask bits ----
pub const LENNY_CAP_FOCUS: u32 = 1;

pub const LENNY_CAP_FOCUS_LOCK: u32 = 2;

pub const LENNY_CAP_EXPOSURE_COMP: u32 = 4;

pub const LENNY_CAP_EXPOSURE_LOCK: u32 = 8;

pub const LENNY_CAP_WB_LOCK: u32 = 16;

pub const LENNY_CAP_TORCH: u32 = 32;

pub const LENNY_CAP_LENS: u32 = 64;

pub const LENNY_CAP_ZOOM: u32 = 128;

pub const LENNY_CAP_PAN: u32 = 256;

pub const LENNY_ACK_OK: i32 = 0;

pub const LENNY_ACK_UNSUPPORTED: i32 = 1;

pub const LENNY_ACK_FAILED: i32 = 2;

pub const LENNY_ACK_BUSY: i32 = 3;

#[derive(Clone, Copy, Debug, PartialEq, Eq, Structural)]
pub struct lenny_control {
    pub req_id: u32,
    pub cmd: u16,
    pub x: u16,
    pub y: u16,
    pub value: i32,
}

impl Default for lenny_control {
    fn default() -> (c: Self)
        ensures
            c == (lenny_control { req_id: 0, cmd: 0, x: 0, y: 0, value: 0 }),
    {
        lenny_control { req_id: 0, cmd: 0, x: 0, y: 0, value: 0 }
    }
}

#[derive(Clone, Copy, Debug, PartialEq, Eq, Structural)]
pub struct lenny_control_state {
    pub af_mode: u8,
    pub exposure_comp: i32,
    pub exposure_lock: u8,
    pub wb_lock: u8,
    pub torch: u8,
    pub lens_id: u8,
    pub zoom: u16,
    pub battery: u8,
    pub charging: u8,
    pub pan_x: u16,
    pub pan_y: u16,
}

impl Default for lenny_control_state {
    fn default() -> (s: Self)
        ensures
            s == (lenny_control_state {
                af_mode: 0,
                exposure_comp: 0,
                exposure_lock: 0,
                wb_lock: 0,
                torch: 0,
                lens_id: 0,
                zoom: 0,
                battery: 0,
                charging: 0,
                pan_x: 0,
                pan_y: 0,
            }),
    {
        lenny_control_state {
            af_mode: 0,
            exposure_comp: 0,
            exposure_lock: 0,
            wb_lock: 0,
            torch: 0,
            lens_id: 0,
            zoom: 0,
            battery: 0,
            charging: 0,
            pan_x: 0,
            pan_y: 0,
        }
    }
}

// ---- STREAM_STATUS states ----
pub const LENNY_STREAM_LIVE: u8 = 0;

pub const LENNY_STREAM_PAUSED: u8 = 1;

pub const LENNY_STREAM_CAMERA_LOST: u8 = 2;

pub const LENNY_STREAM_THERMAL: u8 = 3;

// ---- VIDEO_FRAME flags ----
pub const LENNY_FRAME_KEYFRAME: u8 = 1;

pub const LENNY_FRAME_MIRROR: u8 = 2;

/// A frame as the receiver hands it out.
#[derive(Clone, Debug, PartialEq, Eq)]
pub struct lenny_video_frame {
    pub frame_seq: u32,
    pub pts_us: i64,
    pub local_pts_us: i64,
    pub orientation: u8,
    pub flags: u8,
    pub data: Vec<u8>,
}

#[derive(Clone, Copy, Debug, PartialEq, Eq, Structural)]
pub struct lenny_stats {
    pub rtt_us: i64,
    pub clock_offset_us: i64,
    pub frames: u64,
    pub bytes: u64,
    pub bad_messages: u32,
    pub reconnects: u32,
    pub latency_us: i64,
    pub dropped_frames: u32,
    pub bitrate_kbps: u32,
}

impl Default for lenny_stats {
    /// Nothing counted yet; -1 stands for a time that is not known.
    fn default() -> (s: Self)
        ensures
            s == (lenny_stats {
                rtt_us: (-1) as i64,
                clock_offset_us: 0,
                frames: 0,
                bytes: 0,
                bad_messages: 0,
                reconnects: 0,
                latency_us: (-1) as i64,
                dropped_frames: 0,
                bitrate_kbps: 0,
            }),
    {
        lenny_stats {
            rtt_us: -1,
            clock_offset_us: 0,
            frames: 0,
            bytes: 0,
            bad_messages: 0,
            reconnects: 0,
            latency_us: -1,
            dropped_frames: 0,
            bitrate_kbps: 0,
        }
    }
}

#[derive(Clone, Debug, PartialEq, Eq)]
pub struct lenny_identity {
    pub device_id: [u8; 16],
    pub device_name: Vec<u8>,
    pub app_version: Vec<u8>,
    pub platform: u8,
}

/// Per-lens capabilities, parallel to the lenses of a `lenny_sender_config`.
#[derive(Clone, Debug, PartialEq, Eq)]
pub struct lenny_lens_caps {
    pub modes: Vec<lenny_mode>,
    pub zoom_min: u16,
    pub zoom_max: u16,
    pub zoom_base: u16,
}

#[derive(Clone, Debug, PartialEq, Eq)]
pub struct lenny_sender_config {
    pub identity: lenny_identity,
    pub modes: Vec<lenny_mode>,
    pub max_bitrate_kbps: u32,
    pub controls: u32,
    pub lenses: Vec<lenny_lens>,
    pub exposure_comp_min: i32,
    pub exposure_comp_max: i32,
    pub exposure_comp_step_milli: u32,
    /// Empty, or one entry for each lens.
    pub lens_caps: Vec<lenny_lens_caps>,
}

#[derive(Clone, Debug, PartialEq, Eq)]
pub struct lenny_receiver_config {
    pub identity: lenny_identity,
    pub port: u16,
    pub preferred: lenny_stream_settings,
}

/// UI events.
#[derive(Clone, Copy, Debug, PartialEq, Eq, Structural)]
pub enum lenny_event {
    LENNY_EVENT_STATE,
    LENNY_EVENT_APPROVAL_NEEDED,
    LENNY_EVENT_STREAM_START,
    LENNY_EVENT_STREAM_STATUS,
    LENNY_EVENT_CONTROL_STATE,
    LENNY_EVENT_CONTROL_ACK,
}

impl lenny_event {
    /// The number that stands for the event.
    #[verifier::allow_in_spec]
    pub fn code(self) -> i32
        returns
            (match self {
                lenny_event::LENNY_EVENT_STATE => 1i32,
                lenny_event::LENNY_EVENT_APPROVAL_NEEDED => 2i32,
                lenny_event::LENNY_EVENT_STREAM_START => 3i32,
                lenny_event::LENNY_EVENT_STREAM_STATUS => 4i32,
                lenny_event::LENNY_EVENT_CONTROL_STATE => 5i32,
                lenny_event::LENNY_EVENT_CONTROL_ACK => 6i32,
            }),
    {
        match self {
            lenny_event::LENNY_EVENT_STATE => 1,
            lenny_event::LENNY_EVENT_APPROVAL_NEEDED => 2,
            lenny_event::LENNY_EVENT_STREAM_START => 3,
            lenny_event::LENNY_EVENT_STREAM_STATUS => 4,
            lenny_event::LENNY_EVENT_CONTROL_STATE => 5,
            lenny_event::LENNY_EVENT_CONTROL_ACK => 6,
        }
    }
}

pub const LENNY_MAX_PEER_LENSES: usize = 8;

pub const LENNY_MAX_PEER_MODES: usize = 32;

/// The bytes of a text that a peer info can hold, its terminator included.
pub const PEER_NAME_SIZE: usize = 64;

pub const PEER_LABEL_SIZE: usize = 32;

/// What is known of the other side. Texts end at their first zero byte.
#[derive(Clone, Copy, Debug, PartialEq, Eq)]
pub struct lenny_peer_info {
    pub device_id: [u8; 16],
    pub name: [u8; 64],
    pub platform: u8,
    pub controls: u32,
    pub lens_count: u8,
    pub lens_ids: [u8; 8],
    pub lens_facing: [u8; 8],
    pub lens_labels: [[u8; 32]; 8],
    pub exposure_min: i32,
    pub exposure_max: i32,
    pub exposure_step_milli: u32,
    pub mode_count: u8,
    pub modes: [lenny_mode; 32],
}

/// The version of the C interface: major in the high half, minor in the low half.
pub fn lenny_abi_version() -> (v: u32)
    ensures
        v == LENNY_ABI_VERSION_MAJOR * 0x1_0000 + LENNY_ABI_VERSION_MINOR,
{
    LENNY_ABI_VERSION_MAJOR * 0x1_0000 + LENNY_ABI_VERSION_MINOR
}

} // verus!
