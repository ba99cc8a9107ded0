//! Message type ids. Plain numbers: an unknown id is valid on the wire and gets skipped.
use vstd::prelude::*;

verus! {

pub const HELLO: u16 = 0x0001;

pub const GOODBYE: u16 = 0x0002;

pub const PING: u16 = 0x0003;

pub const PONG: u16 = 0x0004;

pub const PAIR_REQUEST: u16 = 0x0010;

pub const PAIR_RESULT: u16 = 0x0011;

pub const CAPS: u16 = 0x0020;

pub const CAPS_SELECT: u16 = 0x0021;

pub const STREAM_START: u16 = 0x0022;

pub const STREAM_STATUS: u16 = 0x0023;

pub const VIDEO_CONFIG: u16 = 0x0030;

pub const VIDEO_FRAME: u16 = 0x0031;

pub const CONTROL: u16 = 0x0040;

pub const CONTROL_STATE: u16 = 0x0041;

pub const CONTROL_ACK: u16 = 0x0042;

} // verus!
