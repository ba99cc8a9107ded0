//! The virtual camera that other programs see, behind one trait, so that the desktop never tells backends apart.
//! Frames are I420 at the size that the camera was opened with.
pub mod device_laws;
pub mod filter;
pub mod frame;
pub mod frames;
pub mod letters;
pub mod media;
pub mod mf;
pub mod null;
pub mod picture_laws;
pub mod server;
pub mod windows;

use null::NullVirtualCamera;
use vstd::prelude::*;

verus! {

#[derive(Clone, Copy, Debug, PartialEq, Eq, Structural)]
pub struct FrameFormat {
    pub width: u32,
    pub height: u32,
    pub fps: u32,
}

/// The bytes of an I420 frame: one for each pixel, and two for each block of four.
pub open spec fn i420_len(w: int, h: int) -> int {
    w * h * 3 / 2
}

pub fn i420_size(w: usize, h: usize) -> (n: usize)
    requires
        w * h * 3 <= usize::MAX,
    ensures
        n == i420_len(w as int, h as int),
{
    assert(0 <= w * h <= w * h * 3) by (nonlinear_arith)
        requires
            w >= 0,
            h >= 0,
    ;
    w * h * 3 / 2
}

/// A frame of this format can be held in memory.
pub open spec fn fits_memory(format: FrameFormat) -> bool {
    format.width * format.height * 3 <= usize::MAX
}

impl FrameFormat {
    /// A frame of this format can be held in memory.
    pub fn fits(&self) -> (r: bool)
        ensures
            r == fits_memory(*self),
    {
        assert(0 <= self.width * self.height <= u32::MAX * u32::MAX) by (nonlinear_arith)
            requires
                0 <= self.width <= u32::MAX,
                0 <= self.height <= u32::MAX,
        ;
        self.width as u128 * self.height as u128 * 3 <= usize::MAX as u128
    }

    /// Bytes in one I420 frame.
    pub fn frame_size(&self) -> (n: usize)
        requires
            fits_memory(*self),
        ensures
            n == i420_len(self.width as int, self.height as int),
    {
        i420_size(self.width as usize, self.height as usize)
    }
}

/// The virtual camera's fixed format; every frame is fitted into it, so consumers never see it change.
pub fn vcam() -> (f: FrameFormat)
    ensures
        f == (FrameFormat { width: 1280, height: 720, fps: 30 }),
{
    FrameFormat { width: 1280, height: 720, fps: 30 }
}

/// A virtual camera. Whether it opens, and what becomes of its frames, is up to the backend.
pub trait IVirtualCamera {
    /// The format that the camera stands open with.
    spec fn opened_with(&self) -> Option<FrameFormat>;

    fn open(&mut self, format: FrameFormat) -> (r: Result<(), String>)
        ensures
            r is Ok ==> final(self).opened_with() == Some(format),
    ;

    /// One I420 frame of exactly `format.frame_size()` bytes.
    fn write_frame(&mut self, frame: &[u8]) -> (r: Result<(), String>);

    fn close(&mut self);

    /// False for a backend that no other program can see.
    fn is_real(&self) -> (r: bool);

    /// One line for the window and the log.
    fn describe(&self) -> (r: String);
}

/// A backend after it was told to open: it stands if that went well, and the reason counts if not.
pub fn opened<C>(cam: C, outcome: Result<(), String>) -> (r: Result<C, String>)
    ensures
        r == (match outcome {
            Ok(_) => Ok::<C, String>(cam),
            Err(why) => Err::<C, String>(why),
        }),
{
    match outcome {
        Ok(_) => Ok(cam),
        Err(why) => Err(why),
    }
}

/// The camera that the desktop writes to: the machine's own, or the one that stands in for it.
pub enum Best<C> {
    Real(C),
    Null(NullVirtualCamera),
}

/// The camera was told to open with this format, and did so unless a frame would not fit in memory.
pub open spec fn is_fresh(n: NullVirtualCamera, format: FrameFormat) -> bool {
    &&& n.frames == 0
    &&& n.format == (if fits_memory(format) {
        Some(format)
    } else {
        None
    })
}

/// The camera to use once the machine's own was opened, or once it is known why there is none.
pub fn fall_back<C>(own: Result<C, String>, format: FrameFormat) -> (r: Best<C>)
    ensures
        match own {
            Ok(c) => r == Best::Real(c),
            Err(why) => r matches Best::Null(n) && n.why == why && is_fresh(n, format),
        },
{
    match own {
        Ok(c) => Best::Real(c),
        Err(why) => {
            let mut n = NullVirtualCamera::new(why);
            // One that does not open is still a camera: its frames are refused.
            let _ = n.open(format);
            Best::Null(n)
        },
    }
}

/// The best backend that this machine can run, opened. There always is one: without a real device, or where that
/// does not open, frames go to the null camera. Whether a device that was found opens is up to the backend; `opened`
/// and `fall_back` say what comes of it.
pub fn open_best<C: IVirtualCamera>(found: Result<C, String>, format: FrameFormat) -> (r: Best<C>)
    ensures
        match r {
            Best::Real(c) => found is Ok && c.opened_with() == Some(format),
            Best::Null(n) => {
                &&& is_fresh(n, format)
                &&& found matches Err(why) ==> n.why == why
            },
        },
        found is Err ==> r is Null,
{
    let own = match found {
        Ok(mut cam) => {
            let outcome = cam.open(format);
            opened(cam, outcome)
        },
        Err(why) => Err(why),
    };
    fall_back(own, format)
}

/// 100 ns units between two frames at 30 frames a second.
pub const FRAME_TIME: i64 = 333_333;

/// The time stamp of the `n`th frame that a camera writes. Readers stamp it anew against their own clock.
pub fn frame_stamp(n: i64) -> (t: i64)
    requires
        0 <= n <= i64::MAX / FRAME_TIME,
    ensures
        t == n * FRAME_TIME,
{
    assert(n * FRAME_TIME <= i64::MAX) by (nonlinear_arith)
        requires
            n <= i64::MAX / 333_333,
            FRAME_TIME == 333_333,
    ;
    n * FRAME_TIME
}

} // verus!
