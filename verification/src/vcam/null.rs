//! The camera that stands in where this machine has no real one: no other program sees it, and its frames are only
//! counted and sampled.
use super::{fits_memory, i420_len, FrameFormat, IVirtualCamera};
use vstd::prelude::*;

verus! {

pub struct NullVirtualCamera {
    /// Why there is no real camera.
    pub why: String,
    pub format: Option<FrameFormat>,
    /// Frames written since the camera was opened.
    pub frames: u64,
}

impl NullVirtualCamera {
    pub fn new(why: String) -> (cam: NullVirtualCamera)
        ensures
            cam.why == why,
            cam.format is None,
            cam.frames == 0,
    {
        NullVirtualCamera { why, format: None, frames: 0 }
    }

    /// The last frame is one to keep: the first of every second.
    pub fn is_sample(&self) -> (r: bool)
        ensures
            r == (self.format matches Some(f) && self.frames > 0 && (self.frames - 1) % (if f.fps == 0 {
                1
            } else {
                f.fps as int
            }) == 0),
    {
        match self.format {
            Some(f) if self.frames > 0 => {
                let every: u64 = if f.fps == 0 {
                    1
                } else {
                    f.fps as u64
                };
                (self.frames - 1) % every == 0
            },
            _ => false,
        }
    }
}

impl IVirtualCamera for NullVirtualCamera {
    open spec fn opened_with(&self) -> Option<FrameFormat> {
        self.format
    }

    /// Any format will do whose frames fit in memory.
    fn open(&mut self, format: FrameFormat) -> (r: Result<(), String>)
        ensures
            r is Ok <==> fits_memory(format),
            r is Err ==> final(self).format is None,
            final(self).why == old(self).why,
            final(self).frames == 0,
    {
        self.frames = 0;
        self.format = None;
        if !format.fits() {
            let mut t = String::new();
            t.append("frames too large");
            return Err(t);
        }
        self.format = Some(format);
        Ok(())
    }

    /// Counts a frame of the right size.
    fn write_frame(&mut self, frame: &[u8]) -> (r: Result<(), String>)
        ensures
            r is Ok <==> (old(self).format matches Some(f) && fits_memory(f) && frame@.len() == i420_len(
                f.width as int,
                f.height as int,
            )),
            final(self).why == old(self).why,
            final(self).format == old(self).format,
            final(self).frames == (if r is Ok && old(self).frames < u64::MAX {
                old(self).frames + 1
            } else {
                old(self).frames as int
            }),
    {
        let fits = match self.format {
            Some(f) => f.fits() && frame.len() == f.frame_size(),
            None => false,
        };
        if !fits {
            let mut t = String::new();
            t.append("not open, or a frame of another size");
            return Err(t);
        }
        if self.frames < u64::MAX {
            self.frames = self.frames + 1;
        }
        Ok(())
    }

    fn close(&mut self)
        ensures
            final(self).format is None,
            final(self).why == old(self).why,
            final(self).frames == old(self).frames,
    {
        self.format = None;
    }

    /// No other program can see it.
    fn is_real(&self) -> (r: bool)
        ensures
            !r,
    {
        false
    }

    /// Why there is no real camera.
    fn describe(&self) -> (t: String)
        ensures
            t@ == self.why@,
    {
        let mut t = String::new();
        t.append(self.why.as_str());
        assert(t@ =~= self.why@);
        t
    }
}

} // verus!
