//! The picture that the cameras send: the desktop's latest frame from the shared ring, the last good one for up to half
//! a second when the desktop stalls, else the placeholder.
use vstd::prelude::*;

use crate::framebuf::{
    found, header_at, header_ok, pixels_at, u32_at, u64_at, Reader, O_HEARTBEAT, O_HEIGHT, O_WIDTH,
    STALE_MS,
};
use crate::timing::more_than;
use crate::vcam::media::{HEIGHT, WIDTH};

verus! {

/// A good frame is held this long.
pub const HOLD_US: i64 = 500_000;

/// Bytes in one NV12 picture.
pub const PICTURE_BYTES: usize = 1_382_400;

/// How long to wait before the ring is opened again, in microseconds.
pub const RETRY_US: i64 = 1_000_000;

/// What the cameras show now.
#[derive(Clone, Copy, Debug, PartialEq, Eq, Structural)]
pub enum Show {
    Live,
    Placeholder,
}

/// A picture to send. `live` is the last frame that was read.
pub struct Frames {
    pub live: Vec<u8>,
    pub last_good: Option<i64>,
    /// Reading has gone wrong once: nothing but the placeholder from then on.
    pub faulted: bool,
}

/// The age of the ring's heartbeat at `tick_ms`; a heartbeat from the future is new.
pub open spec fn heartbeat_age_of(mem: Seq<u8>, tick_ms: u64) -> int {
    let beat = u64_at(mem, O_HEARTBEAT as int);
    if tick_ms >= beat {
        tick_ms - beat
    } else {
        0
    }
}

/// The ring holds a frame for the cameras: its writer is alive, the frames have the cameras' size, and the newest one
/// can be read.
pub open spec fn ring_is_live(mem: Seq<u8>, tick_ms: u64) -> bool {
    &&& heartbeat_age_of(mem, tick_ms) < STALE_MS
    &&& header_ok(header_at(mem), mem.len())
    &&& u32_at(mem, O_WIDTH as int) == WIDTH
    &&& u32_at(mem, O_HEIGHT as int) == HEIGHT
    &&& found(mem, PICTURE_BYTES as nat) is Ok
}

/// Whether a good frame is recent enough to be sent.
pub open spec fn holds(last_good: Option<i64>, now: i64) -> bool {
    match last_good {
        Some(t) => now - t < HOLD_US,
        None => false,
    }
}

/// When the last good frame came, after a look at the ring.
pub open spec fn good_after(f: Frames, mem: Option<Seq<u8>>, tick_ms: u64, now: i64) -> Option<i64> {
    match mem {
        Some(m) => if !f.faulted && ring_is_live(m, tick_ms) {
            Some(now)
        } else {
            f.last_good
        },
        None => f.last_good,
    }
}

/// What is shown after a look at the ring.
pub open spec fn show_of(f: Frames, mem: Option<Seq<u8>>, tick_ms: u64, now: i64) -> Show {
    if mem is Some && !f.faulted && holds(good_after(f, mem, tick_ms, now), now) {
        Show::Live
    } else {
        Show::Placeholder
    }
}

impl Frames {
    pub open spec fn wf(&self) -> bool {
        self.live@.len() == PICTURE_BYTES
    }

    /// Nothing read yet.
    pub fn new() -> (f: Frames)
        ensures
            f.wf(),
            f.last_good is None,
            !f.faulted,
    {
        let mut live: Vec<u8> = Vec::new();
        live.resize(PICTURE_BYTES, 0);
        Frames { live, last_good: None, faulted: false }
    }

    /// The picture to send at `now`. `ring` is the shared memory, where it can be opened; `tick_ms` is the clock that
    /// its writer's heartbeat goes by.
    pub fn next(&mut self, ring: Option<&Reader>, tick_ms: u64, now: i64) -> (s: Show)
        requires
            old(self).wf(),
            ring matches Some(r) ==> r.wf(),
        ensures
            final(self).wf(),
            final(self).faulted == old(self).faulted,
            ({
                let mem = match ring {
                    Some(r) => Some(r.mem@),
                    None => None,
                };
                let reads = mem matches Some(m) && !old(self).faulted && ring_is_live(m, tick_ms);
                &&& final(self).last_good == good_after(*old(self), mem, tick_ms, now)
                &&& final(self).live@ == (if reads {
                    pixels_at(mem->0)
                } else {
                    old(self).live@
                })
                &&& s == show_of(*old(self), mem, tick_ms, now)
            }),
    {
        if self.faulted {
            return Show::Placeholder;
        }
        let r = match ring {
            Some(r) => r,
            None => {
                return Show::Placeholder;
            },
        };
        let fresh = r.heartbeat_age(tick_ms) < STALE_MS;
        let fits = match r.format() {
            Ok(f) => f.width == WIDTH as u32 && f.height == HEIGHT as u32,
            Err(_) => false,
        };
        if fresh && fits {
            if r.read_nv12(self.live.as_mut_slice()).is_ok() {
                self.last_good = Some(now);
            }
        }
        let holds = match self.last_good {
            Some(t) => !more_than(now, t, HOLD_US - 1),
            None => false,
        };
        if holds {
            Show::Live
        } else {
            Show::Placeholder
        }
    }

    /// Reading has gone wrong: nothing but the placeholder from now on.
    pub fn fault(&mut self)
        requires
            old(self).wf(),
        ensures
            final(self).wf(),
            final(self).faulted,
            final(self).last_good == old(self).last_good,
            final(self).live@ == old(self).live@,
    {
        self.faulted = true;
    }
}

/// A camera that has once gone wrong never shows anything but the placeholder.
pub proof fn law_a_faulted_camera_shows_the_placeholder(f: Frames, mem: Option<Seq<u8>>, tick_ms: u64, now: i64)
    requires
        f.faulted,
    ensures
        show_of(f, mem, tick_ms, now) is Placeholder,
        good_after(f, mem, tick_ms, now) == f.last_good,
{
}

/// A frame is never shown for longer than it is held: once the desktop has stalled for that long, the placeholder
/// follows.
pub proof fn law_a_stalled_desktop_leads_to_the_placeholder(f: Frames, mem: Seq<u8>, tick_ms: u64, now: i64)
    requires
        f.last_good matches Some(t) ==> now - t >= HOLD_US,
        !ring_is_live(mem, tick_ms),
    ensures
        show_of(f, Some(mem), tick_ms, now) is Placeholder,
{
}

/// When to try to open the ring again.
#[derive(Clone, Copy, Debug, PartialEq, Eq, Structural)]
pub struct Retry {
    pub next_try: i64,
}

/// Whether to try to open the ring at `now`.
pub open spec fn is_due(r: Retry, open: bool, now: i64) -> bool {
    !open && now >= r.next_try
}

/// A ring that is open is not opened again, and after a try the next one comes a second later at the soonest.
pub proof fn law_tries_are_a_second_apart(r: Retry, open: bool, now: i64, again: i64)
    requires
        now <= i64::MAX - RETRY_US,
        is_due(r, open, now),
        is_due(Retry { next_try: (now + RETRY_US) as i64 }, open, again),
    ensures
        !open,
        again - now >= 1_000_000,
        r.next_try <= now,
{
}

impl Retry {
    /// Whether to try at `now`: not more than once a second, and not while the ring is open.
    pub fn due(&mut self, open: bool, now: i64) -> (r: bool)
        requires
            now <= i64::MAX - RETRY_US,
        ensures
            r == is_due(*old(self), open, now),
            final(self).next_try == (if r {
                now + RETRY_US
            } else {
                old(self).next_try as int
            }),
    {
        if open || now < self.next_try {
            return false;
        }
        self.next_try = now + RETRY_US;
        true
    }
}

} // verus!
