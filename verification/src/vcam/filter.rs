//! The DirectShow filter's decisions: its states, its one pin, the enumerators, the allocator and the pace of samples.
use vstd::prelude::*;

use crate::framebuf::{nv12_as_yuy2, nv12_to_yuy2};
use crate::text::chars_of;
use crate::vcam::frames::PICTURE_BYTES;
use crate::vcam::media::{match_type, matched, other, other_of, Guid, MediaType, Pixel, HEIGHT, WIDTH};
use crate::vcam::FRAME_TIME;

verus! {

/// A filter's state.
#[derive(Clone, Copy, Debug, PartialEq, Eq, Structural)]
pub enum Running {
    Stopped,
    Paused,
    Running,
}

/// What a call is refused with.
#[derive(Clone, Copy, Debug, PartialEq, Eq, Structural)]
pub enum Refusal {
    AlreadyConnected,
    NotStopped,
    NotConnected,
    NoAcceptableTypes,
    InvalidMediaType,
    Unexpected,
    Pointer,
    NotFound,
    SetUnsupported,
    IdUnsupported,
}

/// The filter and its pin. Each thing that a caller can see of them is here.
#[derive(Clone, Copy, Debug, PartialEq, Eq, Structural)]
pub struct Filter {
    pub state: Running,
    pub pixel: Pixel,
    /// Another filter's pin is connected.
    pub connected: bool,
    /// The streaming thread runs.
    pub streaming: bool,
    /// The reference clock's time at stream time zero, while running.
    pub run_start: Option<i64>,
}

/// Samples flow only to a connected pin, and not while the filter is stopped.
pub open spec fn wf(f: Filter) -> bool {
    &&& f.streaming ==> f.connected && f.state != Running::Stopped
    &&& f.run_start is Some <==> f.state == Running::Running
}

/// The state after Stop.
pub open spec fn stopped(f: Filter) -> Filter {
    Filter { state: Running::Stopped, streaming: false, run_start: None, ..f }
}

/// The state after Pause. Streaming starts when a connected filter leaves Stopped, so that renderers get their first
/// sample.
pub open spec fn paused(f: Filter) -> Filter {
    Filter {
        state: Running::Paused,
        streaming: f.streaming || (f.state == Running::Stopped && f.connected),
        run_start: None,
        ..f
    }
}

/// The state after Run. A stopped filter pauses first.
pub open spec fn running(f: Filter, start: i64) -> Filter {
    let g = if f.state == Running::Stopped {
        paused(f)
    } else {
        f
    };
    Filter { state: Running::Running, run_start: Some(start), ..g }
}

/// Which formats to try with a pin that asks for `asked`, in order.
pub open spec fn order_of(f: Filter, asked: Option<MediaType>) -> Result<(Pixel, Pixel), Refusal> {
    if f.connected {
        Err(Refusal::AlreadyConnected)
    } else if f.state != Running::Stopped {
        Err(Refusal::NotStopped)
    } else {
        match asked {
            Some(mt) => match matched(mt) {
                Some(p) => Ok((p, p)),
                None => Err(Refusal::NoAcceptableTypes),
            },
            None => Ok((f.pixel, other_of(f.pixel))),
        }
    }
}

/// What setting the format to `m` comes to, where the type that was asked for is one of ours.
pub open spec fn format_set(f: Filter, m: Option<Pixel>) -> Result<(), Refusal> {
    match m {
        None => Err(Refusal::InvalidMediaType),
        Some(p) => if f.connected && f.pixel != p {
            Err(Refusal::NotStopped)
        } else {
            Ok(())
        },
    }
}

/// The time since Run, not before zero.
pub open spec fn stream_time(now: i64, start: i64) -> int {
    if now > start {
        now - start
    } else {
        0
    }
}

impl Filter {
    /// A filter that is stopped and connected to nothing.
    pub fn new() -> (f: Filter)
        ensures
            f == (Filter {
                state: Running::Stopped,
                pixel: Pixel::Nv12,
                connected: false,
                streaming: false,
                run_start: None,
            }),
            wf(f),
    {
        Filter {
            state: Running::Stopped,
            pixel: Pixel::Nv12,
            connected: false,
            streaming: false,
            run_start: None,
        }
    }

    /// Stops. True if there is a streaming thread to wait for.
    pub fn stop(&mut self) -> (join: bool)
        requires
            wf(*old(self)),
        ensures
            *final(self) == stopped(*old(self)),
            join == old(self).streaming,
            wf(*final(self)),
    {
        let join = self.streaming;
        self.state = Running::Stopped;
        self.streaming = false;
        self.run_start = None;
        join
    }

    /// Pauses. True if the streaming thread has to be started.
    pub fn pause(&mut self) -> (spawn: bool)
        requires
            wf(*old(self)),
        ensures
            *final(self) == paused(*old(self)),
            spawn == (!old(self).streaming && final(self).streaming),
            wf(*final(self)),
    {
        let spawn = self.state == Running::Stopped && self.connected;
        if spawn {
            self.streaming = true;
        }
        self.run_start = None;
        self.state = Running::Paused;
        spawn
    }

    /// Runs from the clock's time `start` on. True if the streaming thread has to be started.
    pub fn run(&mut self, start: i64) -> (spawn: bool)
        requires
            wf(*old(self)),
        ensures
            *final(self) == running(*old(self), start),
            spawn == (!old(self).streaming && final(self).streaming),
            wf(*final(self)),
    {
        let spawn = if self.state == Running::Stopped {
            self.pause()
        } else {
            false
        };
        self.run_start = Some(start);
        self.state = Running::Running;
        spawn
    }

    /// Which formats to try with a pin that `asked` comes from, in order. A type that is not ours is refused; without
    /// one both formats are tried, the preferred first.
    pub fn connect_order(&self, asked: Option<&MediaType>) -> (r: Result<(Pixel, Pixel), Refusal>)
        ensures
            r == order_of(
                *self,
                match asked {
                    Some(mt) => Some(*mt),
                    None => None,
                },
            ),
    {
        if self.connected {
            return Err(Refusal::AlreadyConnected);
        }
        if self.state != Running::Stopped {
            return Err(Refusal::NotStopped);
        }
        match asked {
            Some(mt) => match match_type(Some(mt)) {
                Some(p) => Ok((p, p)),
                None => Err(Refusal::NoAcceptableTypes),
            },
            None => Ok((self.pixel, other(self.pixel))),
        }
    }

    /// A pin took the connection with this format.
    pub fn connected_with(&mut self, p: Pixel)
        requires
            wf(*old(self)),
        ensures
            *final(self) == (Filter { connected: true, pixel: p, ..*old(self) }),
            wf(*final(self)),
    {
        self.connected = true;
        self.pixel = p;
    }

    /// Disconnects, unless the filter is not stopped.
    pub fn disconnect(&mut self) -> (r: Result<(), Refusal>)
        requires
            wf(*old(self)),
        ensures
            r is Ok <==> old(self).state == Running::Stopped,
            r matches Err(e) ==> e == Refusal::NotStopped && *final(self) == *old(self),
            r is Ok ==> *final(self) == (Filter { connected: false, ..*old(self) }),
            wf(*final(self)),
    {
        if self.state != Running::Stopped {
            return Err(Refusal::NotStopped);
        }
        self.connected = false;
        Ok(())
    }

    /// The format of the connection.
    pub fn connection_type(&self) -> (r: Result<Pixel, Refusal>)
        ensures
            r == (if self.connected {
                Ok::<Pixel, Refusal>(self.pixel)
            } else {
                Err(Refusal::NotConnected)
            }),
    {
        if self.connected {
            Ok(self.pixel)
        } else {
            Err(Refusal::NotConnected)
        }
    }

    /// Sets the format to connect with. A connection has to be made anew for another one.
    pub fn set_format(&mut self, asked: Option<&MediaType>) -> (r: Result<(), Refusal>)
        requires
            wf(*old(self)),
        ensures
            ({
                let m = match asked {
                    Some(mt) => matched(*mt),
                    None => None,
                };
                &&& r == format_set(*old(self), m)
                &&& *final(self) == (if r is Ok {
                    Filter { pixel: m->0, ..*old(self) }
                } else {
                    *old(self)
                })
            }),
            wf(*final(self)),
    {
        let p = match match_type(asked) {
            Some(p) => p,
            None => {
                return Err(Refusal::InvalidMediaType);
            },
        };
        if self.connected && self.pixel != p {
            return Err(Refusal::NotStopped);
        }
        self.pixel = p;
        Ok(())
    }

    /// A sample's time stamps, start and end, where the clock shows `now`: the time since Run, not before zero. None
    /// while paused or without a clock, so that a sample is shown when it arrives.
    pub fn sample_times(&self, now: Option<i64>) -> (r: Option<(i64, i64)>)
        requires
            now matches Some(n) ==> (self.run_start matches Some(s) ==> n - s <= i64::MAX - FRAME_TIME),
        ensures
            r is Some <==> now is Some && self.run_start is Some,
            r matches Some((t0, t1)) ==> t0 == stream_time(now->0, self.run_start->0) && t1 == t0 + FRAME_TIME,
    {
        match (now, self.run_start) {
            (Some(n), Some(s)) => {
                let d: i128 = n as i128 - s as i128;
                let t0: i64 = if d > 0 {
                    d as i64
                } else {
                    0
                };
                Some((t0, t0 + FRAME_TIME))
            },
            _ => None,
        }
    }
}

/// Whatever is called in whatever order, samples flow only to a connected pin, and not while the filter is stopped.
pub proof fn law_states_keep_order(f: Filter, start: i64)
    requires
        wf(f),
    ensures
        wf(stopped(f)),
        wf(paused(f)),
        wf(running(f, start)),
        !stopped(f).streaming,
        f.connected ==> paused(f).streaming || f.state != Running::Stopped,
        paused(paused(f)) == paused(f),
        stopped(stopped(f)) == stopped(f),
{
}

// ---- the allocator ----

/// What an allocator is asked for.
#[derive(Clone, Copy, Debug, PartialEq, Eq, Structural)]
pub struct AllocatorProperties {
    pub buffers: i32,
    pub buffer_bytes: i32,
    pub align: i32,
    pub prefix: i32,
}

pub open spec fn larger(a: i32, b: i32) -> i32 {
    if a >= b {
        a
    } else {
        b
    }
}

fn max(a: i32, b: i32) -> (r: i32)
    ensures
        r == larger(a, b),
{
    if a >= b {
        a
    } else {
        b
    }
}

/// What to ask an allocator for.
pub open spec fn wanted(required: AllocatorProperties, image_size: i32) -> AllocatorProperties {
    AllocatorProperties {
        buffers: larger(required.buffers, 2),
        buffer_bytes: larger(image_size, required.buffer_bytes),
        align: larger(required.align, 1),
        prefix: required.prefix,
    }
}

/// What to ask an allocator for: at least two buffers that hold a picture each, and whatever the other pin requires.
pub fn wanted_properties(required: &AllocatorProperties, image_size: i32) -> (w: AllocatorProperties)
    ensures
        w == wanted(*required, image_size),
{
    AllocatorProperties {
        buffers: max(required.buffers, 2),
        buffer_bytes: max(image_size, required.buffer_bytes),
        align: max(required.align, 1),
        prefix: required.prefix,
    }
}

/// Whether the buffers that an allocator agreed to hold a picture each. The size is read as an unsigned number, so that
/// one below zero counts as large.
pub fn check_buffers(got: &AllocatorProperties, p: Pixel) -> (r: Result<(), Refusal>)
    ensures
        r == (if 0 <= got.buffer_bytes < WIDTH * HEIGHT * p.bits() as int / 8 {
            Err::<(), Refusal>(Refusal::Unexpected)
        } else {
            Ok(())
        }),
{
    if got.buffer_bytes >= 0 && (got.buffer_bytes as usize) < p.image_size() {
        return Err(Refusal::Unexpected);
    }
    Ok(())
}

// ---- names ----

/// The name of the filter's one pin.
pub const PIN_NAME: &'static str = "Capture";

/// Whether the filter has a pin with this id: only its own pin's name is one. Refused where there is no id.
pub fn find_pin(id: Option<&str>) -> (r: Result<(), Refusal>)
    ensures
        r == (match id {
            None => Err::<(), Refusal>(Refusal::Pointer),
            Some(t) => if t@ == PIN_NAME@ {
                Ok(())
            } else {
                Err(Refusal::NotFound)
            },
        }),
{
    match id {
        None => Err(Refusal::Pointer),
        Some(t) => {
            let asked = chars_of(t);
            let own = chars_of(PIN_NAME);
            if same_chars(asked.as_slice(), own.as_slice()) {
                Ok(())
            } else {
                Err(Refusal::NotFound)
            }
        },
    }
}

fn same_chars(a: &[char], b: &[char]) -> (r: bool)
    ensures
        r == (a@ == b@),
{
    if a.len() != b.len() {
        return false;
    }
    let mut i: usize = 0;
    while i < a.len()
        invariant
            i <= a@.len(),
            a@.len() == b@.len(),
            a@.take(i as int) == b@.take(i as int),
        decreases a.len() - i,
    {
        if a[i] != b[i] {
            assert(a@[i as int] != b@[i as int]);
            return false;
        }
        assert(a@.take(i + 1) =~= a@.take(i as int).push(a@[i as int]));
        assert(b@.take(i + 1) =~= b@.take(i as int).push(b@[i as int]));
        i = i + 1;
    }
    assert(a@.take(i as int) =~= a@);
    assert(b@.take(i as int) =~= b@);
    true
}

/// The room for a filter's name in what it tells of itself.
pub const NAME_UNITS: usize = 128;

/// A name in the room for it: cut so that a zero follows, and zeros up to the end.
pub open spec fn name_in_room(name: Seq<u16>) -> Seq<u16> {
    Seq::new(
        NAME_UNITS as nat,
        |i: int|
            if i < name.len() && i < NAME_UNITS - 1 {
                name[i]
            } else {
                0u16
            },
    )
}

/// What a filter tells of its name, in UTF-16.
pub fn filter_name(name: &[u16]) -> (out: Vec<u16>)
    ensures
        out@ == name_in_room(name@),
{
    let mut out: Vec<u16> = Vec::new();
    let mut i: usize = 0;
    while i < NAME_UNITS
        invariant
            i <= NAME_UNITS,
            out@ == name_in_room(name@).take(i as int),
        decreases NAME_UNITS - i,
    {
        let u: u16 = if i < name.len() && i < NAME_UNITS - 1 {
            name[i]
        } else {
            0
        };
        out.push(u);
        assert(out@ =~= name_in_room(name@).take(i + 1));
        i = i + 1;
    }
    assert(out@ =~= name_in_room(name@));
    out
}

// ---- the pin's properties ----

pub const AMPROPSETID_PIN: Guid = 0x9B00_F101_1567_11D1_B3F1_00AA_0037_61C5;

pub const AMPROPERTY_PIN_CATEGORY: u32 = 0;

/// The bytes of a GUID.
pub const GUID_BYTES: usize = 16;

/// Whether the pin tells the property `id` of the set `set`: it has one, its category.
pub fn property(set: Option<Guid>, id: u32) -> (r: Result<(), Refusal>)
    ensures
        r == (if set != Some(AMPROPSETID_PIN) {
            Err::<(), Refusal>(Refusal::SetUnsupported)
        } else if id != AMPROPERTY_PIN_CATEGORY {
            Err(Refusal::IdUnsupported)
        } else {
            Ok(())
        }),
{
    let known = match set {
        Some(s) => s == AMPROPSETID_PIN,
        None => false,
    };
    if !known {
        return Err(Refusal::SetUnsupported);
    }
    if id != AMPROPERTY_PIN_CATEGORY {
        return Err(Refusal::IdUnsupported);
    }
    Ok(())
}

/// As `property`, with `room` bytes for the answer; none where there is nowhere to put it.
pub fn read_property(set: Option<Guid>, id: u32, room: Option<usize>) -> (r: Result<(), Refusal>)
    ensures
        r == (if set != Some(AMPROPSETID_PIN) {
            Err::<(), Refusal>(Refusal::SetUnsupported)
        } else if id != AMPROPERTY_PIN_CATEGORY {
            Err(Refusal::IdUnsupported)
        } else if room matches Some(n) && n >= GUID_BYTES {
            Ok(())
        } else {
            Err(Refusal::Pointer)
        }),
{
    match property(set, id) {
        Ok(()) => {},
        Err(e) => {
            return Err(e);
        },
    }
    match room {
        Some(n) => if n >= GUID_BYTES {
            Ok(())
        } else {
            Err(Refusal::Pointer)
        },
        None => Err(Refusal::Pointer),
    }
}

// ---- enumerators ----

/// An enumerator over `len` things.
#[derive(Clone, Copy, Debug, PartialEq, Eq, Structural)]
pub struct Enumerator {
    pub len: usize,
    pub pos: usize,
}

/// How many things a caller who asks for `count` gets.
pub open spec fn granted(e: Enumerator, count: u32) -> int {
    let left = if e.pos < e.len {
        e.len - e.pos
    } else {
        0
    };
    if count < left {
        count as int
    } else {
        left
    }
}

impl Enumerator {
    pub fn new(len: usize) -> (e: Enumerator)
        ensures
            e == (Enumerator { len, pos: 0 }),
    {
        Enumerator { len, pos: 0 }
    }

    /// The next `count` things: where they start and how many there are.
    pub fn next(&mut self, count: u32) -> (r: (usize, usize))
        ensures
            r.0 == old(self).pos,
            r.1 == granted(*old(self), count),
            *final(self) == (Enumerator { pos: (old(self).pos + r.1) as usize, ..*old(self) }),
            r.1 > 0 ==> r.0 + r.1 <= old(self).len,
    {
        let left: usize = if self.pos < self.len {
            self.len - self.pos
        } else {
            0
        };
        let n: usize = if (count as u64) < (left as u64) {
            count as usize
        } else {
            left
        };
        let at: usize = self.pos;
        self.pos = at + n;
        (at, n)
    }

    /// Skips `count` things. False if that leads beyond the end; the place is kept all the same.
    pub fn skip(&mut self, count: u32) -> (r: bool)
        ensures
            *final(self) == (Enumerator {
                pos: (if old(self).pos + count <= usize::MAX {
                    (old(self).pos + count) as usize
                } else {
                    usize::MAX
                }),
                ..*old(self)
            }),
            r == (old(self).pos + count <= old(self).len),
    {
        let room: usize = usize::MAX - self.pos;
        if count as usize <= room {
            self.pos = self.pos + count as usize;
            self.pos <= self.len
        } else {
            self.pos = usize::MAX;
            false
        }
    }

    /// Back to the first.
    pub fn reset(&mut self)
        ensures
            *final(self) == (Enumerator { pos: 0, ..*old(self) }),
    {
        self.pos = 0;
    }
}

/// The media type at `i` of a pin that prefers `first`.
pub fn type_at(first: Pixel, i: usize) -> (p: Option<Pixel>)
    ensures
        p == (if i == 0 {
            Some(first)
        } else if i == 1 {
            Some(other_of(first))
        } else {
            None
        }),
{
    if i == 0 {
        Some(first)
    } else if i == 1 {
        Some(other(first))
    } else {
        None
    }
}

/// An enumerator hands out every thing once, in order, before it says that there are no more.
pub proof fn law_an_enumerator_hands_out_everything(e: Enumerator, count: u32)
    requires
        e.pos <= e.len,
    ensures
        count >= e.len - e.pos ==> granted(e, count) == e.len - e.pos,
        granted(e, count) == 0 ==> count == 0 || e.pos == e.len,
{
}

// ---- pace ----

/// The bytes of a sample in a pixel format, for a picture in NV12.
pub open spec fn sample_of(p: Pixel, picture: Seq<u8>) -> Seq<u8> {
    match p {
        Pixel::Nv12 => picture,
        Pixel::Yuy2 => nv12_as_yuy2(picture, WIDTH as int, HEIGHT as int),
    }
}

/// Fills a sample from a picture in NV12. False, and nothing written, where the sample has no room for one: the rest
/// of a larger one stays as it is.
pub fn fill_sample(p: Pixel, picture: &[u8], sample: &mut [u8]) -> (r: bool)
    requires
        picture@.len() == PICTURE_BYTES,
    ensures
        r == (old(sample)@.len() >= sample_of(p, picture@).len()),
        final(sample)@ == (if r {
            sample_of(p, picture@) + old(sample)@.skip(sample_of(p, picture@).len() as int)
        } else {
            old(sample)@
        }),
{
    let n: usize = p.image_size();
    assert(sample_of(p, picture@).len() == n);
    if sample.len() < n {
        return false;
    }
    let mut packed: Vec<u8> = Vec::new();
    let pixels: &[u8] = match p {
        Pixel::Nv12 => picture,
        Pixel::Yuy2 => {
            packed.resize(n, 0);
            let whole = nv12_to_yuy2(picture, 1280, 720, packed.as_mut_slice());
            assert(whole);
            packed.as_slice()
        },
    };
    assert(pixels@ == sample_of(p, picture@));
    let mut i: usize = 0;
    while i < n
        invariant
            i <= n,
            n == pixels@.len(),
            n <= sample@.len(),
            sample@.len() == old(sample)@.len(),
            sample@ =~= pixels@.take(i as int) + old(sample)@.skip(i as int),
        decreases n - i,
    {
        sample[i] = pixels[i];
        i = i + 1;
    }
    assert(pixels@.take(n as int) =~= pixels@);
    true
}

/// The time between two samples in nanoseconds.
pub const SAMPLE_NS: u64 = 33_333_300;

/// How far behind the streaming thread may fall before it skips ahead.
pub const BEHIND_NS: u64 = 200_000_000;

/// The streaming thread's pace: the number of the next sample.
#[derive(Clone, Copy, Debug, PartialEq, Eq, Structural)]
pub struct Pace {
    pub n: u64,
}

/// How long to wait for sample `n` at `elapsed`, and which one is next.
pub open spec fn paced(n: u64, elapsed: u64) -> (int, int) {
    let due = n * SAMPLE_NS;
    (
        if due > elapsed {
            due - elapsed
        } else {
            0
        },
        if due <= elapsed && elapsed - due > BEHIND_NS {
            elapsed as int / SAMPLE_NS as int
        } else {
            n as int
        },
    )
}

impl Pace {
    /// How long to wait for the next sample, at `elapsed` nanoseconds since the start. A thread that fell far behind
    /// skips ahead to the sample that is due now.
    pub fn wait(&mut self, elapsed: u64) -> (sleep: u64)
        requires
            old(self).n <= u64::MAX / SAMPLE_NS,
        ensures
            (sleep as int, final(self).n as int) == paced(old(self).n, elapsed),
    {
        assert(self.n * SAMPLE_NS <= u64::MAX) by (nonlinear_arith)
            requires
                self.n <= u64::MAX / 33_333_300,
                SAMPLE_NS == 33_333_300,
        ;
        let due: u64 = self.n * SAMPLE_NS;
        if due > elapsed {
            return due - elapsed;
        }
        if elapsed - due > BEHIND_NS {
            self.n = elapsed / SAMPLE_NS;
        }
        0
    }

    /// A sample was delivered.
    pub fn delivered(&mut self)
        requires
            old(self).n < u64::MAX,
        ensures
            final(self).n == old(self).n + 1,
    {
        self.n = self.n + 1;
    }
}

} // verus!
