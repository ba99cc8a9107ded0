//! Shared-memory frame ring. The desktop app is the only writer; the virtual camera backends read it
//! from other processes. The OS mapping is not here: this module only knows the byte layout.
//!
//! Layout (little-endian, fixed):
//! ```text
//! Header, 4096 bytes:
//!   0  magic 'LNYF'      4  version (1)      8  slot_count      12 width     16 height
//!   20 format ('NV12')   24 stride_y         28 stride_uv       32 write_index u64 (frames completed)
//!   40 producer_pid      44 reserved         48 heartbeat_ms u64 (writer's clock)
//!   56 state (NO_SOURCE / LIVE / RECONNECTING / ERROR)           60 orientation (always 0)
//!   64 slot_bytes u64 (pixel bytes per slot)
//! Slot i at 4096 + i * (16 + slot_bytes rounded up to 64):
//!   seq u64 (seqlock: odd while writing), pts_100ns i64, then NV12 pixels (Y plane, then interleaved UV)
//! ```
//! Readers take the newest completed slot and check that `seq` didn't change while copying. Every offset
//! a reader uses is checked against the mapping length first: a corrupt header must never cause an
//! out-of-bounds read.
use vstd::prelude::*;
use vstd::view::View as _;
use crate::le::Le;

verus! {

/// 'LNYF'
pub const MAGIC: u32 = 0x4659_4E4C;

pub const VERSION: u32 = 1;

/// 'NV12'
pub const FOURCC_NV12: u32 = 0x3231_564E;

pub const HEADER_BYTES: usize = 4096;

pub const SLOT_COUNT: u32 = 3;

/// Largest frame a mapping is sized for.
pub const MAX_WIDTH: u32 = 1920;

pub const MAX_HEIGHT: u32 = 1080;

/// A reader shows its placeholder when the heartbeat is older than this.
pub const STALE_MS: u64 = 1000;

/// Windows object names. `Global\` so that a camera in another session sees them too.
pub const MAPPING_NAME: &'static str = "Global\\LennyFrames_v1";

pub const EVENT_NAME: &'static str = "Global\\LennyFrameReady_v1";

/// Where the program may not create `Global\` objects: cameras in the same session still work.
pub const LOCAL_MAPPING_NAME: &'static str = "Local\\LennyFrames_v1";

pub const LOCAL_EVENT_NAME: &'static str = "Local\\LennyFrameReady_v1";

/// Class ids of the two cameras.
pub const DSHOW_FILTER_CLSID: &'static str = "{BEEEF45F-D1F1-4A35-8F7D-17E756BC2046}";

pub const MF_SOURCE_CLSID: &'static str = "{5F0F9024-D043-45C1-B2F6-03DAB6CE130A}";

pub const STATE_NO_SOURCE: u32 = 0;

pub const STATE_LIVE: u32 = 1;

pub const STATE_RECONNECTING: u32 = 2;

pub const STATE_ERROR: u32 = 3;

pub const O_MAGIC: usize = 0;

pub const O_VERSION: usize = 4;

pub const O_SLOTS: usize = 8;

pub const O_WIDTH: usize = 12;

pub const O_HEIGHT: usize = 16;

pub const O_FORMAT: usize = 20;

pub const O_STRIDE_Y: usize = 24;

pub const O_STRIDE_UV: usize = 28;

pub const O_WRITE_INDEX: usize = 32;

pub const O_PID: usize = 40;

pub const O_HEARTBEAT: usize = 48;

pub const O_STATE: usize = 56;

pub const O_ORIENTATION: usize = 60;

pub const O_SLOT_BYTES: usize = 64;

pub const SLOT_HEADER: usize = 16;

// ---- Sizes -------------------------------------------------------------------------------------

/// The bytes of a frame: one for each pixel, and two for each block of four.
pub open spec fn nv12_len(w: int, h: int) -> int {
    w * h * 3 / 2
}

/// The bytes from one slot to the next: its header and its pixels, rounded up to 64.
pub open spec fn stride(slot_bytes: int) -> int {
    (SLOT_HEADER + slot_bytes + 63) / 64 * 64
}

/// The bytes of a mapping with these slots.
pub open spec fn ring_len(slot_bytes: int) -> int {
    HEADER_BYTES + SLOT_COUNT * stride(slot_bytes)
}

/// Where a slot starts.
pub open spec fn slot_at(index: int, slot_bytes: int) -> int {
    HEADER_BYTES + index % 3 * stride(slot_bytes)
}

pub fn nv12_bytes(w: u32, h: u32) -> (r: usize)
    requires
        w * h * 3 <= usize::MAX,
    ensures
        r == nv12_len(w as int, h as int),
{
    assert(w * h <= w * h * 3) by (nonlinear_arith);
    assert(w * h >= 0) by (nonlinear_arith);
    let n: usize = w as usize * h as usize;
    n * 3 / 2
}

/// Mapping size for frames up to `MAX_WIDTH` x `MAX_HEIGHT`: what the writer creates and readers
/// expect.
pub fn mapping_bytes() -> (r: usize)
    ensures
        r == ring_len(nv12_len(MAX_WIDTH as int, MAX_HEIGHT as int)),
{
    9335488
}

proof fn lemma_slot_fits(index: int, slot_bytes: int)
    requires
        0 <= index,
        0 <= slot_bytes,
    ensures
        HEADER_BYTES <= slot_at(index, slot_bytes),
        slot_at(index, slot_bytes) + SLOT_HEADER + slot_bytes <= ring_len(slot_bytes),
{
    let k = index % 3;
    let s = stride(slot_bytes);
    assert(0 <= k <= 2);
    assert(SLOT_HEADER + slot_bytes <= s);
    assert(0 <= k * s <= 2 * s) by (nonlinear_arith)
        requires
            0 <= k <= 2,
            0 <= s,
    ;
}

// ---- Memory ------------------------------------------------------------------------------------

/// Memory after `b` was written at `off`.
pub open spec fn store(mem: Seq<u8>, off: int, b: Seq<u8>) -> Seq<u8> {
    mem.take(off) + b + mem.skip(off + b.len())
}

pub open spec fn u32_at(mem: Seq<u8>, off: int) -> u32 {
    u32::of_bytes(mem.subrange(off, off + 4))
}

pub open spec fn u64_at(mem: Seq<u8>, off: int) -> u64 {
    u64::of_bytes(mem.subrange(off, off + 8))
}

/// What was written is what is there.
pub broadcast proof fn lemma_store_same(mem: Seq<u8>, off: int, b: Seq<u8>)
    requires
        0 <= off,
        off + b.len() <= mem.len(),
    ensures
        (#[trigger] store(mem, off, b)).len() == mem.len(),
        store(mem, off, b).subrange(off, off + b.len()) == b,
{
    assert(store(mem, off, b).subrange(off, off + b.len()) =~= b);
}

/// What lies elsewhere stays.
pub broadcast proof fn lemma_store_other(mem: Seq<u8>, off: int, b: Seq<u8>, from: int, to: int)
    requires
        0 <= off,
        off + b.len() <= mem.len(),
        0 <= from <= to <= mem.len(),
        to <= off || off + b.len() <= from,
    ensures
        #[trigger] store(mem, off, b).subrange(from, to) == mem.subrange(from, to),
{
    assert(store(mem, off, b).subrange(from, to) =~= mem.subrange(from, to));
}

pub broadcast group group_store {
    lemma_store_same,
    lemma_store_other,
}

fn put(mem: &mut [u8], off: usize, b: &[u8])
    requires
        off + b@.len() <= old(mem)@.len(),
    ensures
        final(mem)@ == store(old(mem)@, off as int, b@),
        final(mem)@.len() == old(mem)@.len(),
{
    let ghost before = mem@;
    let len: usize = mem.len();
    assert(off + b@.len() <= len);
    let mut i: usize = 0;
    assert(mem@ =~= store(before, off as int, b@.take(0)));
    while i < b.len()
        invariant
            i <= b@.len(),
            off + b@.len() <= before.len(),
            off + b@.len() <= usize::MAX,
            mem@ == store(before, off as int, b@.take(i as int)),
            mem@.len() == before.len(),
        decreases b.len() - i,
    {
        mem[off + i] = b[i];
        i = i + 1;
        assert(mem@ =~= store(before, off as int, b@.take(i as int)));
    }
    assert(b@.take(b@.len() as int) =~= b@);
}

fn put_u32(mem: &mut [u8], off: usize, x: u32)
    requires
        off + 4 <= old(mem)@.len(),
    ensures
        final(mem)@ == store(old(mem)@, off as int, x.bytes()),
        final(mem)@.len() == old(mem)@.len(),
{
    let mut b: Vec<u8> = Vec::new();
    x.put(&mut b);
    proof {
        x.lemma_bytes_then_of();
        assert(b@ =~= x.bytes());
    }
    put(mem, off, b.as_slice());
}

fn put_u64(mem: &mut [u8], off: usize, x: u64)
    requires
        off + 8 <= old(mem)@.len(),
    ensures
        final(mem)@ == store(old(mem)@, off as int, x.bytes()),
        final(mem)@.len() == old(mem)@.len(),
{
    let mut b: Vec<u8> = Vec::new();
    x.put(&mut b);
    proof {
        x.lemma_bytes_then_of();
        assert(b@ =~= x.bytes());
    }
    put(mem, off, b.as_slice());
}

fn put_i64(mem: &mut [u8], off: usize, x: i64)
    requires
        off + 8 <= old(mem)@.len(),
    ensures
        final(mem)@ == store(old(mem)@, off as int, x.bytes()),
        final(mem)@.len() == old(mem)@.len(),
{
    let mut b: Vec<u8> = Vec::new();
    x.put(&mut b);
    proof {
        x.lemma_bytes_then_of();
        assert(b@ =~= x.bytes());
    }
    put(mem, off, b.as_slice());
}

fn get_u32(mem: &[u8], off: usize) -> (r: u32)
    requires
        off + 4 <= mem@.len(),
    ensures
        r == u32_at(mem@, off as int),
{
    let len: usize = mem.len();
    assert(off + 4 <= len);
    match <u32 as Le>::get(&mem[off..off + 4]) {
        Some(x) => x,
        None => 0,
    }
}

fn get_u64(mem: &[u8], off: usize) -> (r: u64)
    requires
        off + 8 <= mem@.len(),
    ensures
        r == u64_at(mem@, off as int),
{
    let len: usize = mem.len();
    assert(off + 8 <= len);
    match <u64 as Le>::get(&mem[off..off + 8]) {
        Some(x) => x,
        None => 0,
    }
}

// ---- Writer ------------------------------------------------------------------------------------

/// A mapped view: memory that holds at least a header.
pub struct View<'a> {
    pub mem: &'a mut [u8],
}

impl<'a> View<'a> {
    /// `None` if there is no room for a header.
    pub fn new(mem: &'a mut [u8]) -> (r: Option<View<'a>>)
        ensures
            match r {
                Some(v) => {
                    &&& old(mem)@.len() >= HEADER_BYTES
                    &&& v.mem@ == old(mem)@
                    &&& final(v.mem)@ == final(mem)@
                },
                None => old(mem)@.len() < HEADER_BYTES && final(mem)@ == old(mem)@,
            },
    {
        if mem.len() >= HEADER_BYTES {
            Some(View { mem })
        } else {
            None
        }
    }
}

/// Header fields a reader needs, validated.
#[derive(Clone, Copy, Debug, PartialEq, Eq, Structural)]
pub struct Format {
    pub width: u32,
    pub height: u32,
    pub slot_bytes: usize,
}

/// A frame size that a ring of this length can hold: even, and not empty.
pub open spec fn accepts(len: nat, w: u32, h: u32) -> bool {
    &&& w > 0 && h > 0
    &&& w % 2 == 0 && h % 2 == 0
    &&& ring_len(nv12_len(w as int, h as int)) <= len
}

/// The memory holds a ring of this format: the ring fits, its header stands for the format, and no slot is left
/// half-written.
pub open spec fn holds_ring(mem: Seq<u8>, fmt: Format) -> bool {
    &&& accepts(mem.len(), fmt.width, fmt.height)
    &&& fmt.slot_bytes == nv12_len(fmt.width as int, fmt.height as int)
    &&& header_at(mem) == header_for(fmt.width, fmt.height)
    &&& all_complete(mem, fmt.slot_bytes as int)
}

/// The memory with a complete header and no frame.
#[verifier::opaque]
pub open spec fn initialised(mem: Seq<u8>, w: u32, h: u32, pid: u32) -> Seq<u8> {
    let n = nv12_len(w as int, h as int);
    let m = store(mem, O_MAGIC as int, 0u32.bytes());
    let m = store(m, O_VERSION as int, VERSION.bytes());
    let m = store(m, O_SLOTS as int, SLOT_COUNT.bytes());
    let m = store(m, O_WIDTH as int, w.bytes());
    let m = store(m, O_HEIGHT as int, h.bytes());
    let m = store(m, O_FORMAT as int, FOURCC_NV12.bytes());
    let m = store(m, O_STRIDE_Y as int, w.bytes());
    let m = store(m, O_STRIDE_UV as int, w.bytes());
    let m = store(m, O_PID as int, pid.bytes());
    let m = store(m, O_STATE as int, STATE_NO_SOURCE.bytes());
    let m = store(m, O_ORIENTATION as int, 0u32.bytes());
    let m = store(m, O_SLOT_BYTES as int, (n as u64).bytes());
    let m = store(m, O_WRITE_INDEX as int, 0u64.bytes());
    let m = store(m, slot_at(0, n), 0u64.bytes());
    let m = store(m, slot_at(1, n), 0u64.bytes());
    let m = store(m, slot_at(2, n), 0u64.bytes());
    store(m, O_MAGIC as int, MAGIC.bytes())
}

/// The next number; the one after the last is 0.
pub open spec fn wrap_next(x: u64) -> u64 {
    if x == u64::MAX {
        0
    } else {
        (x + 1) as u64
    }
}

/// Where the next frame goes.
pub open spec fn next_slot(mem: Seq<u8>, slot_bytes: int) -> int {
    slot_at(wrap_next(u64_at(mem, O_WRITE_INDEX as int)) as int, slot_bytes)
}

/// First step: the slot is marked as being written.
pub open spec fn begun(mem: Seq<u8>, off: int) -> Seq<u8> {
    store(mem, off, wrap_next(u64_at(mem, off)).bytes())
}

/// Second step: time stamp and pixels.
pub open spec fn filled(mem: Seq<u8>, off: int, pts: i64, pixels: Seq<u8>) -> Seq<u8> {
    store(store(mem, off + 8, pts.bytes()), off + SLOT_HEADER, pixels)
}

/// Last step: the slot is marked as complete, and readers are pointed to it.
pub open spec fn finished(mem: Seq<u8>, off: int, now_ms: u64) -> Seq<u8> {
    let m = store(mem, off, wrap_next(u64_at(mem, off)).bytes());
    let m = store(
        m,
        O_WRITE_INDEX as int,
        wrap_next(u64_at(mem, O_WRITE_INDEX as int)).bytes(),
    );
    store(m, O_HEARTBEAT as int, now_ms.bytes())
}

/// The memory after one frame was published.
pub open spec fn published(
    mem: Seq<u8>,
    slot_bytes: int,
    pixels: Seq<u8>,
    pts: i64,
    now_ms: u64,
) -> Seq<u8> {
    let off = next_slot(mem, slot_bytes);
    finished(filled(begun(mem, off), off, pts, pixels), off, now_ms)
}

/// After a write, a reader finds the frame that was written, with the next index; the header, the state and the
/// orientation stay. Readers accept no frames beyond `MAX_WIDTH` x `MAX_HEIGHT`, and after 2^64 - 1 frames the count
/// starts over.
pub open spec fn reads_back(
    before: Seq<u8>,
    after: Seq<u8>,
    pixels: Seq<u8>,
    pts: i64,
    now_ms: u64,
) -> bool {
    let h = header_at(before);
    let index = u64_at(before, O_WRITE_INDEX as int);
    &&& after.len() == before.len()
    &&& header_at(after) == h
    &&& u64_at(after, O_WRITE_INDEX as int) == wrap_next(index)
    &&& u32_at(after, O_STATE as int) == u32_at(before, O_STATE as int)
    &&& u32_at(after, O_ORIENTATION as int) == u32_at(before, O_ORIENTATION as int)
    &&& u64_at(after, O_HEARTBEAT as int) == now_ms
    &&& pixels_at(after) == pixels
    &&& h.width <= MAX_WIDTH && h.height <= MAX_HEIGHT && index < u64::MAX ==> found(after, pixels.len()) == Ok::<
        Frame,
        ReadError,
    >(Frame { index: (index + 1) as u64, pts_100ns: pts })
}

/// I420 (Y plane, U plane, V plane) as NV12 (Y plane, then U and V by turns).
pub open spec fn i420_as_nv12(s: Seq<u8>, w: int, h: int) -> Seq<u8> {
    let n = w * h;
    Seq::new(
        s.len(),
        |i: int|
            if i < n {
                s[i]
            } else if (i - n) % 2 == 0 {
                s[n + (i - n) / 2]
            } else {
                s[n + n / 4 + (i - n) / 2]
            },
    )
}

/// The bytes of a slot's pixels and from slot to slot, if a ring of this length can hold frames of
/// this size.
fn ring_fit(len: usize, width: u32, height: u32) -> (r: Option<(usize, usize)>)
    ensures
        match r {
            Some((n, step)) => {
                &&& accepts(len as nat, width, height)
                &&& n == nv12_len(width as int, height as int)
                &&& step == stride(n as int)
            },
            None => !accepts(len as nat, width, height),
        },
{
    if width == 0 || height == 0 || width % 2 == 1 || height % 2 == 1 {
        return None;
    }
    assert(0 <= width * height <= 0xFFFF_FFFE_0000_0001) by (nonlinear_arith)
        requires
            width <= 0xFFFF_FFFF,
            height <= 0xFFFF_FFFF,
    ;
    let n: u128 = width as u128 * height as u128 * 3 / 2;
    let step: u128 = (16 + n + 63) / 64 * 64;
    if 4096 + 3 * step > len as u128 {
        return None;
    }
    Some((n as usize, step as usize))
}

/// Writes the header and marks all slots as never written.
fn init(mem: &mut [u8], width: u32, height: u32, pid: u32, slot_bytes: usize, step: usize)
    requires
        accepts(old(mem)@.len(), width, height),
        slot_bytes == nv12_len(width as int, height as int),
        step == stride(slot_bytes as int),
    ensures
        final(mem)@ == initialised(old(mem)@, width, height, pid),
        final(mem)@.len() == old(mem)@.len(),
{
    let len: usize = mem.len();
    assert(HEADER_BYTES + 3 * step <= len);
    // Readers ignore the rest until the magic is there.
    put_u32(mem, O_MAGIC, 0);
    put_u32(mem, O_VERSION, VERSION);
    put_u32(mem, O_SLOTS, SLOT_COUNT);
    put_u32(mem, O_WIDTH, width);
    put_u32(mem, O_HEIGHT, height);
    put_u32(mem, O_FORMAT, FOURCC_NV12);
    put_u32(mem, O_STRIDE_Y, width);
    put_u32(mem, O_STRIDE_UV, width);
    put_u32(mem, O_PID, pid);
    put_u32(mem, O_STATE, STATE_NO_SOURCE);
    put_u32(mem, O_ORIENTATION, 0);
    put_u64(mem, O_SLOT_BYTES, slot_bytes as u64);
    put_u64(mem, O_WRITE_INDEX, 0);
    proof {
        reveal(initialised);
        let n = slot_bytes as int;
        let s = stride(n);
        assert(0int % 3 * s == 0 && 1int % 3 * s == s && 2int % 3 * s == 2 * s)
            by (nonlinear_arith);
        assert(slot_at(0, n) == HEADER_BYTES);
        assert(slot_at(1, n) == HEADER_BYTES + step);
        assert(slot_at(2, n) == HEADER_BYTES + 2 * step);
    }
    put_u64(mem, HEADER_BYTES, 0);
    put_u64(mem, HEADER_BYTES + step, 0);
    put_u64(mem, HEADER_BYTES + 2 * step, 0);
    put_u32(mem, O_MAGIC, MAGIC);
}

pub struct Writer<'a> {
    pub view: View<'a>,
    pub fmt: Format,
}

impl<'a> Writer<'a> {
    /// The memory holds a ring of the writer's format.
    pub open spec fn wf(&self) -> bool {
        holds_ring(self.view.mem@, self.fmt)
    }

    /// Initializes the header for `width` x `height` NV12 frames. None if the mapping is too small.
    pub fn new(view: View<'a>, width: u32, height: u32, pid: u32) -> (r: Option<Writer<'a>>)
        requires
            old(view.mem)@.len() >= HEADER_BYTES,
        ensures
            match r {
                Some(w) => {
                    &&& accepts(old(view.mem)@.len(), width, height)
                    &&& w.wf()
                    &&& w.fmt == (Format {
                        width,
                        height,
                        slot_bytes: nv12_len(width as int, height as int) as usize,
                    })
                    &&& w.view.mem@ == initialised(old(view.mem)@, width, height, pid)
                    &&& u64_at(w.view.mem@, O_WRITE_INDEX as int) == 0
                    &&& u32_at(w.view.mem@, O_STATE as int) == STATE_NO_SOURCE
                    &&& final(w.view.mem)@ == final(view.mem)@
                },
                None => !accepts(old(view.mem)@.len(), width, height) && final(view.mem)@ == old(view.mem)@,
            },
    {
        match ring_fit(view.mem.len(), width, height) {
            None => None,
            Some((slot_bytes, step)) => {
                let mem = view.mem;
                let ghost before = mem@;
                init(mem, width, height, pid, slot_bytes, step);
                proof {
                    lemma_initialised(before, width, height, pid);
                }
                Some(Writer { view: View { mem }, fmt: Format { width, height, slot_bytes } })
            },
        }
    }
}

/// An I420 picture as NV12.
pub fn nv12_of(i420: &[u8], w: usize, h: usize) -> (r: Vec<u8>)
    requires
        w % 2 == 0,
        h % 2 == 0,
        i420@.len() == w * h * 3 / 2,
    ensures
        r@ == i420_as_nv12(i420@, w as int, h as int),
{
    assert(0 <= w * h <= w * h * 3) by (nonlinear_arith)
        requires
            w >= 0,
            h >= 0,
    ;
    let len: usize = i420.len();
    let n: usize = w * h;
    assert(n % 4 == 0) by {
        let (a, b) = (w / 2, h / 2);
        assert(w * h == 4 * (a * b)) by (nonlinear_arith)
            requires
                w == 2 * a,
                h == 2 * b,
        ;
    }
    let mut r: Vec<u8> = Vec::new();
    let mut i: usize = 0;
    let ghost want = i420_as_nv12(i420@, w as int, h as int);
    while i < len
        invariant
            len == i420@.len(),
            n == w * h,
            n % 4 == 0,
            len == n * 3 / 2,
            i <= len,
            want == i420_as_nv12(i420@, w as int, h as int),
            r@ == want.take(i as int),
        decreases len - i,
    {
        let b: u8 = if i < n {
            i420[i]
        } else if (i - n) % 2 == 0 {
            i420[n + (i - n) / 2]
        } else {
            i420[n + n / 4 + (i - n) / 2]
        };
        assert(b == want[i as int]);
        r.push(b);
        assert(want.take(i as int + 1) =~= want.take(i as int).push(want[i as int]));
        i = i + 1;
    }
    assert(want.take(len as int) =~= want);
    r
}

fn wrapping_next(x: u64) -> (r: u64)
    ensures
        r == wrap_next(x),
{
    if x == u64::MAX {
        0
    } else {
        x + 1
    }
}

impl<'a> Writer<'a> {
    pub fn format(&self) -> (r: Format)
        ensures
            r == self.fmt,
    {
        self.fmt
    }

    /// The memory, for readers in this process.
    pub fn memory(&self) -> (r: &[u8])
        ensures
            r@ == old(self.view.mem)@,
    {
        &*self.view.mem
    }

    /// Publishes one I420 frame (converted to NV12 on the way in). Never blocks. False if the
    /// frame has the wrong size.
    pub fn write_i420(&mut self, i420: &[u8], pts_100ns: i64, now_ms: u64) -> (r: bool)
        requires
            old(self).wf(),
        ensures
            final(self).wf(),
            final(self).fmt == old(self).fmt,
            final(final(self).view.mem)@ == final(old(self).view.mem)@,
            r == (i420@.len() == old(self).fmt.slot_bytes),
            final(self).view.mem@ == (if r {
                published(
                    old(self).view.mem@,
                    old(self).fmt.slot_bytes as int,
                    i420_as_nv12(
                        i420@,
                        old(self).fmt.width as int,
                        old(self).fmt.height as int,
                    ),
                    pts_100ns,
                    now_ms,
                )
            } else {
                old(self).view.mem@
            }),
            r ==> reads_back(
                old(self).view.mem@,
                final(self).view.mem@,
                i420_as_nv12(i420@, old(self).fmt.width as int, old(self).fmt.height as int),
                pts_100ns,
                now_ms,
            ),
    {
        if i420.len() != self.fmt.slot_bytes {
            return false;
        }
        let nv12 = nv12_of(i420, self.fmt.width as usize, self.fmt.height as usize);
        self.publish(nv12.as_slice(), pts_100ns, now_ms);
        true
    }

    /// Publishes one NV12 frame. False if it has the wrong size.
    pub fn write_nv12(&mut self, nv12: &[u8], pts_100ns: i64, now_ms: u64) -> (r: bool)
        requires
            old(self).wf(),
        ensures
            final(self).wf(),
            final(self).fmt == old(self).fmt,
            final(final(self).view.mem)@ == final(old(self).view.mem)@,
            r == (nv12@.len() == old(self).fmt.slot_bytes),
            final(self).view.mem@ == (if r {
                published(
                    old(self).view.mem@,
                    old(self).fmt.slot_bytes as int,
                    nv12@,
                    pts_100ns,
                    now_ms,
                )
            } else {
                old(self).view.mem@
            }),
            r ==> reads_back(old(self).view.mem@, final(self).view.mem@, nv12@, pts_100ns, now_ms),
    {
        if nv12.len() != self.fmt.slot_bytes {
            return false;
        }
        self.publish(nv12, pts_100ns, now_ms);
        true
    }

    fn publish(&mut self, pixels: &[u8], pts_100ns: i64, now_ms: u64)
        requires
            old(self).wf(),
            pixels@.len() == old(self).fmt.slot_bytes,
        ensures
            final(self).wf(),
            final(self).fmt == old(self).fmt,
            final(final(self).view.mem)@ == final(old(self).view.mem)@,
            final(self).view.mem@ == published(
                old(self).view.mem@,
                old(self).fmt.slot_bytes as int,
                pixels@,
                pts_100ns,
                now_ms,
            ),
            reads_back(old(self).view.mem@, final(self).view.mem@, pixels@, pts_100ns, now_ms),
    {
        let ghost before = self.view.mem@;
        let ghost n = self.fmt.slot_bytes as int;
        let next: u64 = wrapping_next(get_u64(&*self.view.mem, O_WRITE_INDEX));
        let off: usize = slot_offset(next, self.fmt.slot_bytes, self.view.mem.len());
        proof {
            lemma_slot_fits(next as int, n);
            next.lemma_bytes_then_of();
            pts_100ns.lemma_bytes_then_of();
        }
        let seq: u64 = wrapping_next(get_u64(&*self.view.mem, off));
        // Odd: writing.
        put_u64(self.view.mem, off, seq);
        proof {
            seq.lemma_bytes_then_of();
        }
        put_i64(self.view.mem, off + 8, pts_100ns);
        put(self.view.mem, off + SLOT_HEADER, pixels);
        assert(self.view.mem@ == filled(begun(before, off as int), off as int, pts_100ns, pixels@));
        let ghost full = self.view.mem@;
        let done: u64 = wrapping_next(get_u64(&*self.view.mem, off));
        let index: u64 = wrapping_next(get_u64(&*self.view.mem, O_WRITE_INDEX));
        // Even: complete.
        put_u64(self.view.mem, off, done);
        put_u64(self.view.mem, O_WRITE_INDEX, index);
        put_u64(self.view.mem, O_HEARTBEAT, now_ms);
        assert(self.view.mem@ == finished(full, off as int, now_ms));
        proof {
            lemma_header_of(before, self.fmt.width, self.fmt.height);
            lemma_published(before, pixels@, pts_100ns, now_ms);
        }
    }

    /// Call at least every few hundred ms even without frames, so readers know the app is alive.
    pub fn heartbeat(&mut self, now_ms: u64)
        requires
            old(self).wf(),
        ensures
            final(self).wf(),
            final(self).fmt == old(self).fmt,
            final(final(self).view.mem)@ == final(old(self).view.mem)@,
            final(self).view.mem@ == store(
                old(self).view.mem@,
                O_HEARTBEAT as int,
                now_ms.bytes(),
            ),
            u64_at(final(self).view.mem@, O_HEARTBEAT as int) == now_ms,
            same_frames(old(self).view.mem@, final(self).view.mem@),
            u32_at(final(self).view.mem@, O_STATE as int) == u32_at(old(self).view.mem@, O_STATE as int),
    {
        proof {
            lemma_beat_and_state(self.view.mem@, self.fmt.slot_bytes as int, now_ms, 0);
        }
        put_u64(self.view.mem, O_HEARTBEAT, now_ms);
    }

    pub fn set_state(&mut self, state: u32)
        requires
            old(self).wf(),
        ensures
            final(self).wf(),
            final(self).fmt == old(self).fmt,
            final(final(self).view.mem)@ == final(old(self).view.mem)@,
            final(self).view.mem@ == store(old(self).view.mem@, O_STATE as int, state.bytes()),
            u32_at(final(self).view.mem@, O_STATE as int) == state,
            same_frames(old(self).view.mem@, final(self).view.mem@),
            u64_at(final(self).view.mem@, O_HEARTBEAT as int) == u64_at(old(self).view.mem@, O_HEARTBEAT as int),
    {
        proof {
            lemma_beat_and_state(self.view.mem@, self.fmt.slot_bytes as int, 0, state);
        }
        put_u32(self.view.mem, O_STATE, state);
    }
}

/// Where the slot of frame `index` starts.
pub fn slot_offset(index: u64, slot_bytes: usize, len: usize) -> (off: usize)
    requires
        ring_len(slot_bytes as int) <= len,
    ensures
        off == slot_at(index as int, slot_bytes as int),
        off + SLOT_HEADER + slot_bytes <= len,
{
    proof {
        lemma_slot_fits(index as int, slot_bytes as int);
    }
    let step: usize = (SLOT_HEADER + slot_bytes + 63) / 64 * 64;
    let k: usize = (index % 3) as usize;
    assert(k * step == (if k == 0 {
        0
    } else if k == 1 {
        step as int
    } else {
        2 * step
    })) by (nonlinear_arith)
        requires
            k <= 2,
    ;
    if k == 0 {
        HEADER_BYTES
    } else if k == 1 {
        HEADER_BYTES + step
    } else {
        HEADER_BYTES + 2 * step
    }
}

// ---- Reader ------------------------------------------------------------------------------------

#[derive(Clone, Copy, Debug, PartialEq, Eq, Structural)]
pub enum ReadError {
    /// Header missing, wrong version, or fields that don't fit the mapping.
    Invalid,
    /// No frame written yet.
    Empty,
    /// The writer kept overwriting the slot while we copied (retry next tick).
    Torn,
    /// Output buffer has the wrong size for this format.
    BadOutput,
}

#[derive(Clone, Copy, Debug, PartialEq, Eq, Structural)]
pub struct Frame {
    pub index: u64,
    pub pts_100ns: i64,
}

/// The header fields that a reader relies on, as they are in memory.
#[derive(Clone, Copy, Debug, PartialEq, Eq, Structural)]
pub struct RawHeader {
    pub magic: u32,
    pub version: u32,
    pub slots: u32,
    pub width: u32,
    pub height: u32,
    pub format: u32,
    pub stride_y: u32,
    pub stride_uv: u32,
    pub slot_bytes: u64,
}

pub open spec fn header_at(mem: Seq<u8>) -> RawHeader {
    RawHeader {
        magic: u32_at(mem, O_MAGIC as int),
        version: u32_at(mem, O_VERSION as int),
        slots: u32_at(mem, O_SLOTS as int),
        width: u32_at(mem, O_WIDTH as int),
        height: u32_at(mem, O_HEIGHT as int),
        format: u32_at(mem, O_FORMAT as int),
        stride_y: u32_at(mem, O_STRIDE_Y as int),
        stride_uv: u32_at(mem, O_STRIDE_UV as int),
        slot_bytes: u64_at(mem, O_SLOT_BYTES as int),
    }
}

/// A header that is complete and consistent with the mapping's size.
pub open spec fn header_ok(h: RawHeader, len: nat) -> bool {
    &&& h.magic == MAGIC
    &&& h.version == VERSION
    &&& h.slots == SLOT_COUNT
    &&& h.format == FOURCC_NV12
    &&& 0 < h.width <= MAX_WIDTH
    &&& 0 < h.height <= MAX_HEIGHT
    &&& h.stride_y == h.width
    &&& h.stride_uv == h.width
    &&& h.slot_bytes == nv12_len(h.width as int, h.height as int)
    &&& ring_len(h.slot_bytes as int) <= len
}

/// The format that a header stands for.
pub fn check_header(h: &RawHeader, len: usize) -> (r: Result<Format, ReadError>)
    ensures
        match r {
            Ok(f) => {
                &&& header_ok(*h, len as nat)
                &&& f == (Format {
                    width: h.width,
                    height: h.height,
                    slot_bytes: h.slot_bytes as usize,
                })
                &&& f.slot_bytes == h.slot_bytes
            },
            Err(e) => !header_ok(*h, len as nat) && e == ReadError::Invalid,
        },
{
    if h.magic != MAGIC || h.version != VERSION || h.slots != SLOT_COUNT || h.format
        != FOURCC_NV12 {
        return Err(ReadError::Invalid);
    }
    if h.width == 0 || h.height == 0 || h.width > MAX_WIDTH || h.height > MAX_HEIGHT || h.stride_y
        != h.width || h.stride_uv != h.width {
        return Err(ReadError::Invalid);
    }
    assert(h.width * h.height <= 1920 * 1080) by (nonlinear_arith)
        requires
            h.width <= 1920,
            h.height <= 1080,
    ;
    let n: usize = nv12_bytes(h.width, h.height);
    if h.slot_bytes != n as u64 {
        return Err(ReadError::Invalid);
    }
    let step: usize = (SLOT_HEADER + n + 63) / 64 * 64;
    if HEADER_BYTES + 3 * step > len {
        return Err(ReadError::Invalid);
    }
    Ok(Format { width: h.width, height: h.height, slot_bytes: n })
}

/// Whether a copy that was made between two looks at the slot's `seq` is one whole frame.
pub fn copy_is_whole(before: u64, after: u64) -> (r: bool)
    ensures
        r == (before % 2 == 0 && before == after),
{
    before % 2 == 0 && before == after
}

/// Where the newest frame stands in the ring.
#[derive(Clone, Copy, Debug, PartialEq, Eq, Structural)]
pub struct Place {
    pub index: u64,
    /// Where its slot begins: `seq`, 8 bytes of time stamp, the pixels.
    pub offset: usize,
    pub slot_bytes: usize,
}

/// A copy of the newest frame that is under way; `seq` is what was seen before it began.
#[derive(Clone, Copy, Debug, PartialEq, Eq, Structural)]
pub struct Copying {
    pub index: u64,
    pub seq: u64,
}

/// Where the newest frame stands, by the header and the write index, for an output buffer of `out_len` bytes.
pub open spec fn place_of(h: RawHeader, len: nat, out_len: nat, index: u64) -> Result<Place, ReadError> {
    if !header_ok(h, len) {
        Err(ReadError::Invalid)
    } else if out_len != h.slot_bytes {
        Err(ReadError::BadOutput)
    } else if index == 0 {
        Err(ReadError::Empty)
    } else {
        Ok(
            Place {
                index,
                offset: slot_at(index as int, h.slot_bytes as int) as usize,
                slot_bytes: h.slot_bytes as usize,
            },
        )
    }
}

/// Where the newest frame stands in a ring of `len` bytes that another process writes to: the first step of a read, on
/// the header and the write index as they were seen. All of the slot is inside the ring.
pub fn place(h: &RawHeader, len: usize, out_len: usize, index: u64) -> (r: Result<Place, ReadError>)
    ensures
        r == place_of(*h, len as nat, out_len as nat, index),
        r matches Ok(p) ==> p.offset == slot_at(index as int, h.slot_bytes as int) && p.slot_bytes == out_len
            && HEADER_BYTES <= p.offset && p.offset + SLOT_HEADER + out_len <= len,
{
    let fmt = match check_header(h, len) {
        Ok(f) => f,
        Err(e) => {
            return Err(e);
        },
    };
    if out_len != fmt.slot_bytes {
        return Err(ReadError::BadOutput);
    }
    if index == 0 {
        return Err(ReadError::Empty);
    }
    let offset: usize = slot_offset(index, fmt.slot_bytes, len);
    proof {
        lemma_slot_fits(index as int, fmt.slot_bytes as int);
    }
    Ok(Place { index, offset, slot_bytes: fmt.slot_bytes })
}

impl Place {
    /// The second step: a copy may begin where `seq`, as it was just seen, is even.
    pub fn begin(self, seq: u64) -> (r: Result<Copying, ReadError>)
        ensures
            r == (if seq % 2 == 1 {
                Err::<Copying, ReadError>(ReadError::Torn)
            } else {
                Ok::<Copying, ReadError>(Copying { index: self.index, seq })
            }),
    {
        if seq % 2 == 1 {
            return Err(ReadError::Torn);
        }
        Ok(Copying { index: self.index, seq })
    }
}

/// What comes of a copy after which `seq` was seen, with this time stamp.
pub open spec fn finish_of(c: Copying, seq: u64, pts_100ns: i64) -> Result<Frame, ReadError> {
    if c.seq % 2 == 0 && c.seq == seq {
        Ok(Frame { index: c.index, pts_100ns })
    } else {
        Err(ReadError::Torn)
    }
}

impl Copying {
    /// The last step, after time stamp and pixels were copied: the copy is thrown away unless `seq`, as it was just
    /// seen, is still the same.
    pub fn finish(self, seq: u64, pts_100ns: i64) -> (r: Result<Frame, ReadError>)
        ensures
            r == finish_of(self, seq, pts_100ns),
    {
        if copy_is_whole(self.seq, seq) {
            Ok(Frame { index: self.index, pts_100ns })
        } else {
            Err(ReadError::Torn)
        }
    }
}

/// The header of a ring for frames of this size.
pub open spec fn header_for(w: u32, h: u32) -> RawHeader {
    RawHeader {
        magic: MAGIC,
        version: VERSION,
        slots: SLOT_COUNT,
        width: w,
        height: h,
        format: FOURCC_NV12,
        stride_y: w,
        stride_uv: w,
        slot_bytes: nv12_len(w as int, h as int) as u64,
    }
}

/// Readers find the same in both memories.
pub open spec fn same_frames(a: Seq<u8>, b: Seq<u8>) -> bool {
    &&& a.len() == b.len()
    &&& header_at(a) == header_at(b)
    &&& u64_at(a, O_WRITE_INDEX as int) == u64_at(b, O_WRITE_INDEX as int)
    &&& forall|out_len: nat| #[trigger] found(a, out_len) == found(b, out_len)
    &&& found(a, header_at(a).slot_bytes as nat) is Ok ==> pixels_at(a) == pixels_at(b)
}

/// What a reader of this memory finds, with an output buffer of this size.
pub open spec fn found(mem: Seq<u8>, out_len: nat) -> Result<Frame, ReadError> {
    let n = u64_at(mem, O_SLOT_BYTES as int) as int;
    let index = u64_at(mem, O_WRITE_INDEX as int);
    let off = slot_at(index as int, n);
    if !header_ok(header_at(mem), mem.len()) {
        Err(ReadError::Invalid)
    } else if out_len != n {
        Err(ReadError::BadOutput)
    } else if index == 0 {
        Err(ReadError::Empty)
    } else if u64_at(mem, off) % 2 == 1 {
        Err(ReadError::Torn)
    } else {
        Ok(Frame { index, pts_100ns: i64::of_bytes(mem.subrange(off + 8, off + 16)) })
    }
}

/// The pixels of the newest frame.
pub open spec fn pixels_at(mem: Seq<u8>) -> Seq<u8> {
    let n = u64_at(mem, O_SLOT_BYTES as int) as int;
    let off = slot_at(u64_at(mem, O_WRITE_INDEX as int) as int, n);
    mem.subrange(off + SLOT_HEADER, off + SLOT_HEADER + n)
}

pub struct Reader<'a> {
    pub mem: &'a [u8],
}

impl<'a> Reader<'a> {
    /// There is room for a header.
    pub open spec fn wf(&self) -> bool {
        self.mem@.len() >= HEADER_BYTES
    }

    /// `None` if there is no room for a header.
    pub fn new(mem: &'a [u8]) -> (r: Option<Reader<'a>>)
        ensures
            match r {
                Some(x) => x.wf() && x.mem@ == mem@,
                None => mem@.len() < HEADER_BYTES,
            },
    {
        if mem.len() >= HEADER_BYTES {
            Some(Reader { mem })
        } else {
            None
        }
    }

    fn header(&self) -> (h: RawHeader)
        requires
            self.wf(),
        ensures
            h == header_at(self.mem@),
    {
        RawHeader {
            magic: get_u32(self.mem, O_MAGIC),
            version: get_u32(self.mem, O_VERSION),
            slots: get_u32(self.mem, O_SLOTS),
            width: get_u32(self.mem, O_WIDTH),
            height: get_u32(self.mem, O_HEIGHT),
            format: get_u32(self.mem, O_FORMAT),
            stride_y: get_u32(self.mem, O_STRIDE_Y),
            stride_uv: get_u32(self.mem, O_STRIDE_UV),
            slot_bytes: get_u64(self.mem, O_SLOT_BYTES),
        }
    }

    /// The format, if the header is complete and consistent with the mapping size.
    pub fn format(&self) -> (r: Result<Format, ReadError>)
        requires
            self.wf(),
        ensures
            match r {
                Ok(f) => {
                    &&& header_ok(header_at(self.mem@), self.mem@.len())
                    &&& f.width == u32_at(self.mem@, O_WIDTH as int)
                    &&& f.height == u32_at(self.mem@, O_HEIGHT as int)
                    &&& f.slot_bytes == u64_at(self.mem@, O_SLOT_BYTES as int)
                },
                Err(e) => {
                    &&& !header_ok(header_at(self.mem@), self.mem@.len())
                    &&& e == ReadError::Invalid
                },
            },
    {
        let h = self.header();
        check_header(&h, self.mem.len())
    }

    pub fn state(&self) -> (r: u32)
        requires
            self.wf(),
        ensures
            r == u32_at(self.mem@, O_STATE as int),
    {
        get_u32(self.mem, O_STATE)
    }

    /// Milliseconds since the writer's last heartbeat, given the reader's clock (same clock as the
    /// writer's).
    pub fn heartbeat_age(&self, now_ms: u64) -> (r: u64)
        requires
            self.wf(),
        ensures
            ({
                let beat = u64_at(self.mem@, O_HEARTBEAT as int);
                r == (if now_ms > beat {
                    now_ms - beat
                } else {
                    0
                })
            }),
    {
        let beat: u64 = get_u64(self.mem, O_HEARTBEAT);
        if now_ms > beat {
            now_ms - beat
        } else {
            0
        }
    }

    /// Copies the newest complete frame (NV12) into `out`, which must be exactly `format().slot_bytes` long. Nothing
    /// writes to this memory meanwhile; beside a writer the same steps, `place`, `Place::begin` and `Copying::finish`,
    /// are taken on what was seen of the memory one after the other.
    pub fn read_nv12(&self, out: &mut [u8]) -> (r: Result<Frame, ReadError>)
        requires
            self.wf(),
        ensures
            r == found(self.mem@, old(out)@.len()),
            final(out)@ == (if r is Ok {
                pixels_at(self.mem@)
            } else {
                old(out)@
            }),
    {
        let index: u64 = get_u64(self.mem, O_WRITE_INDEX);
        let slot = match place(&self.header(), self.mem.len(), out.len(), index) {
            Ok(p) => p,
            Err(e) => {
                return Err(e);
            },
        };
        let off: usize = slot.offset;
        let copying = match slot.begin(get_u64(self.mem, off)) {
            Ok(c) => c,
            Err(e) => {
                return Err(e);
            },
        };
        let pts_100ns: i64 = match <i64 as Le>::get(&self.mem[off + 8..off + 16]) {
            Some(x) => x,
            None => 0,
        };
        put(out, 0, &self.mem[off + SLOT_HEADER..off + SLOT_HEADER + slot.slot_bytes]);
        assert(out@ =~= pixels_at(self.mem@));
        copying.finish(get_u64(self.mem, off), pts_100ns)
    }
}

// ---- Laws --------------------------------------------------------------------------------------

proof fn lemma_number_widths()
    ensures
        forall|x: u32| #[trigger] x.bytes().len() == 4 && u32::of_bytes(x.bytes()) == x,
        forall|x: u64| #[trigger] x.bytes().len() == 8 && u64::of_bytes(x.bytes()) == x,
        forall|x: i64| #[trigger] x.bytes().len() == 8 && i64::of_bytes(x.bytes()) == x,
{
    assert forall|x: u32| #[trigger] x.bytes().len() == 4 && u32::of_bytes(x.bytes()) == x by {
        x.lemma_bytes_then_of();
    }
    assert forall|x: u64| #[trigger] x.bytes().len() == 8 && u64::of_bytes(x.bytes()) == x by {
        x.lemma_bytes_then_of();
    }
    assert forall|x: i64| #[trigger] x.bytes().len() == 8 && i64::of_bytes(x.bytes()) == x by {
        x.lemma_bytes_then_of();
    }
}

/// The slots lie behind the header, one after the other.
proof fn lemma_slots_apart(n: int)
    requires
        0 <= n,
    ensures
        slot_at(0, n) == HEADER_BYTES,
        slot_at(1, n) == HEADER_BYTES + stride(n),
        slot_at(2, n) == HEADER_BYTES + 2 * stride(n),
        stride(n) >= SLOT_HEADER + n,
        forall|i: int|
            0 <= i ==> #[trigger] slot_at(i, n) == slot_at(0, n) || slot_at(i, n) == slot_at(1, n)
                || slot_at(i, n) == slot_at(2, n),
{
    let s = stride(n);
    assert(0int % 3 * s == 0 && 1int % 3 * s == s && 2int % 3 * s == 2 * s) by (nonlinear_arith);
    assert forall|i: int| 0 <= i implies #[trigger] slot_at(i, n) == slot_at(0, n) || slot_at(i, n)
        == slot_at(1, n) || slot_at(i, n) == slot_at(2, n) by {
        let k = i % 3;
        assert(k == 0 || k == 1 || k == 2);
        assert(k * s == (if k == 0 {
            0
        } else if k == 1 {
            s
        } else {
            2 * s
        })) by (nonlinear_arith)
            requires
                k == 0 || k == 1 || k == 2,
        ;
    }
}

/// No slot is being written.
pub open spec fn all_complete(mem: Seq<u8>, n: int) -> bool {
    &&& u64_at(mem, slot_at(0, n)) % 2 == 0
    &&& u64_at(mem, slot_at(1, n)) % 2 == 0
    &&& u64_at(mem, slot_at(2, n)) % 2 == 0
}

#[verifier::spinoff_prover]
#[verifier::rlimit(50)]
proof fn lemma_initialised(mem: Seq<u8>, w: u32, h: u32, pid: u32)
    requires
        accepts(mem.len(), w, h),
        nv12_len(w as int, h as int) <= u64::MAX,
    ensures
        ({
            let n = nv12_len(w as int, h as int);
            let m = initialised(mem, w, h, pid);
            &&& m.len() == mem.len()
            &&& header_at(m) == header_for(w, h)
            &&& u64_at(m, O_WRITE_INDEX as int) == 0
            &&& u32_at(m, O_STATE as int) == STATE_NO_SOURCE
            &&& u32_at(m, O_PID as int) == pid
            &&& u32_at(m, O_ORIENTATION as int) == 0
            &&& all_complete(m, n)
        }),
{
    broadcast use group_store;

    reveal(initialised);
    let n = nv12_len(w as int, h as int);
    assert(0 <= w * h) by (nonlinear_arith)
        requires
            0 <= w,
            0 <= h,
    ;
    lemma_number_widths();
    lemma_slots_apart(n);
}

/// What the header of a ring for frames of this size says of its slots.
proof fn lemma_header_of(mem: Seq<u8>, w: u32, h: u32)
    requires
        accepts(mem.len(), w, h),
        nv12_len(w as int, h as int) <= u64::MAX,
        header_at(mem) == header_for(w, h),
    ensures
        u64_at(mem, O_SLOT_BYTES as int) == nv12_len(w as int, h as int),
        w <= MAX_WIDTH && h <= MAX_HEIGHT ==> header_ok(header_at(mem), mem.len()),
        0 <= nv12_len(w as int, h as int),
{
    assert(0 <= w * h) by (nonlinear_arith)
        requires
            0 <= w,
            0 <= h,
    ;
    assert(header_at(mem).slot_bytes == u64_at(mem, O_SLOT_BYTES as int));
}

/// A heartbeat, or another state, changes nothing else that readers see.
proof fn lemma_beat_and_state(mem: Seq<u8>, n: int, now_ms: u64, state: u32)
    requires
        0 <= n,
        ring_len(n) <= mem.len(),
        u64_at(mem, O_SLOT_BYTES as int) == n,
    ensures
        ({
            let a = store(mem, O_HEARTBEAT as int, now_ms.bytes());
            let b = store(mem, O_STATE as int, state.bytes());
            &&& same_frames(mem, a) && same_frames(mem, b)
            &&& all_complete(mem, n) ==> all_complete(a, n) && all_complete(b, n)
            &&& u64_at(a, O_HEARTBEAT as int) == now_ms
            &&& u32_at(a, O_STATE as int) == u32_at(mem, O_STATE as int)
            &&& u32_at(b, O_STATE as int) == state
            &&& u64_at(b, O_HEARTBEAT as int) == u64_at(mem, O_HEARTBEAT as int)
        }),
{
    broadcast use group_store;

    lemma_number_widths();
    lemma_slots_apart(n);
    lemma_slot_fits(u64_at(mem, O_WRITE_INDEX as int) as int, n);
}

/// A new ring has a header that readers accept, and no frame.
pub proof fn law_new_ring_is_valid_and_empty(mem: Seq<u8>, w: u32, h: u32, pid: u32)
    requires
        accepts(mem.len(), w, h),
        w <= MAX_WIDTH,
        h <= MAX_HEIGHT,
    ensures
        ({
            let n = nv12_len(w as int, h as int);
            let m = initialised(mem, w, h, pid);
            &&& m.len() == mem.len()
            &&& header_ok(header_at(m), m.len())
            &&& header_at(m).width == w && header_at(m).height == h
            &&& header_at(m).slot_bytes == n
            &&& u64_at(m, O_WRITE_INDEX as int) == 0
            &&& u32_at(m, 40) == pid
            &&& u32_at(m, 56) == 0 && u32_at(m, 60) == 0
            &&& all_complete(m, n)
            &&& n >= 0 ==> found(m, n as nat) == Err::<Frame, ReadError>(ReadError::Empty)
        }),
{
    assert(0 <= w * h <= 1920 * 1080) by (nonlinear_arith)
        requires
            0 <= w <= 1920,
            0 <= h <= 1080,
    ;
    lemma_initialised(mem, w, h, pid);
    lemma_header_of(initialised(mem, w, h, pid), w, h);
}

/// Bytes that publishing does not touch.
proof fn lemma_published_elsewhere(
    mem: Seq<u8>,
    n: int,
    pixels: Seq<u8>,
    pts: i64,
    now_ms: u64,
    from: int,
    to: int,
)
    requires
        0 <= n,
        ring_len(n) <= mem.len(),
        pixels.len() == n,
        0 <= from <= to <= mem.len(),
        to <= next_slot(mem, n) || next_slot(mem, n) + SLOT_HEADER + n <= from,
        to <= O_WRITE_INDEX || O_WRITE_INDEX + 8 <= from,
        to <= O_HEARTBEAT || O_HEARTBEAT + 8 <= from,
    ensures
        published(mem, n, pixels, pts, now_ms).subrange(from, to) == mem.subrange(from, to),
        published(mem, n, pixels, pts, now_ms).len() == mem.len(),
{
    broadcast use group_store;

    lemma_number_widths();
    lemma_slot_fits(wrap_next(u64_at(mem, O_WRITE_INDEX as int)) as int, n);
}

/// What publishing puts in its slot and in the header.
#[verifier::spinoff_prover]
pub proof fn lemma_published_slot(mem: Seq<u8>, n: int, pixels: Seq<u8>, pts: i64, now_ms: u64)
    requires
        0 <= n,
        ring_len(n) <= mem.len(),
        pixels.len() == n,
    ensures
        ({
            let off = next_slot(mem, n);
            let m = published(mem, n, pixels, pts, now_ms);
            &&& m.len() == mem.len()
            &&& u64_at(m, off) == wrap_next(wrap_next(u64_at(mem, off)))
            &&& m.subrange(off + 8, off + 16) == pts.bytes()
            &&& m.subrange(off + SLOT_HEADER, off + SLOT_HEADER + n) == pixels
            &&& u64_at(m, O_WRITE_INDEX as int) == wrap_next(u64_at(mem, O_WRITE_INDEX as int))
            &&& u64_at(m, O_HEARTBEAT as int) == now_ms
        }),
{
    broadcast use group_store;

    lemma_number_widths();
    lemma_slot_fits(wrap_next(u64_at(mem, O_WRITE_INDEX as int)) as int, n);
}

/// Publishing keeps the header, the state and the orientation.
#[verifier::spinoff_prover]
proof fn lemma_published_header(mem: Seq<u8>, n: int, pixels: Seq<u8>, pts: i64, now_ms: u64)
    requires
        n == pixels.len(),
        ring_len(n) <= mem.len(),
    ensures
        ({
            let m = published(mem, n, pixels, pts, now_ms);
            &&& header_at(m) == header_at(mem)
            &&& u32_at(m, O_STATE as int) == u32_at(mem, O_STATE as int)
            &&& u32_at(m, O_ORIENTATION as int) == u32_at(mem, O_ORIENTATION as int)
        }),
{
    lemma_slots_apart(n);
    lemma_published_elsewhere(mem, n, pixels, pts, now_ms, 0, 4);
    lemma_published_elsewhere(mem, n, pixels, pts, now_ms, 4, 8);
    lemma_published_elsewhere(mem, n, pixels, pts, now_ms, 8, 12);
    lemma_published_elsewhere(mem, n, pixels, pts, now_ms, 12, 16);
    lemma_published_elsewhere(mem, n, pixels, pts, now_ms, 16, 20);
    lemma_published_elsewhere(mem, n, pixels, pts, now_ms, 20, 24);
    lemma_published_elsewhere(mem, n, pixels, pts, now_ms, 24, 28);
    lemma_published_elsewhere(mem, n, pixels, pts, now_ms, 28, 32);
    lemma_published_elsewhere(mem, n, pixels, pts, now_ms, 56, 60);
    lemma_published_elsewhere(mem, n, pixels, pts, now_ms, 60, 64);
    lemma_published_elsewhere(mem, n, pixels, pts, now_ms, 64, 72);
}

/// Publishing leaves no slot half-written.
#[verifier::spinoff_prover]
proof fn lemma_published_complete(mem: Seq<u8>, n: int, pixels: Seq<u8>, pts: i64, now_ms: u64)
    requires
        n == pixels.len(),
        ring_len(n) <= mem.len(),
        all_complete(mem, n),
    ensures
        all_complete(published(mem, n, pixels, pts, now_ms), n),
        u64_at(mem, next_slot(mem, n)) % 2 == 0,
{
    let m = published(mem, n, pixels, pts, now_ms);
    let off = next_slot(mem, n);
    lemma_slots_apart(n);
    lemma_slot_fits(wrap_next(u64_at(mem, O_WRITE_INDEX as int)) as int, n);
    lemma_published_slot(mem, n, pixels, pts, now_ms);
    assert(off == slot_at(0, n) || off == slot_at(1, n) || off == slot_at(2, n));
    let a = slot_at(0, n);
    let b = slot_at(1, n);
    let c = slot_at(2, n);
    if off != a {
        lemma_published_elsewhere(mem, n, pixels, pts, now_ms, a, a + 8);
    }
    if off != b {
        lemma_published_elsewhere(mem, n, pixels, pts, now_ms, b, b + 8);
    }
    if off != c {
        lemma_published_elsewhere(mem, n, pixels, pts, now_ms, c, c + 8);
    }
    assert(u64_at(mem, off) % 2 == 0);
    assert(u64_at(m, off) % 2 == 0);
}

/// A frame that is published reads back, and no slot is left half-written.
#[verifier::spinoff_prover]
proof fn lemma_published(mem: Seq<u8>, pixels: Seq<u8>, pts: i64, now_ms: u64)
    requires
        u64_at(mem, O_SLOT_BYTES as int) == pixels.len(),
        ring_len(pixels.len() as int) <= mem.len(),
        all_complete(mem, pixels.len() as int),
        header_at(mem).width <= MAX_WIDTH && header_at(mem).height <= MAX_HEIGHT ==> header_ok(
            header_at(mem),
            mem.len(),
        ),
    ensures
        ({
            let m = published(mem, pixels.len() as int, pixels, pts, now_ms);
            &&& all_complete(m, pixels.len() as int)
            &&& reads_back(mem, m, pixels, pts, now_ms)
        }),
{
    let n = pixels.len() as int;
    let m = published(mem, n, pixels, pts, now_ms);
    pts.lemma_bytes_then_of();
    lemma_published_header(mem, n, pixels, pts, now_ms);
    lemma_published_complete(mem, n, pixels, pts, now_ms);
    lemma_published_slot(mem, n, pixels, pts, now_ms);
    assert(u64_at(m, O_SLOT_BYTES as int) == header_at(m).slot_bytes);
    lemma_slots_apart(n);
    lemma_slot_fits(wrap_next(u64_at(mem, O_WRITE_INDEX as int)) as int, n);
    assert(u64_at(m, next_slot(mem, n)) % 2 == 0) by {
        assert(u64_at(m, next_slot(mem, n)) == wrap_next(wrap_next(u64_at(mem, next_slot(mem, n)))));
    }
}

/// A frame that was published is what a reader finds next: its index is one more, and its time
/// stamp and pixels are those that were written. The header and the state stay as they were.
pub proof fn law_published_frame_reads_back(mem: Seq<u8>, pixels: Seq<u8>, pts: i64, now_ms: u64)
    requires
        header_ok(header_at(mem), mem.len()),
        pixels.len() == u64_at(mem, O_SLOT_BYTES as int),
        all_complete(mem, pixels.len() as int),
        u64_at(mem, O_WRITE_INDEX as int) < u64::MAX,
    ensures
        ({
            let n = pixels.len() as int;
            let m = published(mem, n, pixels, pts, now_ms);
            &&& m.len() == mem.len()
            &&& header_at(m) == header_at(mem)
            &&& u32_at(m, O_STATE as int) == u32_at(mem, O_STATE as int)
            &&& all_complete(m, n)
            &&& found(m, pixels.len()) == Ok::<Frame, ReadError>(
                Frame {
                    index: (u64_at(mem, O_WRITE_INDEX as int) + 1) as u64,
                    pts_100ns: pts,
                },
            )
            &&& pixels_at(m) == pixels
            &&& u64_at(m, O_HEARTBEAT as int) == now_ms
        }),
{
    lemma_published(mem, pixels, pts, now_ms);
}

/// A writer's ring, which all that it does keeps up, has a header that readers accept, up to the largest frames that
/// they take. The header tells the writer's format.
pub proof fn law_a_writers_ring_is_valid(mem: Seq<u8>, fmt: Format)
    requires
        holds_ring(mem, fmt),
        fmt.width <= MAX_WIDTH,
        fmt.height <= MAX_HEIGHT,
    ensures
        header_ok(header_at(mem), mem.len()),
        header_at(mem).width == fmt.width,
        header_at(mem).height == fmt.height,
        header_at(mem).slot_bytes == fmt.slot_bytes,
        all_complete(mem, fmt.slot_bytes as int),
{
    lemma_header_of(mem, fmt.width, fmt.height);
}

/// A header that passed keeps every read inside the mapping, whatever the write index says.
pub proof fn law_valid_header_keeps_reads_inside(h: RawHeader, len: nat, index: u64)
    requires
        header_ok(h, len),
    ensures
        HEADER_BYTES <= slot_at(index as int, h.slot_bytes as int),
        slot_at(index as int, h.slot_bytes as int) + SLOT_HEADER + h.slot_bytes <= len,
{
    lemma_slot_fits(index as int, h.slot_bytes as int);
}

// ---- Readers beside a writer -------------------------------------------------------------------

/// The part of the memory that belongs to one slot.
#[verifier::ext_equal]
pub struct SlotView {
    pub seq: nat,
    pub content: Seq<u8>,
}

/// One moment of a slot and the next, while a writer is at work: either `seq` goes up by one, and
/// what the slot holds stays; or `seq` stays, and what the slot holds may change only while `seq`
/// is odd.
pub open spec fn slot_moves(a: SlotView, b: SlotView) -> bool {
    ||| b.seq == a.seq + 1 && b.content == a.content
    ||| b.seq == a.seq && (b.content == a.content || a.seq % 2 == 1)
}

/// The moments of a slot, in order.
pub open spec fn history(h: Seq<SlotView>) -> bool {
    forall|i: int| 0 <= i < h.len() - 1 ==> slot_moves(#[trigger] h[i], h[i + 1])
}

/// The slot at `off`, with its time stamp and `n` bytes of pixels.
pub open spec fn slot_of(mem: Seq<u8>, off: int, n: int) -> SlotView {
    SlotView {
        seq: u64_at(mem, off) as nat,
        content: mem.subrange(off + 8, off + SLOT_HEADER + n),
    }
}

proof fn lemma_seq_grows(h: Seq<SlotView>, i: int, j: int)
    requires
        history(h),
        0 <= i <= j < h.len(),
    ensures
        h[i].seq <= h[j].seq,
    decreases j - i,
{
    if i < j {
        lemma_seq_grows(h, i, j - 1);
        assert(slot_moves(h[j - 1], h[j - 1 + 1]));
    }
}

/// A reader that sees the same even `seq` before and after copying has copied one whole frame:
/// at no moment in between did the slot hold anything else.
pub proof fn law_unchanged_seq_means_an_untorn_copy(h: Seq<SlotView>, before: int, after: int)
    requires
        history(h),
        0 <= before <= after < h.len(),
        h[before].seq % 2 == 0,
        h[before].seq == h[after].seq,
    ensures
        forall|i: int|
            before <= i <= after ==> (#[trigger] h[i]).content == h[before].content && h[i].seq
                == h[before].seq,
    decreases after - before,
{
    if before < after {
        lemma_seq_grows(h, before, after - 1);
        lemma_seq_grows(h, after - 1, after);
        law_unchanged_seq_means_an_untorn_copy(h, before, after - 1);
        assert(slot_moves(h[after - 1], h[after - 1 + 1]));
    }
}

/// Byte `k` of a copy was read at some moment from `before` to `after`.
pub open spec fn seen(h: Seq<SlotView>, before: int, after: int, k: int, byte: u8) -> bool {
    exists|t: int| before <= t <= after && k < (#[trigger] h[t]).content.len() && h[t].content[k] == byte
}

/// `copy` was read byte by byte, each at some moment from `before` to `after`, while the slot may have changed.
pub open spec fn copied(h: Seq<SlotView>, before: int, after: int, copy: Seq<u8>) -> bool {
    &&& copy.len() == h[before].content.len()
    &&& forall|k: int| 0 <= k < copy.len() ==> #[trigger] seen(h, before, after, k, copy[k])
}

/// Whenever the slot is not being written to, it holds the frame of its last write; `frames` gives the time stamp and
/// the pixels of each write.
pub open spec fn holds_writes(h: Seq<SlotView>, frames: spec_fn(nat) -> (i64, Seq<u8>)) -> bool {
    forall|i: int|
        0 <= i < h.len() && (#[trigger] h[i]).seq % 2 == 0 && h[i].seq > 0 ==> {
            let (pts, pixels) = frames((h[i].seq / 2) as nat);
            h[i].content == pts.bytes() + pixels
        }
}

/// Readers never return a torn frame: of a copy, made byte by byte while a writer may be at work, `Copying::finish`
/// accepts only one whose time stamp and pixels are those of one single write, the one that the slot's `seq` stood for
/// when the copy began. `finish` says `Torn` of any other.
pub proof fn law_an_accepted_copy_is_one_frame(
    h: Seq<SlotView>,
    frames: spec_fn(nat) -> (i64, Seq<u8>),
    before: int,
    after: int,
    c: Copying,
    seq: u64,
    pts: i64,
    out: Seq<u8>,
)
    requires
        history(h),
        holds_writes(h, frames),
        0 <= before <= after < h.len(),
        h[before].seq == c.seq > 0,
        h[after].seq == seq,
        copied(h, before, after, pts.bytes() + out),
    ensures
        match finish_of(c, seq, pts) {
            Ok(f) => {
                let write = frames((c.seq / 2) as nat);
                f == (Frame { index: c.index, pts_100ns: write.0 }) && out == write.1
            },
            Err(e) => e == ReadError::Torn && (c.seq % 2 == 1 || seq != c.seq),
        },
{
    if finish_of(c, seq, pts) is Ok {
        let copy = pts.bytes() + out;
        let write = frames((c.seq / 2) as nat);
        law_unchanged_seq_means_an_untorn_copy(h, before, after);
        assert forall|k: int| 0 <= k < copy.len() implies copy[k] == h[before].content[k] by {
            assert(seen(h, before, after, k, copy[k]));
        }
        assert(copy =~= write.0.bytes() + write.1);
        lemma_number_widths();
        pts.lemma_bytes_then_of();
        write.0.lemma_bytes_then_of();
        assert(pts.bytes() =~= copy.take(8));
        assert(write.0.bytes() =~= copy.take(8));
        assert(out =~= copy.skip(8));
        assert(write.1 =~= copy.skip(8));
    }
}

/// Each step of publishing a frame moves its slot like that: the marks at the beginning and at
/// the end count up, and time stamp and pixels are written in between, while `seq` is odd. At the end the slot holds
/// the frame.
pub proof fn law_publishing_moves_a_slot_in_order(
    mem: Seq<u8>,
    off: int,
    n: int,
    pts: i64,
    pixels: Seq<u8>,
    now_ms: u64,
)
    requires
        0 <= n == pixels.len(),
        HEADER_BYTES <= off,
        off + SLOT_HEADER + n <= mem.len(),
        u64_at(mem, off) % 2 == 0,
        u64_at(mem, off) < u64::MAX - 1,
    ensures
        ({
            let m1 = begun(mem, off);
            let m2 = filled(m1, off, pts, pixels);
            let m3 = finished(m2, off, now_ms);
            &&& slot_moves(slot_of(mem, off, n), slot_of(m1, off, n))
            &&& slot_moves(slot_of(m1, off, n), slot_of(m2, off, n))
            &&& slot_moves(slot_of(m2, off, n), slot_of(m3, off, n))
            &&& u64_at(m3, off) == u64_at(mem, off) + 2
            &&& slot_of(m3, off, n).content == pts.bytes() + pixels
        }),
{
    broadcast use group_store;

    lemma_number_widths();
}

// ---- Pixel formats consumers ask for -----------------------------------------------------------

/// Pixels in NV12 as YUY2: each pixel's brightness, followed by its block's U (even column) or V
/// (odd column).
pub open spec fn nv12_as_yuy2(nv12: Seq<u8>, w: int, h: int) -> Seq<u8> {
    Seq::new(
        (w * h * 2) as nat,
        |i: int|
            if i % 2 == 0 {
                nv12[i / 2]
            } else {
                nv12[w * h + i / 2 / w / 2 * w + i / 2 % w]
            },
    )
}

/// NV12 -> YUY2 (packed 4:2:2, what many DirectShow consumers prefer). `out` is w*h*2 bytes. False,
/// and nothing written, if a size is wrong.
pub fn nv12_to_yuy2(nv12: &[u8], w: usize, h: usize, out: &mut [u8]) -> (r: bool)
    requires
        w * h * 3 <= usize::MAX,
    ensures
        r == (nv12@.len() == nv12_len(w as int, h as int) && old(out)@.len() == w * h * 2 && w % 2
            == 0 && h % 2 == 0),
        final(out)@ == (if r {
            nv12_as_yuy2(nv12@, w as int, h as int)
        } else {
            old(out)@
        }),
{
    assert(0 <= w * h <= w * h * 3) by (nonlinear_arith)
        requires
            w >= 0,
            h >= 0,
    ;
    let n: usize = w * h;
    if nv12.len() != n * 3 / 2 || out.len() != n * 2 || w % 2 == 1 || h % 2 == 1 {
        return false;
    }
    let ghost want = nv12_as_yuy2(nv12@, w as int, h as int);
    let ghost before = out@;
    let mut p: usize = 0;
    let mut row: usize = 0;
    let mut x: usize = 0;
    assert(want.take(0) + before.skip(0) =~= before);
    while p < n
        invariant
            n == w * h,
            w % 2 == 0,
            h % 2 == 0,
            n * 3 <= usize::MAX,
            nv12@.len() == n * 3 / 2,
            out@.len() == n * 2,
            before.len() == n * 2,
            p <= n,
            p == row * w + x,
            p < n ==> x < w && row < h,
            p == n ==> x == 0,
            want == nv12_as_yuy2(nv12@, w as int, h as int),
            out@ == want.take(2 * p) + before.skip(2 * p),
        decreases n - p,
    {
        let uv: usize = n + chroma_offset(row, x, w, h);
        proof {
            vstd::arithmetic::div_mod::lemma_fundamental_div_mod_converse(
                p as int,
                w as int,
                row as int,
                x as int,
            );
        }
        let luma: u8 = nv12[p];
        let chroma: u8 = nv12[uv];
        proof {
            assert(2 * p / 2 == p && (2 * p + 1) / 2 == p);
            assert(want[2 * p as int] == luma);
            assert(want[2 * p as int + 1] == chroma);
        }
        out[2 * p] = luma;
        out[2 * p + 1] = chroma;
        assert(out@ =~= want.take(2 * (p + 1)) + before.skip(2 * (p + 1)));
        p = p + 1;
        x = x + 1;
        if x == w {
            proof {
                assert(row * w + w == (row + 1) * w) by (nonlinear_arith);
            }
            x = 0;
            row = row + 1;
        }
        proof {
            lemma_row_in_range(row as int, x as int, w as int, h as int);
        }
    }
    assert(want.take(2 * n) + before.skip(2 * n) =~= want);
    true
}

/// A position before the end lies in a row before the last one's end.
proof fn lemma_row_in_range(row: int, x: int, w: int, h: int)
    requires
        0 <= x,
        0 <= row,
        0 < w,
        row * w + x <= w * h,
        x < w,
    ensures
        row * w + x < w * h ==> row < h,
        row * w + x == w * h ==> x == 0,
{
    if row >= h {
        assert(row * w >= w * h) by (nonlinear_arith)
            requires
                row >= h,
                w > 0,
        ;
    } else {
        assert(row * w + w <= w * h) by (nonlinear_arith)
            requires
                row + 1 <= h,
                w > 0,
        ;
    }
}

/// Where the chroma byte of a pixel stands in its plane.
fn chroma_offset(row: usize, x: usize, w: usize, h: usize) -> (r: usize)
    requires
        x < w,
        row < h,
        w * h <= usize::MAX,
        w % 2 == 0,
        h % 2 == 0,
    ensures
        r == row as int / 2 * w + x,
        r < w * h / 2,
{
    let half: usize = row / 2;
    proof {
        let a = half as int;
        let b = h as int / 2;
        assert(a < b);
        assert(a * w + w <= b * w) by (nonlinear_arith)
            requires
                a + 1 <= b,
                w >= 0,
        ;
        assert(b * w * 2 == w * h) by (nonlinear_arith)
            requires
                h == 2 * b,
        ;
    }
    half * w + x
}

/// A frame of one colour: `w * h` bytes of brightness, as far as they fit, then U and V by turns.
/// A last byte without a partner stays as it is.
pub open spec fn flat_nv12(old_out: Seq<u8>, n: int, y: u8, u: u8, v: u8) -> Seq<u8> {
    let luma = if n < old_out.len() {
        n
    } else {
        old_out.len() as int
    };
    Seq::new(
        old_out.len(),
        |i: int|
            if i < luma {
                y
            } else if (i - luma) % 2 == 1 {
                v
            } else if i + 1 < old_out.len() {
                u
            } else {
                old_out[i]
            },
    )
}

/// NV12 frame of one flat colour (limited range), for readers' placeholder backgrounds.
pub fn fill_nv12(out: &mut [u8], w: usize, h: usize, y: u8, u: u8, v: u8)
    requires
        w * h <= usize::MAX,
    ensures
        final(out)@ == flat_nv12(old(out)@, w * h, y, u, v),
{
    assert(0 <= w * h) by (nonlinear_arith)
        requires
            w >= 0,
            h >= 0,
    ;
    let n: usize = w * h;
    let len: usize = out.len();
    let luma: usize = if n < len {
        n
    } else {
        len
    };
    let ghost before = out@;
    let ghost want = flat_nv12(before, n as int, y, u, v);
    let mut i: usize = 0;
    assert(want.take(0) + before.skip(0) =~= before);
    while i < len
        invariant
            n == w * h,
            len == before.len(),
            out@.len() == len,
            luma == (if n < len {
                n
            } else {
                len
            }),
            i <= len,
            want == flat_nv12(before, n as int, y, u, v),
            out@ == want.take(i as int) + before.skip(i as int),
        decreases len - i,
    {
        if i < luma {
            out[i] = y;
        } else if (i - luma) % 2 == 1 {
            out[i] = v;
        } else if len - i > 1 {
            out[i] = u;
        }
        i = i + 1;
        assert(out@ =~= want.take(i as int) + before.skip(i as int));
    }
    assert(want.take(len as int) + before.skip(len as int) =~= want);
}

} // verus!
