//! The ring of frames, byte by byte: where a frame lies, and what a reader makes of a header.
use vstd::prelude::*;

use crate::framebuf::{
    found, header_at, header_ok, lemma_published_slot, pixels_at, published, slot_at, stride, u32_at, u64_at,
    Frame, RawHeader, ReadError,
};
use crate::le::Le;
use crate::wire::layout_laws::{eight, law_numbers_stand_low_byte_first};

verus! {

/// The bytes from one slot to the next: sixteen of header, then the pixels, up to a multiple of sixty-four.
pub open spec fn is_step(step: int, n: int) -> bool {
    step % 64 == 0 && 16 + n <= step < 16 + n + 64
}

/// A frame that is published, the first, second, third and so on, lies in one of three slots by turns: behind 4096
/// bytes of header each has an even count of its writes, the time stamp, and the pixels as they are. Readers are
/// pointed to it by the number at 32; the writer's time stands at 48.
pub proof fn law_a_published_frame_lies_in_its_slot(
    mem: Seq<u8>,
    pixels: Seq<u8>,
    pts: i64,
    now_ms: u64,
    step: int,
)
    requires
        is_step(step, pixels.len() as int),
        4096 + 3 * step <= mem.len(),
        u64_at(mem, 32) < u64::MAX,
    ensures
        ({
            let m = published(mem, pixels.len() as int, pixels, pts, now_ms);
            let index = u64_at(mem, 32) + 1;
            let off = 4096 + index % 3 * step;
            &&& m.len() == mem.len()
            &&& m.subrange(off + 16, off + 16 + pixels.len()) == pixels
            &&& m.subrange(off + 8, off + 16) == eight(pts as int)
            &&& u64_at(mem, off) < u64::MAX - 1 ==> u64_at(m, off) == u64_at(mem, off) + 2
            &&& u64_at(m, 32) == index
            &&& u64_at(m, 48) == now_ms
        }),
{
    let n = pixels.len() as int;
    assert(stride(n) == step);
    lemma_published_slot(mem, n, pixels, pts, now_ms);
    law_numbers_stand_low_byte_first(0, 0, 0, 0, 0, pts);
}

/// The numbers of a ring's header stand at fixed places, low bytes first.
pub proof fn law_where_the_headers_numbers_stand(mem: Seq<u8>)
    ensures
        header_at(mem) == (RawHeader {
            magic: u32_at(mem, 0),
            version: u32_at(mem, 4),
            slots: u32_at(mem, 8),
            width: u32_at(mem, 12),
            height: u32_at(mem, 16),
            format: u32_at(mem, 20),
            stride_y: u32_at(mem, 24),
            stride_uv: u32_at(mem, 28),
            slot_bytes: u64_at(mem, 64),
        }),
{
}

/// Four bytes in a ring are a number, the lowest byte first.
pub proof fn law_a_number_in_the_ring(mem: Seq<u8>, off: int)
    requires
        0 <= off,
        off + 4 <= mem.len(),
    ensures
        u32_at(mem, off) == mem[off] + 256 * mem[off + 1] + 65536 * mem[off + 2] + 16777216 * mem[off + 3],
{
    reveal_with_fuel(crate::le::le_nat, 5);
    let s = mem.subrange(off, off + 4);
    assert(s.skip(1).skip(1) =~= s.skip(2));
    assert(s.skip(2).skip(1) =~= s.skip(3));
    assert(s.skip(3).skip(1) =~= s.skip(4));
    assert(crate::le::le_nat(s.skip(4)) == 0);
    assert(crate::le::le_nat(s.skip(3)) == s[3] as nat);
    assert(crate::le::le_nat(s.skip(2)) == s[2] as nat + 256 * s[3] as nat);
    assert(crate::le::le_nat(s.skip(1)) == s[1] as nat + 256 * (s[2] as nat + 256 * s[3] as nat));
}

/// A header is accepted where it is that of a ring: 'LNYF', version 1, three slots of NV12 without padding, not empty
/// and at most 1920 by 1080, with as many bytes to a slot as the pixels take, and all of it inside the mapping.
pub proof fn law_which_headers_are_accepted(h: RawHeader, len: nat, step: int)
    requires
        is_step(step, h.slot_bytes as int),
    ensures
        header_ok(h, len) <==> {
            &&& h.magic == 0x4C + 256 * 0x4E + 65536 * 0x59 + 16777216 * 0x46
            &&& h.version == 1
            &&& h.slots == 3
            &&& h.format == 0x4E + 256 * 0x56 + 65536 * 0x31 + 16777216 * 0x32
            &&& 1 <= h.width <= 1920
            &&& 1 <= h.height <= 1080
            &&& h.stride_y == h.width && h.stride_uv == h.width
            &&& 2 * h.slot_bytes <= 3 * (h.width * h.height) < 2 * h.slot_bytes + 2
            &&& 4096 + 3 * step <= len
        },
{
    assert(stride(h.slot_bytes as int) == step);
    let a = h.width * h.height;
    assert(h.width * h.height * 3 == 3 * a) by (nonlinear_arith)
        requires
            a == h.width * h.height,
    ;
    assert(0 <= a) by (nonlinear_arith)
        requires
            a == h.width * h.height,
    ;
}

/// What a reader finds: nothing in a ring that is none (Invalid), for a buffer of another size (BadOutput), before the
/// first frame (Empty) or while its slot is being written (Torn); else the newest frame, with its number, its time
/// stamp, and its pixels.
pub proof fn law_what_a_reader_finds(mem: Seq<u8>, out_len: nat, step: int)
    requires
        header_ok(header_at(mem), mem.len()),
        is_step(step, header_at(mem).slot_bytes as int),
    ensures
        ({
            let n = header_at(mem).slot_bytes as int;
            let index = u64_at(mem, 32);
            let off = 4096 + index % 3 * step;
            let r = found(mem, out_len);
            &&& out_len != n ==> r == Err::<Frame, ReadError>(ReadError::BadOutput)
            &&& out_len == n && index == 0 ==> r == Err::<Frame, ReadError>(ReadError::Empty)
            &&& out_len == n && index > 0 && u64_at(mem, off) % 2 == 1 ==> r == Err::<Frame, ReadError>(ReadError::Torn)
            &&& out_len == n && index > 0 && u64_at(mem, off) % 2 == 0 ==> (r matches Ok(f) && f.index == index
                && f.pts_100ns.bytes() == mem.subrange(off + 8, off + 16) && pixels_at(mem) == mem.subrange(
                off + 16,
                off + 16 + n,
            ))
        }),
{
    let n = header_at(mem).slot_bytes as int;
    assert(stride(n) == step);
    let index = u64_at(mem, 32) as int;
    let off = slot_at(index, n);
    assert(off + 16 <= mem.len()) by (nonlinear_arith)
        requires
            off == 4096 + index % 3 * step,
            4096 + 3 * step <= mem.len(),
            0 <= n,
            16 + n <= step,
            0 <= index,
    ;
    assert(off >= 4096) by (nonlinear_arith)
        requires
            off == 4096 + index % 3 * step,
            0 <= step,
            0 <= index,
    ;
    i64::lemma_of_then_bytes(mem.subrange(off + 8, off + 16));
}

} // verus!
