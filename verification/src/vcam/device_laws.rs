//! What holds of the cameras: the bytes that they send, the states that they pass through, and the page with words.
use vstd::arithmetic::div_mod::lemma_fundamental_div_mod_converse;
use vstd::prelude::*;

use crate::framebuf::{flat_nv12, i420_as_nv12, nv12_as_yuy2};
use crate::vcam::filter::{
    format_set, granted, name_in_room, order_of, paced, paused, running, sample_of, stopped, stream_time, wanted,
    AllocatorProperties, Enumerator, Filter, Refusal, Running,
};
use crate::vcam::frame::page_of;
use crate::vcam::frames::{good_after, ring_is_live, show_of, Frames, Show};
use crate::vcam::letters::{dot, is_ink, left_of, letter, letters_of, scale_of, top_of};
use crate::vcam::media::{format_at, matched, other_of, MediaType, Pixel};
use crate::vcam::mf::{delivers, started, stopped as mf_stopped, turn_of, Source};
use crate::vcam::null::NullVirtualCamera;
use crate::vcam::server::{class_with, Class};
use crate::vcam::{is_fresh, FrameFormat};

verus! {

// ---- Bytes -------------------------------------------------------------------------------------

/// In NV12 the brightness stands as in I420, and behind it the two colours of each block by turns, U first.
pub proof fn law_nv12_has_the_colours_by_turns(s: Seq<u8>, w: int, h: int, i: int)
    requires
        0 < w,
        0 < h,
        w % 2 == 0,
        h % 2 == 0,
        s.len() == w * h + 2 * ((w / 2) * (h / 2)),
    ensures
        ({
            let q = (w / 2) * (h / 2);
            let out = i420_as_nv12(s, w, h);
            &&& out.len() == s.len()
            &&& 0 <= i < w * h ==> out[i] == s[i]
            &&& 0 <= i < q ==> out[w * h + 2 * i] == s[w * h + i] && out[w * h + 2 * i + 1] == s[w * h + q + i]
        }),
{
    let (a, b) = (w / 2, h / 2);
    assert(w * h == 4 * (a * b)) by (nonlinear_arith)
        requires
            w == 2 * a,
            h == 2 * b,
    ;
    assert(a * b > 0) by (nonlinear_arith)
        requires
            a > 0,
            b > 0,
    ;
}

/// In YUY2 each point has its brightness; the points at even columns have beside it the U of their block, the others
/// the V. Two rows share their colours.
pub proof fn law_yuy2_has_brightness_and_colour_by_turns(nv12: Seq<u8>, w: int, h: int, x: int, y: int)
    requires
        0 < w,
        0 < h,
        w % 2 == 0,
        h % 2 == 0,
        nv12.len() == w * h + w * (h / 2),
        0 <= x < w,
        0 <= y < h,
    ensures
        ({
            let out = nv12_as_yuy2(nv12, w, h);
            let at = 2 * (y * w + x);
            &&& out.len() == 2 * (w * h)
            &&& out[at] == nv12[y * w + x]
            &&& out[at + 1] == nv12[w * h + y / 2 * w + x]
        }),
{
    let k = y * w + x;
    lemma_fundamental_div_mod_converse(k, w, y, x);
    assert(0 <= k < w * h) by (nonlinear_arith)
        requires
            0 <= x < w,
            0 <= y,
            y + 1 <= h,
            k == y * w + x,
    ;
    assert((2 * k) / 2 == k && (2 * k + 1) / 2 == k && (2 * k) % 2 == 0 && (2 * k + 1) % 2 == 1);
    assert(w * h * 2 == 2 * (w * h)) by (nonlinear_arith);
}

/// A sample is the picture itself, or the same in YUY2.
pub proof fn law_a_sample_is_the_picture(picture: Seq<u8>)
    ensures
        sample_of(Pixel::Nv12, picture) == picture,
        sample_of(Pixel::Yuy2, picture) == nv12_as_yuy2(picture, 1280, 720),
{
}

/// A flat picture has one brightness and one colour everywhere.
pub proof fn law_a_flat_picture_is_flat(old_out: Seq<u8>, w: int, h: int, y: u8, u: u8, v: u8, i: int)
    requires
        0 < w,
        0 < h,
        w % 2 == 0,
        h % 2 == 0,
        old_out.len() == w * h + 2 * ((w / 2) * (h / 2)),
    ensures
        ({
            let out = flat_nv12(old_out, w * h, y, u, v);
            &&& out.len() == old_out.len()
            &&& 0 <= i < w * h ==> out[i] == y
            &&& 0 <= i < (w / 2) * (h / 2) ==> out[w * h + 2 * i] == u && out[w * h + 2 * i + 1] == v
        }),
{
    let q = (w / 2) * (h / 2);
    assert(q > 0 && w * h > 0) by (nonlinear_arith)
        requires
            w >= 2,
            h >= 2,
            q == (w / 2) * (h / 2),
    ;
}

// ---- The DirectShow filter ---------------------------------------------------------------------

/// Stop stops: no samples, no start time. Pause keeps or starts the samples of a connected filter and forgets the start
/// time. Run sets it, and starts the samples where nothing did. What the filter is connected to, and how, stays.
pub proof fn law_what_stop_pause_and_run_do(f: Filter, start: i64)
    ensures
        stopped(f).state == Running::Stopped && !stopped(f).streaming && stopped(f).run_start is None,
        stopped(f).pixel == f.pixel && stopped(f).connected == f.connected,
        paused(f).state == Running::Paused && paused(f).run_start is None && paused(f).pixel == f.pixel && paused(
            f,
        ).connected == f.connected,
        paused(f).streaming <==> f.streaming || (f.connected && f.state == Running::Stopped),
        running(f, start).state == Running::Running && running(f, start).run_start == Some(start) && running(
            f,
            start,
        ).pixel == f.pixel && running(f, start).connected == f.connected,
        running(f, start).streaming <==> f.streaming || (f.connected && f.state == Running::Stopped),
{
}

/// An enumerator gives as many as are asked for, and as there are.
pub proof fn law_an_enumerator_gives_what_there_is(e: Enumerator, count: u32)
    requires
        e.pos <= e.len,
    ensures
        0 <= granted(e, count) <= count,
        e.pos + granted(e, count) <= e.len,
        granted(e, count) == count || e.pos + granted(e, count) == e.len,
{
}

/// A media type is ours where each part of it is, or is left open: video, NV12 or YUY2, and a format block whose size,
/// where it gives one, is 1280 by 720, from top or from bottom.
pub proof fn law_which_types_are_ours(mt: MediaType)
    ensures
        ({
            let any = 0u128;
            let video = 0x7364_6976_0000_0010_8000_00AA_0038_9B71u128;
            let nv12 = 0x3231_564E_0000_0010_8000_00AA_0038_9B71u128;
            let yuy2 = 0x3259_5559_0000_0010_8000_00AA_0038_9B71u128;
            let info = 0x0558_9F80_C356_11CE_BF01_00AA_0055_595Au128;
            let sized = mt.video matches Some((w, h)) ==> w == 1280 && (h == 720 || h == -720);
            let fits = (mt.major == video || mt.major == any) && (mt.format == any || (mt.format == info && sized));
            &&& matched(mt) == Some(Pixel::Nv12) <==> fits && (mt.subtype == nv12 || mt.subtype == any)
            &&& matched(mt) == Some(Pixel::Yuy2) <==> fits && mt.subtype == yuy2
        }),
{
}

/// There are two formats, NV12 first, and each is the other of the other.
pub proof fn law_two_formats(p: Pixel, i: int)
    ensures
        format_at(0) == Some(Pixel::Nv12),
        format_at(1) == Some(Pixel::Yuy2),
        i < 0 || i > 1 ==> format_at(i) is None,
        other_of(p) != p,
        other_of(other_of(p)) == p,
{
}

/// The DLL makes the filter and the source, under their numbers, and nothing else.
pub proof fn law_two_classes(clsid: u128)
    ensures
        class_with(clsid) == Some(Class::Filter) <==> clsid == 0xBEEE_F45F_D1F1_4A35_8F7D_17E7_56BC_2046,
        class_with(clsid) == Some(Class::Source) <==> clsid == 0x5F0F_9024_D043_45C1_B2F6_03DA_B6CE_130A,
{
}

/// A sample's turn comes when it is due, or now where that has passed.
pub proof fn law_a_turn_comes_when_it_is_due(next: u64, now: u64)
    ensures
        turn_of(next, now) >= next,
        turn_of(next, now) >= now,
        turn_of(next, now) == next || turn_of(next, now) == now,
{
}

/// A pin is connected once, while the filter is stopped: with the format that it asks for, or else the filter's own and
/// then the other. A type that is not ours is refused.
pub proof fn law_how_a_pin_is_connected(f: Filter, mt: MediaType)
    ensures
        f.connected ==> order_of(f, Some(mt)) == Err::<(Pixel, Pixel), Refusal>(Refusal::AlreadyConnected),
        !f.connected && f.state != Running::Stopped ==> order_of(f, None) == Err::<(Pixel, Pixel), Refusal>(
            Refusal::NotStopped,
        ),
        !f.connected && f.state == Running::Stopped ==> {
            &&& order_of(f, None) matches Ok((a, b)) && a == f.pixel && b != f.pixel
            &&& matched(mt) matches Some(p) ==> order_of(f, Some(mt)) == Ok::<(Pixel, Pixel), Refusal>((p, p))
            &&& matched(mt) is None ==> order_of(f, Some(mt)) == Err::<(Pixel, Pixel), Refusal>(
                Refusal::NoAcceptableTypes,
            )
        },
{
}

/// A sample's time is the time since Run, not before zero.
pub proof fn law_a_samples_time(now: i64, start: i64)
    ensures
        now >= start ==> stream_time(now, start) == now - start,
        now < start ==> stream_time(now, start) == 0,
{
}

/// An allocator is asked for two buffers at least, each for a picture at least, and for what the other pin needs.
pub proof fn law_what_an_allocator_is_asked_for(r: AllocatorProperties, size: i32)
    ensures
        ({
            let w = wanted(r, size);
            &&& w.buffers >= 2 && w.buffers >= r.buffers && (w.buffers == 2 || w.buffers == r.buffers)
            &&& w.buffer_bytes >= size && w.buffer_bytes >= r.buffer_bytes && (w.buffer_bytes == size || w.buffer_bytes
                == r.buffer_bytes)
            &&& w.align >= 1 && w.align >= r.align && (w.align == 1 || w.align == r.align)
            &&& w.prefix == r.prefix
        }),
{
}

/// Sample `n` is due after `n` times 33.3333 ms. A thread waits for it; one that is more than a fifth of a second late
/// goes on with the sample that is due now.
pub proof fn law_samples_come_at_their_time(n: u64, elapsed: u64)
    ensures
        ({
            let due = n * 33_333_300;
            let (sleep, next) = paced(n, elapsed);
            &&& due >= elapsed ==> elapsed + sleep == due && next == n
            &&& due < elapsed ==> sleep == 0
            &&& due < elapsed && elapsed - due <= 200_000_000 ==> next == n
            &&& due < elapsed && elapsed - due > 200_000_000 ==> next * 33_333_300 <= elapsed < (next + 1) * 33_333_300
        }),
{
}

/// A source delivers once it is started, and no more once it is stopped; neither opens one that is shut.
pub proof fn law_a_source_starts_and_stops(s: Source)
    ensures
        delivers(started(s)),
        !delivers(mf_stopped(s)),
        !mf_stopped(s).worker,
        started(s).shut == s.shut,
        mf_stopped(s).shut == s.shut,
{
}

/// The format can be set to one of ours, and to no other than the connection's while there is one.
pub proof fn law_when_the_format_can_be_set(f: Filter, p: Pixel)
    ensures
        format_set(f, None) == Err::<(), Refusal>(Refusal::InvalidMediaType),
        format_set(f, Some(f.pixel)) is Ok,
        !f.connected ==> format_set(f, Some(p)) is Ok,
        f.connected && f.pixel != p ==> format_set(f, Some(p)) == Err::<(), Refusal>(Refusal::NotStopped),
{
}

// ---- The picture that cameras send -------------------------------------------------------------

/// A good frame is sent at once, and for half a second after the last good one; else the placeholder is. No ring, or a
/// camera that has gone wrong, means the placeholder.
pub proof fn law_a_good_frame_is_held_for_half_a_second(f: Frames, mem: Option<Seq<u8>>, tick_ms: u64, now: i64)
    ensures
        ({
            let live = mem matches Some(m) && !f.faulted && ring_is_live(m, tick_ms);
            let last = if live {
                Some(now)
            } else {
                f.last_good
            };
            &&& good_after(f, mem, tick_ms, now) == last
            &&& show_of(f, mem, tick_ms, now) == Show::Live <==> mem is Some && !f.faulted && (last matches Some(t)
                && now - t < 500_000)
            &&& live ==> show_of(f, mem, tick_ms, now) == Show::Live
        }),
{
}

/// A ring counts while its writer's heartbeat is less than a second old, its frames are 1280 by 720, and one can be
/// read.
pub proof fn law_a_ring_counts_while_its_writer_is_alive(mem: Seq<u8>, tick_ms: u64)
    ensures
        ({
            let beat = crate::framebuf::u64_at(mem, 48);
            ring_is_live(mem, tick_ms) <==> {
                &&& tick_ms - beat < 1000
                &&& crate::framebuf::header_ok(crate::framebuf::header_at(mem), mem.len())
                &&& crate::framebuf::u32_at(mem, 12) == 1280
                &&& crate::framebuf::u32_at(mem, 16) == 720
                &&& crate::framebuf::found(mem, 1_382_400) is Ok
            }
        }),
{
}

// ---- The page with words -----------------------------------------------------------------------

/// No two letters look alike, and none is blank.
pub proof fn law_letters_can_be_told_apart(a: char, b: char)
    requires
        'a' <= a <= 'z',
        'a' <= b <= 'z',
        a != b,
    ensures
        letter(a) != letter(b),
        letter(a) != 0,
        letter(' ') == 0,
{
}

/// The words stand in the middle of the page, in one line, as many letters as fit: each letter is five dots wide and
/// seven high, with one dot's width behind it, and its dots are squares of ink.
pub proof fn law_the_words_stand_in_the_middle(
    text: Seq<char>,
    w: int,
    h: int,
    k: int,
    col: int,
    row: int,
    i: int,
    j: int,
)
    requires
        0 < w,
        0 < h,
        7 * scale_of(w) <= h,
        0 <= k < letters_of(w, text.len() as int),
        0 <= col < 6,
        0 <= row < 7,
        0 <= i < scale_of(w),
        0 <= j < scale_of(w),
    ensures
        ({
            let s = scale_of(w);
            let n = letters_of(w, text.len() as int);
            let x = left_of(w, text.len() as int) + k * (6 * s) + col * s + i;
            let y = top_of(w, h) + row * s + j;
            &&& s >= 1
            &&& n == text.len() || (n < text.len() && n * (6 * s) <= w < (n + 1) * (6 * s))
            &&& 0 <= left_of(w, text.len() as int) && 2 * left_of(w, text.len() as int) <= w - n * (6 * s) <= 2
                * left_of(w, text.len() as int) + 1
            &&& 2 * top_of(w, h) <= h - 7 * s <= 2 * top_of(w, h) + 1
            &&& is_ink(text, w, h, x, y) <==> col < 5 && dot(text[k], col, row)
        }),
{
    let s = scale_of(w);
    let cell = 6 * s;
    let len = text.len() as int;
    let n = letters_of(w, len);
    let most = w / cell;
    assert(most * cell <= w < (most + 1) * cell && 0 <= most) by (nonlinear_arith)
        requires
            0 < w,
            0 < cell,
            most == w / cell,
    ;
    assert(n * cell <= most * cell) by (nonlinear_arith)
        requires
            n <= most,
            0 < cell,
    ;
    assert(cell * n == n * cell) by (nonlinear_arith);
    let dx = k * cell + col * s + i;
    let dy = row * s + j;
    assert(0 <= col * s && col * s + s <= cell) by (nonlinear_arith)
        requires
            0 <= col,
            col + 1 <= 6,
            0 < s,
            cell == 6 * s,
    ;
    assert(0 <= k * cell && k * cell + cell <= n * cell) by (nonlinear_arith)
        requires
            0 <= k,
            k + 1 <= n,
            0 < cell,
    ;
    assert(0 <= row * s && row * s + s <= 7 * s) by (nonlinear_arith)
        requires
            0 <= row,
            row + 1 <= 7,
            0 < s,
    ;
    lemma_fundamental_div_mod_converse(dx, cell, k, col * s + i);
    lemma_fundamental_div_mod_converse(col * s + i, s, col, i);
    lemma_fundamental_div_mod_converse(dy, s, row, j);
}

/// Beside the words there is no ink.
pub proof fn law_there_is_no_ink_beside_the_words(text: Seq<char>, w: int, h: int, x: int, y: int)
    requires
        ({
            let s = scale_of(w);
            let (left, top) = (left_of(w, text.len() as int), top_of(w, h));
            x < left || x >= left + 6 * s * letters_of(w, text.len() as int) || y < top || y >= top + 7 * s
        }),
    ensures
        !is_ink(text, w, h, x, y),
{
}

/// The page: ink where the words are, a dot of three by three at every crossing of a grid of twenty-four, dark
/// elsewhere, in one colour.
pub proof fn law_the_page(w: int, h: int, text: Seq<char>, x: int, y: int, i: int)
    requires
        0 < w,
        0 < h,
        w % 2 == 0,
        h % 2 == 0,
        0 <= x < w,
        0 <= y < h,
    ensures
        ({
            let page = page_of(w, h, text);
            let shade = page[y * w + x];
            let q = (w / 2) * (h / 2);
            &&& page.len() == w * h + 2 * q
            &&& is_ink(text, w, h, x, y) ==> shade == 200
            &&& !is_ink(text, w, h, x, y) && x % 24 < 3 && y % 24 < 3 ==> shade == 64
            &&& !is_ink(text, w, h, x, y) && (x % 24 >= 3 || y % 24 >= 3) ==> shade == 44
            &&& 0 <= i < q ==> page[w * h + i] == 138 && page[w * h + q + i] == 124
        }),
{
    let (a, b) = (w / 2, h / 2);
    assert(w * h == 4 * (a * b)) by (nonlinear_arith)
        requires
            w == 2 * a,
            h == 2 * b,
    ;
    assert(a * b > 0) by (nonlinear_arith)
        requires
            a > 0,
            b > 0,
    ;
    lemma_fundamental_div_mod_converse(y * w + x, w, y, x);
    assert(0 <= y * w + x < w * h) by (nonlinear_arith)
        requires
            0 <= x < w,
            0 <= y,
            y + 1 <= h,
    ;
}

/// A filter's name stands in 128 units, as far as the first 127 hold it, with zeros behind it.
pub proof fn law_a_name_in_its_room(name: Seq<u16>, i: int)
    requires
        0 <= i < 128,
    ensures
        name_in_room(name).len() == 128,
        i < name.len() && i < 127 ==> name_in_room(name)[i] == name[i],
        i >= name.len() || i == 127 ==> name_in_room(name)[i] == 0,
{
}

/// The camera that stands in is opened with the format, where a frame of it, three bytes for two points, can be held.
pub proof fn law_the_camera_that_stands_in_is_open(n: NullVirtualCamera, format: FrameFormat)
    requires
        is_fresh(n, format),
    ensures
        n.frames == 0,
        format.width * format.height * 3 <= usize::MAX ==> n.format == Some(format),
        format.width * format.height * 3 > usize::MAX ==> n.format is None,
{
}

} // verus!
