//! What holds of the desktop: what it shows and when, how long things count, and how it is found.
use vstd::prelude::*;
use vstd::utf8::encode_utf8;

use crate::pairing::{answer, law_the_first_issue_of_a_token_counts, EntryView};
use crate::receiver::engine::{
    camera_canvas, feed_of, learns, link_after_tick, link_is_due, next_due, notice_of, notice_text, preview_rgba,
    status_after_tick, CameraLoop, Feed, Link, Notice, Status, TOKEN_TTL_MS,
};
use crate::receiver::known::{before, hex_text, line_text, sorted};
use crate::receiver::link::{
    dotted, joined, machine_name, probe, reachable_texts, trimmed, trimmed_end, trimmed_start, white_space,
};
use crate::receiver::video::{
    at_frame, decoded_of, follows, guard_after, outcome_after, preview_size_of, start_guard, to_decode, Decoded,
    Guard, Outcome, Packet, Picture,
};
use crate::text::{decimal, hex_digit};
use crate::vcam::frame::{canvas_of, usable};
use crate::vcam::picture_laws::{
    came_from, law_a_picture_of_the_canvas_size_stays_as_it_is, law_the_canvas_shows_the_colours,
    law_the_canvas_shows_the_picture, law_the_preview_has_the_pictures_colours, near, shares, sides,
};

verus! {

// ---- Notices and links -------------------------------------------------------------------------

/// The words on the camera: 4 is streaming, 3 a question to the user, 2 a handshake. While streaming, a phone that said
/// it lost its camera (2) is busy, and one that said anything else is paused.
pub proof fn law_the_notice_fits_the_state(state: i32, status: Option<u8>)
    ensures
        state == 4 && status is None ==> notice_of(state, status) == Notice::WaitingForVideo,
        state == 4 && status == Some(2u8) ==> notice_of(state, status) == Notice::CameraBusy,
        state == 4 && status is Some && status != Some(2u8) ==> notice_of(state, status) == Notice::Paused,
        state == 3 ==> notice_of(state, status) == Notice::AllowThePhone,
        state == 2 ==> notice_of(state, status) == Notice::Connecting,
        state < 2 || state > 4 ==> notice_of(state, status) == Notice::WaitingForPhone,
{
}

/// A phone is remembered, and its link used up, at the moment at which it starts to stream. What it said of its stream
/// is forgotten when it stops.
pub proof fn law_what_a_change_of_state_does(
    link: Option<Link>,
    status: Option<Status>,
    last_state: i32,
    state: i32,
    has_peer: bool,
)
    ensures
        learns(last_state, state, has_peer) <==> has_peer && last_state != 4 && state == 4,
        last_state != 4 && state == 4 ==> link_after_tick(link, last_state, state) is None,
        last_state == state || state != 4 ==> link_after_tick(link, last_state, state) == link,
        last_state != state && state != 4 ==> status_after_tick(status, last_state, state) is None,
        last_state == state || state == 4 ==> status_after_tick(status, last_state, state) == status,
{
}

/// A link is on show for eighty seconds at most, and its token is good for longer than that.
pub proof fn law_a_link_is_renewed_in_time(link: Option<Link>, token: Seq<u8>, now: i64)
    ensures
        link is None ==> link_is_due(link, now),
        link matches Some(l) ==> (link_is_due(link, now) <==> now - l.since > 80_000_000),
        TOKEN_TTL_MS * 1000 > 80_000_000,
        link matches Some(l) ==> !link_is_due(link, now) ==> answer(
            seq![EntryView { token, issued: l.since, ttl_us: (TOKEN_TTL_MS * 1000) as i64, used: false }],
            token,
            now,
        ) == 0,
{
    if let Some(l) = link {
        let s = seq![EntryView { token, issued: l.since, ttl_us: (TOKEN_TTL_MS * 1000) as i64, used: false }];
        law_the_first_issue_of_a_token_counts(s, token, 0, now);
    }
}

// ---- The camera's thread -----------------------------------------------------------------------

/// The last good frame is fed for half a second; from then on the notice, which is drawn anew only where it changed.
pub proof fn law_the_camera_is_fed(c: CameraLoop, frame_at: Option<i64>, notice: Notice, now: i64)
    ensures
        feed_of(c, frame_at, notice, now) == Feed::Live <==> (frame_at matches Some(t) && now - t < 500_000),
        feed_of(c, frame_at, notice, now) == Feed::Drawn ==> c.drawn == Some(notice),
        feed_of(c, frame_at, notice, now) matches Feed::Draw(n) ==> n == notice && c.drawn != Some(notice),
{
}

/// The camera gets thirty frames a second: one is due a thirtieth of a second after the last, and one that is late is
/// due now, with none made up for.
pub proof fn law_thirty_frames_a_second(next_ns: i64, now_ns: i64)
    ensures
        next_ns + 33_333_333 > now_ns ==> next_due(next_ns, now_ns) == next_ns + 33_333_333,
        next_ns + 33_333_333 <= now_ns ==> next_due(next_ns, now_ns) == now_ns,
        1_000_000_000 - 30 <= 30 * (next_due(0, 0) - 0) <= 1_000_000_000,
{
}

// ---- Decoding ----------------------------------------------------------------------------------

/// Parameter sets always go to the decoder, as they are. A frame does if it is a keyframe, or if none is needed, as it
/// is too; one is needed at the start, after a failure, and when frames were dropped.
pub proof fn law_what_goes_to_the_decoder(g: Guard, packet: Packet, want: bool)
    ensures
        packet matches Packet::Config(c) ==> to_decode(g, packet, want) == Some(c@),
        packet is Stop ==> to_decode(g, packet, want) is None,
        packet matches Packet::Frame { data, key, .. } ==> to_decode(g, packet, want) == (if key || (!g.need_key
            && !want) {
            Some(data@)
        } else {
            None
        }),
        at_frame(g, want).need_key == (g.need_key || want),
        at_frame(g, want).last_request == g.last_request,
        start_guard().need_key,
        start_guard().last_request is None,
{
}

/// What follows a decode: a picture is shown as it is, and frames may follow it; nothing is waited on; after a failure
/// a keyframe is needed, and asked for unless that was done in the last second.
pub proof fn law_what_follows_a_decode(g: Guard, p: Picture, orientation: u8, now: i64)
    ensures
        outcome_after(g, Decoded::Picture(p), orientation, now) == (Outcome::Show { picture: p, orientation }),
        !guard_after(g, Decoded::Picture(p), now).need_key,
        guard_after(g, Decoded::Picture(p), now).last_request == g.last_request,
        outcome_after(g, Decoded::Nothing, orientation, now) is Wait,
        guard_after(g, Decoded::Nothing, now) == g,
        guard_after(g, Decoded::Failed, now).need_key,
        ({
            let recent = g.last_request matches Some(t) && now - t <= 1_000_000;
            &&& recent ==> outcome_after(g, Decoded::Failed, orientation, now) is Wait && guard_after(
                g,
                Decoded::Failed,
                now,
            ).last_request == g.last_request
            &&& !recent ==> outcome_after(g, Decoded::Failed, orientation, now) is RequestKeyframe && guard_after(
                g,
                Decoded::Failed,
                now,
            ).last_request == Some(now)
        }),
{
}

/// The preview is as wide as the upright picture, 960 at most and even, and has its proportions, up to less than two
/// rows, but two rows at least.
pub proof fn law_the_preview_keeps_the_proportions(width: usize, height: usize, rotation: u8)
    requires
        0 < width,
        0 < height,
    ensures
        ({
            let (rw, rh) = if rotation % 2 == 1 {
                (height as int, width as int)
            } else {
                (width as int, height as int)
            };
            let (w, h) = preview_size_of(width, height, rotation);
            &&& w % 2 == 0 && h % 2 == 0 && h >= 2
            &&& rw <= 960 ==> w <= rw < w + 2
            &&& rw >= 960 ==> w == 960
            &&& h > 2 ==> h * rw <= rh * w < (h + 2) * rw
            &&& h == 2 ==> rh * w < 4 * rw
        }),
{
    let (rw, rh) = if rotation % 2 == 1 {
        (height as int, width as int)
    } else {
        (width as int, height as int)
    };
    let (w, h) = preview_size_of(width, height, rotation);
    let q = rh * w / rw;
    assert(q * rw <= rh * w < (q + 1) * rw && 0 <= q) by (nonlinear_arith)
        requires
            0 < rw,
            0 < rh,
            0 <= w,
            q == rh * w / rw,
    ;
    let e = q - q % 2;
    assert(e * rw <= q * rw && (q + 1) * rw <= (e + 2) * rw) by (nonlinear_arith)
        requires
            e <= q < e + 2,
            0 < rw,
    ;
    if e < 4 {
        assert((e + 2) * rw <= 4 * rw || e == 2) by (nonlinear_arith)
            requires
                e % 2 == 0,
                e < 4,
                0 < rw,
        ;
    }
}

/// Each point of the preview that the picture covers has the colours of the point of the picture whose share it stands
/// in, turned upright. The colour is the one that belongs to the block of four points in which the point stands.
pub proof fn law_the_preview_shows_the_picture(
    p: Picture,
    rotation: u8,
    x: int,
    y: int,
    sx: int,
    sy: int,
    bx: int,
    by: int,
)
    requires
        usable(p),
        ({
            let (rw, rh) = sides(p, rotation);
            let (w, h) = preview_size_of(p.width, p.height, rotation);
            let (px, py, fw, fh) = crate::vcam::frame::place_of(rw, rh, w, h);
            &&& w > 0 && w * h * 4 <= usize::MAX
            &&& 0 <= x < w && 0 <= y < h
            &&& shares(x - px, fw, rw, sx) && shares(y - py, fh, rh, sy)
            &&& shares(x / 2 * 2 - px, fw, rw, bx) && shares(y / 2 * 2 - py, fh, rh, by)
        }),
    ensures
        ({
            let (w, h) = preview_size_of(p.width, p.height, rotation);
            let at = 4 * (y * w + x);
            let out = preview_rgba(p, rotation);
            let (cx, cy) = came_from(p, rotation, sx, sy);
            let (dx, dy) = came_from(p, rotation, bx, by);
            let l = p.y@[cy * p.y_stride + cx] - 16;
            let u = p.u@[dy / 2 * p.uv_stride + dx / 2] - 128;
            let v = p.v@[dy / 2 * p.uv_stride + dx / 2] - 128;
            &&& near(out[at], 1164 * l + 1596 * v)
            &&& near(out[at + 1], 1164 * l - 391 * u - 813 * v)
            &&& near(out[at + 2], 1164 * l + 2016 * u)
            &&& out[at + 3] == 255
        }),
{
    let (w, h) = preview_size_of(p.width, p.height, rotation);
    law_the_preview_keeps_the_proportions(p.width, p.height, rotation);
    assert(w <= w * h * 4 && h <= w * h * 4) by (nonlinear_arith)
        requires
            0 < w,
            0 < h,
    ;
    let canvas = canvas_of(p, rotation, w, h);
    law_the_canvas_shows_the_picture(p, rotation, w as usize, h as usize, x, y, sx, sy);
    law_the_canvas_shows_the_colours(p, rotation, w as usize, h as usize, false, x / 2, y / 2, bx, by);
    law_the_canvas_shows_the_colours(p, rotation, w as usize, h as usize, true, x / 2, y / 2, bx, by);
    law_the_preview_has_the_pictures_colours(canvas, w, h, x, y);
    let c = y / 2 * (w / 2) + x / 2;
    assert(w * h + c == w * h + y / 2 * (w / 2) + x / 2);
}

// ---- Names and addresses -----------------------------------------------------------------------

/// Blanks, tabs and ends of lines are white space; what can be seen in ASCII is not.
pub proof fn law_white_space(c: char)
    ensures
        c == ' ' || c == '\t' || c == '\n' || c == '\r' ==> white_space(c),
        '!' <= c <= '~' ==> !white_space(c),
{
}

/// Trimming takes away white space at both ends, all of it, and nothing else.
pub proof fn law_trimming_takes_white_space_only(front: Seq<char>, text: Seq<char>, back: Seq<char>)
    requires
        forall|i: int| 0 <= i < front.len() ==> white_space(#[trigger] front[i]),
        forall|i: int| 0 <= i < back.len() ==> white_space(#[trigger] back[i]),
        text.len() > 0 ==> !white_space(text[0]) && !white_space(text.last()),
    ensures
        text.len() > 0 ==> trimmed(front + text + back) == text,
        text.len() == 0 ==> trimmed(front + back).len() == 0,
{
    if text.len() > 0 {
        lemma_start(front, text + back);
        assert(front + text + back =~= front + (text + back));
        lemma_end(text, back);
    } else {
        let all = front + back;
        assert forall|i: int| 0 <= i < all.len() implies white_space(#[trigger] all[i]) by {
            if i < front.len() {
                assert(all[i] == front[i]);
            } else {
                assert(all[i] == back[i - front.len()]);
            }
        }
        lemma_start(all, Seq::empty());
        assert(all + Seq::<char>::empty() =~= all);
    }
}

proof fn lemma_start(front: Seq<char>, text: Seq<char>)
    requires
        forall|i: int| 0 <= i < front.len() ==> white_space(#[trigger] front[i]),
        text.len() > 0 ==> !white_space(text[0]),
    ensures
        trimmed_start(front + text) == text,
    decreases front.len(),
{
    if front.len() > 0 {
        let rest = front.skip(1);
        assert forall|i: int| 0 <= i < rest.len() implies white_space(#[trigger] rest[i]) by {
            assert(rest[i] == front[i + 1]);
        }
        assert(white_space(front[0]));
        lemma_start(rest, text);
        assert((front + text).skip(1) =~= rest + text);
    } else {
        assert(front + text =~= text);
    }
}

proof fn lemma_end(text: Seq<char>, back: Seq<char>)
    requires
        forall|i: int| 0 <= i < back.len() ==> white_space(#[trigger] back[i]),
        text.len() > 0 ==> !white_space(text.last()),
    ensures
        trimmed_end(text + back) == text,
    decreases back.len(),
{
    if back.len() > 0 {
        let rest = back.drop_last();
        assert forall|i: int| 0 <= i < rest.len() implies white_space(#[trigger] rest[i]) by {
            assert(rest[i] == back[i]);
        }
        assert(white_space(back[back.len() - 1]));
        lemma_end(text, rest);
        assert((text + back).drop_last() =~= text + rest);
    } else {
        assert(text + back =~= text);
    }
}

/// The machine goes by the first name that there is, the computer's, the host's, the file's, without white space; by
/// "Lenny Desktop" where that leaves nothing.
pub proof fn law_the_machines_name(computer: Option<Seq<char>>, host: Option<Seq<char>>, file: Option<Seq<char>>)
    ensures
        ({
            let n = machine_name(computer, host, file);
            let first = match (computer, host, file) {
                (Some(c), _, _) => c,
                (None, Some(h), _) => h,
                (None, None, Some(f)) => f,
                _ => Seq::empty(),
            };
            &&& trimmed(first).len() > 0 ==> n == trimmed(first)
            &&& trimmed(first).len() == 0 ==> n == "Lenny Desktop"@
        }),
{
}

/// The hosts of a link stand in order, with a comma between two of them.
pub proof fn law_hosts_are_joined_by_commas(hosts: Seq<Seq<char>>, h: Seq<char>)
    ensures
        joined(seq![h]) == encode_utf8(h),
        hosts.len() > 0 ==> joined(hosts.push(h)) == joined(hosts) + seq![44u8] + encode_utf8(h),
{
    assert(hosts.push(h).drop_last() =~= hosts);
    if hosts.len() > 0 {
        assert(joined(hosts.push(h)) =~= joined(hosts) + seq![44u8] + encode_utf8(h));
    }
}

/// Of the machine's addresses all are told, in order and in dotted decimal, but those that begin with 127 and those
/// that begin with 169.254.
pub proof fn law_reachable_addresses_are_told(addresses: Seq<[u8; 4]>, a: [u8; 4])
    ensures
        ({
            let hidden = a[0] == 127 || (a[0] == 169 && a[1] == 254);
            let told = reachable_texts(addresses);
            let more = reachable_texts(addresses.push(a));
            &&& hidden ==> more == told
            &&& !hidden ==> more == told.push(
                decimal(a[0] as nat).push('.') + decimal(a[1] as nat).push('.') + decimal(a[2] as nat).push('.')
                    + decimal(a[3] as nat),
            )
        }),
        reachable_texts(Seq::empty()).len() == 0,
{
    reveal_strlit(".");
    assert("."@ =~= seq!['.']);
    assert(addresses.push(a).drop_last() =~= addresses);
    assert(dotted(a) =~= decimal(a[0] as nat).push('.') + decimal(a[1] as nat).push('.') + decimal(
        a[2] as nat,
    ).push('.') + decimal(a[3] as nat));
}

// ---- Known phones ------------------------------------------------------------------------------

/// A known phone's line: thirty-two lower-case digits in base sixteen, two for each byte of its id, a blank, its name.
pub proof fn law_a_phones_line(id: Seq<u8>, name: Seq<char>, k: int)
    requires
        id.len() == 16,
    ensures
        ({
            let line = line_text((id, name));
            &&& line.len() == 34 + name.len()
            &&& 0 <= k < 16 ==> line[2 * k] == hex_digit(id[k] as nat / 16) && line[2 * k + 1] == hex_digit(
                id[k] as nat % 16,
            )
            &&& line[32] == ' '
            &&& forall|i: int| 0 <= i < name.len() ==> line[33 + i] == name[i]
            &&& line.last() == '\n'
        }),
{
    lemma_hex(id, k);
    lemma_hex(id, 0);
}

proof fn lemma_hex(id: Seq<u8>, k: int)
    ensures
        hex_text(id).len() == 2 * id.len(),
        0 <= k < id.len() ==> hex_text(id)[2 * k] == hex_digit(id[k] as nat / 16),
        0 <= k < id.len() ==> hex_text(id)[2 * k + 1] == hex_digit(id[k] as nat % 16),
    decreases id.len(),
{
    if id.len() > 0 {
        lemma_hex(id.drop_last(), k);
    }
}

/// Phones are told in the order of their ids, by the first byte that differs.
pub proof fn law_phones_are_in_order(a: Seq<u8>, b: Seq<u8>, k: int)
    requires
        0 <= k < 16,
        forall|j: int| 0 <= j < k ==> a[j] == b[j],
        a[k] != b[k],
    ensures
        before(a, b) <==> a[k] < b[k],
{
    assert(crate::receiver::known::differ_at(a, b, k));
    if before(a, b) {
        let m = choose|m: int| #[trigger] crate::receiver::known::differ_at(a, b, m) && a[m] < b[m];
        if m < k {
            assert(a[m] == b[m]);
        } else if k < m {
            assert(a[k] == b[k]);
        }
    }
}

/// A picture of the camera's size, without padding.
pub open spec fn has_the_cameras_size(p: Picture) -> bool {
    &&& p.width == 1280 && p.height == 720
    &&& p.y_stride == 1280 && p.uv_stride == 640
    &&& p.y@.len() == 921_600 && p.u@.len() == 230_400 && p.v@.len() == 230_400
}

/// The virtual camera gets 1280 by 720 points, of which each that the picture covers shows the point of the picture
/// whose share it stands in, turned upright by `rotation` quarters; the others are black. A picture of that very size
/// is what the camera gets, byte by byte.
pub proof fn law_the_camera_gets_the_picture(p: Picture, rotation: u8, x: int, y: int, sx: int, sy: int)
    requires
        usable(p),
        0 <= x < 1280,
        0 <= y < 720,
    ensures
        camera_canvas(p, rotation).len() == 1_382_400,
        ({
            let (rw, rh) = sides(p, rotation);
            let (px, py, fw, fh) = crate::vcam::frame::place_of(rw, rh, 1280, 720);
            let shown = camera_canvas(p, rotation)[y * 1280 + x];
            let (cx, cy) = came_from(p, rotation, sx, sy);
            &&& shares(x - px, fw, rw, sx) && shares(y - py, fh, rh, sy) ==> shown == p.y@[cy * p.y_stride + cx]
            &&& x < px || x >= px + fw || y < py || y >= py + fh ==> shown == 16
        }),
        rotation % 4 == 0 && has_the_cameras_size(p) ==> camera_canvas(p, rotation) == p.y@ + p.u@ + p.v@,
{
    law_the_canvas_shows_the_picture(p, rotation, 1280, 720, x, y, sx, sy);
    if rotation % 4 == 0 && has_the_cameras_size(p) {
        law_a_picture_of_the_canvas_size_stays_as_it_is(p, rotation);
    }
}

/// The words of each notice.
pub proof fn law_the_words_of_the_notices(n: Notice)
    ensures
        notice_text(Notice::CameraBusy) == "phone camera busy"@,
        notice_text(Notice::Paused) == "phone paused"@,
        notice_text(Notice::WaitingForVideo) == "waiting for video"@,
        notice_text(Notice::AllowThePhone) == "allow the phone on the pc"@,
        notice_text(Notice::Connecting) == "connecting"@,
        notice_text(Notice::WaitingForPhone) == "waiting for phone"@,
{
}

/// Discovery asks `LENNY?1`.
pub proof fn law_what_discovery_asks()
    ensures
        probe() == seq!['L' as u8, 'E' as u8, 'N' as u8, 'N' as u8, 'Y' as u8, '?' as u8, '1' as u8],
{
    assert(probe() =~= seq!['L' as u8, 'E' as u8, 'N' as u8, 'N' as u8, 'Y' as u8, '?' as u8, '1' as u8]);
}

/// Known phones stand in order, none of them twice.
pub proof fn law_known_phones_stand_in_order(list: Seq<(Seq<u8>, Seq<char>)>, i: int, j: int)
    requires
        sorted(list),
        0 <= i < j < list.len(),
    ensures
        before(list[i].0, list[j].0),
        list[i].0 != list[j].0,
{
    let (a, b) = (list[i].0, list[j].0);
    assert(before(a, b));
    let k = choose|k: int| #[trigger] crate::receiver::known::differ_at(a, b, k) && a[k] < b[k];
    assert(a[k] != b[k]);
}

/// What comes of a decode is what the decoder gave back: a picture, nothing, or an error; and it is followed by what
/// follows from that.
pub proof fn law_what_the_decoder_gives_back_counts(
    g: Guard,
    r: Result<Option<Picture>, openh264::Error>,
    orientation: u8,
    now: i64,
    next: Guard,
    o: Outcome,
)
    ensures
        r matches Ok(Some(p)) ==> decoded_of(r) == Decoded::Picture(p),
        r matches Ok(None) ==> decoded_of(r) is Nothing,
        r is Err ==> decoded_of(r) is Failed,
        follows(g, decoded_of(r), orientation, now, next, o) ==> {
            &&& r matches Ok(Some(p)) ==> o == (Outcome::Show { picture: p, orientation }) && !next.need_key
            &&& r matches Ok(None) ==> o is Wait && next == g
            &&& r is Err ==> next.need_key && !(o is Show)
        },
{
}

} // verus!
