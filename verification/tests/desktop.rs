//! The desktop: links, known phones, decoding, the window's decisions, and a fake phone streaming through all of it.
use lenny::abi::{
    lenny_control, lenny_control_cmd, lenny_control_state, lenny_mode, lenny_peer_info, lenny_state,
    lenny_stream_settings, LENNY_ACK_OK, LENNY_ACK_UNSUPPORTED, LENNY_CAP_FOCUS, LENNY_CAP_PAN, LENNY_CAP_ZOOM,
    LENNY_CODEC_H264, LENNY_FRAME_KEYFRAME, LENNY_PAIR_OK, LENNY_PLATFORM_LINUX, LENNY_PLATFORM_WINDOWS,
    LENNY_STREAM_CAMERA_LOST, LENNY_STREAM_LIVE, LENNY_STREAM_PAUSED,
};
use lenny::fake_phone::{encoded, parameter_sets, phone_config, Camera, Made, PhoneEncoder, Step as PhoneStep};
use lenny::receiver::engine::{
    c_chars, control, present, receiver_config, CameraLoop, Engine, Feed, Notice, FRAME_PERIOD_NS, TOKEN_TTL_MS,
};
use lenny::receiver::known::KnownPhones;
use lenny::receiver::link::{discovery_answer, host_name, local_ipv4s, pair_uri};
use lenny::receiver::video::{preview_size, Decoded, Guard, Outcome, Packet, Picture, VideoDecoder};
use lenny::session::effect::{Effect, Step};
use lenny::session::state::Session;
use lenny::text::{base64url, decimal_text, lossy};
use lenny::timing::SEC;
use lenny::ui::modes::{aspect, choices, fps, gcd, height_label, nearest, offered, pick, with_mode, Aspect, Clicks};
use lenny::ui::panel::{
    arg, battery, can_pan, centre_clicked, frozen_text, is_auto, lens_clicked, mode_clicked, parse_port, pointer,
    resize_edge, shown, shows_zoom, status, switched, wheel_range, After, Edge, Kind, Pointer, Relisten, Shown, Tone,
};
use lenny::ui::pictures::{png_bytes, qr_picture, with_quiet_zone, PngError, QUIET};
use lenny::vcam::frame::{compose_i420, fitted, i420_to_rgba, is_usable, placeholder_i420, Place, INK_Y};
use lenny::vcam::null::NullVirtualCamera;
use lenny::vcam::{open_best, vcam, Best, IVirtualCamera};
use lenny::wire::caps::{Caps, Lens};
use lenny::wire::frame::MessageReader;
use lenny::wire::simple::PAN_CENTER;

fn names(k: &KnownPhones) -> Vec<([u8; 16], String)> {
    k.known_phones().into_iter().map(|p| (p.id, p.name)).collect()
}

#[test]
fn pair_uri_matches_the_phone_parser_format() {
    let t = [0xFBu8; 16];
    let uri = pair_uri(&["192.168.1.20".into(), "10.0.0.2".into()], 47474, Some(&t), "My PC");
    assert_eq!(uri, "lenny://c?v=1&h=192.168.1.20%2C10.0.0.2&p=47474&t=-_v7-_v7-_v7-_v7-_v7-w&n=My%20PC");
    assert_eq!(pair_uri(&[], 1, None, ""), "lenny://c?v=1&p=1");
}

#[test]
fn a_link_reads_back() {
    let link = pair_uri(&["10.0.0.2".into(), "10.0.0.3".into()], 8080, Some(&[7; 16]), "A & B=100%");
    let query = link.strip_prefix("lenny://c?").unwrap();
    let value = |key: &str| query.split('&').find_map(|f| f.strip_prefix(key)).unwrap();
    assert_eq!((value("v="), value("p=")), ("1", "8080"));
    assert_eq!(value("h="), "10.0.0.2%2C10.0.0.3");
    assert_eq!(value("t="), base64url(&[7; 16]));
    assert_eq!(value("n="), "A%20%26%20B%3D100%25");
}

#[test]
fn base64url_is_unpadded() {
    assert_eq!(base64url(b"f"), "Zg");
    assert_eq!(base64url(b"fo"), "Zm8");
    assert_eq!(base64url(b"foo"), "Zm9v");
    assert_eq!(base64url(&[0u8; 16]).len(), 22);
}

#[test]
fn known_phones_roundtrip() {
    let mut k = KnownPhones::new();
    k.insert([0xAB; 16], "Pixel 9".to_string());
    let text = k.save();
    assert_eq!(text, format!("{} Pixel 9\n", "ab".repeat(16)));
    assert_eq!(names(&KnownPhones::load(&text)), names(&k));
}

#[test]
fn known_phones_are_sorted_unique_and_lenient() {
    let a = "00".repeat(16);
    let b = "0F".repeat(16);
    let text = format!("{b} Second\r\nnot a phone\n{a} First name\n{a}\n{b} Renamed");
    let k = KnownPhones::load(&text);
    assert_eq!(names(&k), vec![([0; 16], String::new()), ([0x0F; 16], "Renamed".to_string())]);
    let mut k = k;
    k.remove(&[0; 16]);
    k.remove(&[9; 16]);
    assert_eq!(names(&k), vec![([0x0F; 16], "Renamed".to_string())]);
    // Too short, and digits that are none.
    assert_eq!(names(&KnownPhones::load(&"0".repeat(31))).len(), 0);
    assert_eq!(names(&KnownPhones::load(&format!("{}zz name", "00".repeat(15)))).len(), 0);
}

#[test]
fn names_beyond_ascii_survive() {
    let mut k = KnownPhones::new();
    k.insert([1; 16], "Žofia's Telefon 📱".to_string());
    assert_eq!(names(&KnownPhones::load(&k.save())), names(&k));
    assert_eq!(pair_uri(&[], 7, None, "Ž"), "lenny://c?v=1&p=7&n=%C5%BD");
}

#[test]
fn discovery_answers_the_probe_only() {
    assert_eq!(discovery_answer(b"LENNY?1", 47474, "PC").unwrap(), "lenny://c?v=1&p=47474&n=PC");
    assert!(discovery_answer(b"LENNY?2", 47474, "PC").is_none());
    assert!(discovery_answer(b"LENNY?1\n", 47474, "PC").is_none());
}

#[test]
fn only_reachable_addresses_are_listed() {
    let list = local_ipv4s(&[[127, 0, 0, 1], [192, 168, 1, 20], [169, 254, 3, 4], [169, 253, 3, 4], [10, 0, 0, 255]]);
    assert_eq!(list, vec!["192.168.1.20", "169.253.3.4", "10.0.0.255"]);
}

#[test]
fn the_host_name_is_the_first_there_is() {
    let s = |t: &str| Some(t.to_string());
    assert_eq!(host_name(s("A"), s("B"), s("C\n")), "A");
    assert_eq!(host_name(None, s(" B\t"), s("C\n")), "B");
    assert_eq!(host_name(None, None, s("box\n")), "box");
    assert_eq!(host_name(s(" \u{2003}\n"), s("B"), None), "Lenny Desktop");
    assert_eq!(host_name(None, None, None), "Lenny Desktop");
}

#[test]
fn texts_end_at_the_first_zero_and_bad_bytes_are_replaced() {
    assert_eq!(c_chars(b"Pixel\0junk"), "Pixel");
    assert_eq!(c_chars(b"all of it"), "all of it");
    assert_eq!(lossy(b"a\xFFb"), "a\u{FFFD}b");
    assert_eq!(decimal_text(0), "0");
    assert_eq!(decimal_text(4294967295), "4294967295");
}

// ---- the engine ----

fn streaming() -> i32 {
    lenny_state::LENNY_STATE_STREAMING.code()
}

fn peer(id: u8, name: &[u8]) -> lenny_peer_info {
    let mut p = lenny_peer_info::default();
    p.device_id = [id; 16];
    p.name[..name.len()].copy_from_slice(name);
    p
}

#[test]
fn a_phone_that_streams_is_remembered_once() {
    let mut e = Engine::new(KnownPhones::new());
    let p = peer(7, b"Pixel");
    let t = e.tick(lenny_state::LENNY_STATE_HANDSHAKE.code(), true, &p, false);
    assert!(!t.save && t.notice == Notice::Connecting);
    e.show_link(&[], 47474, &[1; 16], "PC", 0);
    let t = e.tick(streaming(), true, &p, true);
    assert!(t.save && t.request_keyframe && t.notice == Notice::WaitingForVideo);
    assert!(e.needs_link(0)); // a used link is replaced
    assert_eq!(names(&e.known), vec![([7; 16], "Pixel".to_string())]);
    assert!(!e.tick(streaming(), true, &p, false).save);
    e.forget(&[7; 16]);
    assert!(names(&e.known).is_empty());
}

#[test]
fn notices_follow_the_session_and_the_phone() {
    let mut e = Engine::new(KnownPhones::new());
    let p = peer(7, b"Pixel");
    let none = lenny_state::LENNY_STATE_CONNECTING.code();
    assert_eq!(e.tick(none, false, &p, false).notice.text(), "waiting for phone");
    let ask = lenny_state::LENNY_STATE_AWAITING_APPROVAL.code();
    assert_eq!(e.tick(ask, true, &p, false).notice.text(), "allow the phone on the pc");
    e.stream_started();
    e.tick(streaming(), true, &p, false);
    e.on_stream_status(LENNY_STREAM_CAMERA_LOST, b"call");
    assert_eq!(e.tick(streaming(), true, &p, false).notice.text(), "phone camera busy");
    e.on_stream_status(LENNY_STREAM_PAUSED, b"");
    assert_eq!(e.tick(streaming(), true, &p, false).notice.text(), "phone paused");
    e.on_stream_status(LENNY_STREAM_LIVE, b"");
    assert!(e.status.is_none());
    e.on_stream_status(LENNY_STREAM_PAUSED, b"hot");
    assert_eq!(e.status.as_ref().unwrap().reason, "hot");
    e.tick(none, false, &p, false);
    assert!(e.status.is_none()); // over with the stream
}

#[test]
fn the_link_is_renewed_before_its_token_runs_out() {
    let mut e = Engine::new(KnownPhones::new());
    assert!(e.needs_link(0));
    e.show_link(&["10.0.0.2".to_string()], 1, &[0; 16], "", 0);
    assert_eq!(e.link.as_ref().unwrap().uri, "lenny://c?v=1&h=10.0.0.2&p=1&t=AAAAAAAAAAAAAAAAAAAAAA");
    assert!(!e.needs_link(80 * SEC));
    assert!(e.needs_link(80 * SEC + 1));
    let mut s = Session::new_receiver(receiver_config("PC", "1", 0, false));
    s.new_pair_token(TOKEN_TTL_MS, [0; 16], 0);
    let mut tokens = lenny::pairing::TokenStore::default();
    tokens.issue([0; 16], 0, TOKEN_TTL_MS as i64 * 1000);
    assert_eq!(tokens.redeem(&[0; 16], 80 * SEC), LENNY_PAIR_OK);
}

#[test]
fn the_camera_shows_the_last_frame_for_half_a_second() {
    let mut c = CameraLoop::new(0);
    assert_eq!(c.feed(Some(1_000_000), Notice::Paused, 1_499_999), Feed::Live);
    assert_eq!(c.feed(Some(1_000_000), Notice::Paused, 1_500_000), Feed::Draw(Notice::Paused));
    assert_eq!(c.feed(None, Notice::Paused, 1_600_000), Feed::Drawn);
    assert_eq!(c.feed(None, Notice::Connecting, 1_600_000), Feed::Draw(Notice::Connecting));
    assert!(c.wrote(false) && !c.wrote(false)); // logged once
    assert!(!c.wrote(true) && c.wrote(false));
    assert_eq!(c.pace(10), FRAME_PERIOD_NS as u64 - 10);
    assert_eq!(c.pace(1_000_000_000), 0); // fell behind: start over from now
    assert_eq!(c.next_ns, 1_000_000_000);
}

#[test]
fn the_desktop_prefers_1080p() {
    let c = receiver_config("PC", "0.1", 47474, true);
    assert_eq!(c.identity.device_name, b"PC");
    assert_eq!((c.identity.platform, c.port), (LENNY_PLATFORM_WINDOWS, 47474));
    assert_eq!(receiver_config("", "", 0, false).identity.platform, LENNY_PLATFORM_LINUX);
    assert!(c.preferred.mode.width == 1920 && c.preferred.bitrate_kbps == 8000 && c.preferred.has_lens == 0);
}

// ---- decoding ----

fn frame(key: bool) -> Packet {
    Packet::Frame { data: vec![1, 2, 3], orientation: 0, key }
}

#[test]
fn frames_wait_for_a_keyframe() {
    let mut g = Guard::new();
    assert!(g.let_through(&frame(false), false).is_none());
    assert_eq!(g.let_through(&Packet::Config(vec![9]), false), Some(&vec![9]));
    assert!(g.let_through(&Packet::Stop, false).is_none());
    assert!(g.let_through(&frame(true), false).is_some());
    let p = Picture { y: vec![], u: vec![], v: vec![], y_stride: 0, uv_stride: 0, width: 0, height: 0 };
    assert!(matches!(g.decoded(Decoded::Picture(p), 3, 0), Outcome::Show { orientation: 3, .. }));
    assert!(g.let_through(&frame(false), false).is_some());
    // Frames were dropped on the way.
    assert!(g.let_through(&frame(false), true).is_none());
}

#[test]
fn a_keyframe_is_asked_for_once_a_second() {
    let mut g = Guard::new();
    assert!(matches!(g.decoded(Decoded::Failed, 0, 0), Outcome::RequestKeyframe));
    assert!(matches!(g.decoded(Decoded::Failed, 0, SEC), Outcome::Wait));
    assert!(matches!(g.decoded(Decoded::Failed, 0, SEC + 1), Outcome::RequestKeyframe));
    assert!(g.need_key);
    assert!(matches!(g.decoded(Decoded::Nothing, 0, 0), Outcome::Wait));
    assert!(g.need_key);
}

#[test]
fn the_preview_keeps_the_proportions() {
    assert_eq!(preview_size(1920, 1080, 0), (960, 540));
    assert_eq!(preview_size(1920, 1080, 1), (960, 1706));
    assert_eq!(preview_size(641, 481, 2), (640, 480));
    assert_eq!(preview_size(1, 1, 0), (0, 2));
    assert_eq!(preview_size(1000, 1, 0), (960, 2));
}

/// A test card whose left half is dark and whose right half is light.
fn card(w: usize, h: usize) -> Vec<u8> {
    let mut yuv = vec![128u8; w * h * 3 / 2];
    for y in 0..h {
        for x in 0..w {
            yuv[y * w + x] = if x < w / 2 { 40 } else { 200 };
        }
    }
    yuv
}

#[test]
fn what_the_encoder_makes_the_decoder_shows() {
    let mut camera = Camera::new();
    camera.on_config(&settings(64, 48));
    let mut enc = PhoneEncoder::new();
    assert_eq!(enc.prepare(&mut camera, 65, 49), Some((64, 48)));
    assert!(!camera.want_key);
    let e = enc.encode(card(64, 48)).expect("encodes");
    let (data, flags) = e.frame.expect("a frame");
    assert_eq!(flags, LENNY_FRAME_KEYFRAME); // the first picture is a keyframe
    let config = e.config.expect("parameter sets");
    assert!(config.starts_with(&[0, 0, 0, 1]) && config[4] & 0x1F == 7);

    let mut dec = VideoDecoder::new().expect("decoder");
    assert!(matches!(dec.handle(Packet::Config(config), false, 0), Outcome::Wait));
    let o = dec.handle(Packet::Frame { data: data.clone(), orientation: 0, key: true }, false, 0);
    let Outcome::Show { picture, orientation } = o else { panic!("no picture") };
    assert_eq!((picture.width, picture.height, orientation), (64, 48, 0));
    assert!(is_usable(&picture));
    let at = |x: usize, y: usize| picture.y[y * picture.y_stride + x] as i32;
    assert!((at(8, 24) - 40).abs() < 12 && (at(56, 24) - 200).abs() < 12);

    // Garbage: a keyframe is asked for, and the next frame that is none is held back.
    let bad = Packet::Frame { data: vec![0, 0, 0, 1, 0x65, 0xFF, 0xFF, 0xFF, 0xFF], orientation: 0, key: true };
    assert!(matches!(dec.handle(bad, false, 0), Outcome::RequestKeyframe));
    assert!(matches!(dec.handle(frame(false), false, 0), Outcome::Wait));
    assert!(matches!(dec.handle(Packet::Stop, false, 0), Outcome::Stop));
}

#[test]
fn a_decoder_stands_or_falls_with_openh264s() {
    assert!(VideoDecoder::over(None).is_none());
    let mut dec = VideoDecoder::over(openh264::decoder::Decoder::new().ok()).expect("decoder");
    assert!(matches!(dec.handle(frame(false), false, 0), Outcome::Wait)); // it waits for a keyframe
}

#[test]
fn pictures_that_are_too_large_are_not_encoded() {
    let mut camera = Camera::new();
    let mut enc = PhoneEncoder::new();
    assert_eq!(enc.prepare(&mut camera, 4096, 2), Some((4096, 2)));
    assert!(enc.encode(vec![0; 4096 * 3]).is_none());
    assert_eq!(enc.prepare(&mut camera, 2162, 2162), Some((2162, 2162)));
    assert!(enc.encode(vec![0; 2162 * 2162 * 3 / 2]).is_none());
}

#[test]
fn pictures_are_turned_and_letterboxed() {
    // Two by two: brightness 1 2 / 3 4.
    let p = Picture {
        y: vec![1, 2, 3, 4],
        u: vec![50],
        v: vec![60],
        y_stride: 2,
        uv_stride: 1,
        width: 2,
        height: 2,
    };
    assert!(is_usable(&p));
    assert_eq!(compose_i420(&p, 0, 2, 2), vec![1, 2, 3, 4, 50, 60]);
    assert_eq!(&compose_i420(&p, 1, 2, 2)[..4], &[3, 1, 4, 2]);
    assert_eq!(&compose_i420(&p, 2, 2, 2)[..4], &[4, 3, 2, 1]);
    assert_eq!(&compose_i420(&p, 3, 2, 2)[..4], &[2, 4, 1, 3]);
    // In a canvas that is too wide, bars stand left and right.
    let c = compose_i420(&p, 0, 6, 2);
    assert_eq!(&c[..6], &[16, 16, 1, 2, 16, 16]);
    assert_eq!(&c[12..15], &[128, 50, 128]);
    assert_eq!(fitted(1080, 1920, 1280, 720), Place { x: 438, y: 0, width: 404, height: 720 });
    assert!(!is_usable(&Picture { y: vec![1, 2, 3], ..p }));
}

#[test]
fn a_long_picture_is_presented_too() {
    let p = |width: usize, height: usize| Picture {
        y: vec![90; width * height],
        u: vec![100; width / 2 * height / 2],
        v: vec![110; width / 2 * height / 2],
        y_stride: width,
        uv_stride: width / 2,
        width,
        height,
    };
    // As wide as the canvas, and too low to be seen in it.
    let (canvas, preview) = present(&p(65536, 2), 0).unwrap();
    assert!(canvas[..1280 * 720].iter().all(|b| *b == 16));
    assert_eq!((preview.width, preview.height, preview.source), (960, 2, (65536, 2)));
    // Turned, it stands: the preview is as high as the picture is long.
    let (_, preview) = present(&p(65536, 2), 1).unwrap();
    assert_eq!((preview.width, preview.height, preview.rgba.len()), (2, 65536, 2 * 65536 * 4));
    // The last row of a plane needs no padding behind it.
    let padded = Picture { y: vec![90; 100 + 2], y_stride: 100, uv_stride: 100, ..p(2, 2) };
    assert!(is_usable(&padded));
}

#[test]
fn colours_are_limited_range() {
    let px = |y: u8, u: u8, v: u8| i420_to_rgba(&[y, y, y, y, u, v], 2, 2)[..4].to_vec();
    assert_eq!(px(16, 128, 128), vec![0, 0, 0, 255]);
    assert_eq!(px(235, 128, 128), vec![255, 255, 255, 255]);
    assert_eq!(px(81, 90, 240), vec![255, 0, 0, 255]); // red
}

#[test]
fn the_page_has_dots() {
    let p = placeholder_i420(48, 32, "");
    assert_eq!(p.len(), 48 * 32 * 3 / 2);
    assert!(p[0] == 64 && p[3] == 44 && p[24] == 64 && p[48 * 3] == 44);
}

#[test]
fn the_page_has_words() {
    // Two letters of six columns, in the middle: columns 18 to 29, rows 12 to 18.
    let p = placeholder_i420(48, 32, "lt");
    let row = |y: usize| (18..30).map(|x| if p[y * 48 + x] == INK_Y { '#' } else { '.' }).collect::<String>();
    assert_eq!(row(11), "............");
    assert_eq!(row(12), "#.....#####.");
    assert_eq!(row(13), "#.......#...");
    assert_eq!(row(18), "#####...#...");
    assert_eq!(row(19), "............");
    // Colours are those of the bare page, and so is every pixel that the words leave out.
    let bare = placeholder_i420(48, 32, "");
    assert!(p.iter().zip(&bare).all(|(a, b)| a == b || *a == INK_Y));
    assert_eq!(p[48 * 32..], bare[48 * 32..]);
    // Only as many letters as fit.
    assert_eq!(placeholder_i420(12, 8, "lll"), placeholder_i420(12, 8, "ll"));
    let page = |n: Notice| placeholder_i420(1280, 720, n.text());
    assert_ne!(page(Notice::Paused), page(Notice::Connecting));
}

#[test]
fn a_picture_is_presented_to_the_camera_and_the_preview() {
    let yuv = card(64, 48);
    let p = Picture {
        y: yuv[..64 * 48].to_vec(),
        u: vec![128; 32 * 24],
        v: vec![128; 32 * 24],
        y_stride: 64,
        uv_stride: 32,
        width: 64,
        height: 48,
    };
    let (canvas, preview) = present(&p, 0).unwrap();
    assert_eq!(canvas.len(), 1280 * 720 * 3 / 2);
    assert!(canvas[0] == 16 && canvas[640 * 0 + 360 * 1280 + 200] == 40 && canvas[360 * 1280 + 1000] == 200);
    assert_eq!((preview.width, preview.height, preview.source), (64, 48, (64, 48)));
    assert_eq!(preview.rgba.len(), 64 * 48 * 4);
    assert!(present(&Picture { width: 0, ..p }, 0).is_none());
}

// ---- the window ----

fn mode(w: u16, h: u16, fps: u16) -> lenny_mode {
    lenny_mode { width: w, height: h, fps_num: fps, fps_den: 1 }
}

fn settings(w: u16, h: u16) -> lenny_stream_settings {
    lenny_stream_settings {
        codec: LENNY_CODEC_H264,
        mode: mode(w, h, 30),
        bitrate_kbps: 8000,
        has_lens: 0,
        lens_id: 0,
    }
}

#[test]
fn modes_are_offered_by_ratio_height_and_rate() {
    assert_eq!(gcd(1920, 1080), 120);
    assert_eq!(gcd(0, 5), 5);
    assert_eq!(fps(&lenny_mode { width: 1, height: 1, fps_num: 30000, fps_den: 1001 }), 29);
    assert_eq!(fps(&lenny_mode { width: 1, height: 1, fps_num: 30, fps_den: 0 }), 30);
    assert_eq!(aspect(&mode(1920, 1080, 30)).label(), "16:9");
    assert_eq!(height_label(2160), "4K");
    assert_eq!(height_label(720), "720p");
    let modes =
        vec![mode(1920, 1080, 30), mode(1280, 720, 30), mode(1280, 720, 60), mode(1440, 1080, 30), mode(960, 720, 30)];
    let cur = mode(1280, 720, 30);
    let c = choices(&modes, &cur);
    assert_eq!(c.aspects, vec![Aspect { width: 16, height: 9 }, Aspect { width: 4, height: 3 }]);
    assert_eq!(c.heights, vec![720, 1080]);
    assert_eq!(c.rates, vec![30, 60]);
    let none = Clicks { aspect: None, height: None, rate: None };
    assert_eq!(pick(&modes, &c, &cur, none), None);
    assert_eq!(pick(&modes, &c, &cur, Clicks { aspect: Some(1), ..none }), Some(mode(960, 720, 30)));
    assert_eq!(pick(&modes, &c, &cur, Clicks { height: Some(1), ..none }), Some(mode(1920, 1080, 30)));
    assert_eq!(pick(&modes, &c, &cur, Clicks { rate: Some(1), ..none }), Some(mode(1280, 720, 60)));
    assert_eq!(pick(&modes, &c, &cur, Clicks { rate: Some(0), aspect: Some(1), ..none }), None); // what is streamed
    assert_eq!(nearest(&modes, Aspect { width: 1, height: 1 }, 700, 50), Some(mode(1280, 720, 60)));
    assert_eq!(nearest(&[], Aspect { width: 1, height: 1 }, 1, 1), None);
    assert_eq!(with_mode(&settings(1280, 720), mode(1, 2, 3)).mode, mode(1, 2, 3));
}

#[test]
fn a_lens_without_modes_has_the_phones() {
    let l = |modes: Vec<lenny_mode>| Lens { modes, ..Default::default() };
    let caps =
        Caps { modes: vec![mode(1, 1, 1)], lenses: vec![l(vec![mode(2, 2, 2)]), l(vec![])], ..Default::default() };
    assert_eq!(offered(&caps, 0), &vec![mode(2, 2, 2)]);
    assert_eq!(offered(&caps, 1), &vec![mode(1, 1, 1)]);
    assert_eq!(offered(&caps, 9), &vec![mode(1, 1, 1)]);
}

#[test]
fn the_chip_and_the_frame_follow_the_state() {
    assert_eq!(status(streaming(), false), (Tone::Green, "Streaming"));
    assert_eq!(status(streaming(), true), (Tone::Lilac, "Phone paused"));
    assert_eq!(status(lenny_state::LENNY_STATE_CLOSED.code(), false), (Tone::Coral, "Stopped"));
    assert_eq!(status(lenny_state::LENNY_STATE_AWAITING_APPROVAL.code(), false).1, "Allow the phone?");
    assert_eq!(status(lenny_state::LENNY_STATE_HANDSHAKE.code(), false).1, "Connecting…");
    assert_eq!(status(lenny_state::LENNY_STATE_IDLE.code(), false).1, "Waiting for a phone");
    assert_eq!(resize_edge(true, false, true, false), Some(Edge::NorthWest));
    assert_eq!(resize_edge(false, true, false, true), Some(Edge::SouthEast));
    assert_eq!(resize_edge(true, true, false, false), Some(Edge::West));
    assert_eq!(resize_edge(false, false, false, true), Some(Edge::South));
    assert_eq!(resize_edge(false, false, false, false), None);
    assert_eq!(shown(true, true, Some(5), 1_000_004), Shown::Picture);
    assert_eq!(shown(true, true, Some(5), 1_000_005), Shown::Frozen);
    assert_eq!(shown(true, true, None, 5), Shown::Frozen);
    assert_eq!(shown(false, true, Some(5), 5), Shown::Waiting);
    assert_eq!(shown(true, false, Some(5), 5), Shown::NoPhone);
    assert_eq!(frozen_text(Some("call".to_string())), "call");
    assert_eq!(frozen_text(Some(String::new())), "Waiting for video…");
    assert_ne!(Kind::Primary, Kind::Neutral);
}

#[test]
fn clicks_become_controls() {
    let auto = lenny_control_state { pan_x: PAN_CENTER, pan_y: PAN_CENTER, ..Default::default() };
    let held = lenny_control_state { af_mode: 1, pan_y: 3, battery: 101, ..auto };
    assert!(is_auto(&auto) && !is_auto(&held));
    assert_eq!(mode_clicked(false, &auto), (false, None));
    let reset = control(lenny_control_cmd::LENNY_CTL_RESET_AUTO, 0, 0, 0);
    assert_eq!(mode_clicked(false, &held), (false, Some(reset)));
    assert_eq!(mode_clicked(true, &held), (true, None));
    assert_eq!(switched(lenny_control_cmd::LENNY_CTL_TORCH, 0).value, 1);
    assert_eq!(switched(lenny_control_cmd::LENNY_CTL_TORCH, 5).value, 0);
    assert!(centre_clicked(&auto).is_none() && centre_clicked(&held).unwrap().x == PAN_CENTER);
    let lenses = vec![Lens { id: 4, ..Default::default() }];
    assert_eq!(lens_clicked(&lenses, 0).unwrap().value, 4);
    assert!(lens_clicked(&lenses, 1).is_none());
    assert_eq!(battery(&lenny_control_state { battery: 87, charging: 1, ..auto }).unwrap(), "87% ⚡");
    assert_eq!(battery(&lenny_control_state { battery: 5, ..auto }).unwrap(), "5%");
    assert!(battery(&held).is_none());
}

#[test]
fn zoom_and_pan_follow_the_lens() {
    let l = Lens { zoom_min: 0, zoom_max: 800, zoom_base: 60, ..Default::default() };
    assert_eq!(wheel_range(Some(&l)), (1, 800));
    assert_eq!(wheel_range(Some(&Lens { zoom_max: 0, ..l.clone() })), (100, 400));
    assert_eq!(wheel_range(None), (100, 400));
    assert!(!can_pan(LENNY_CAP_PAN, Some(&l), 168)); // 0.6 times 1.68 is under 1.01
    assert!(can_pan(LENNY_CAP_PAN, Some(&l), 169));
    assert!(!can_pan(0, None, 400) && can_pan(LENNY_CAP_PAN, None, 102) && !can_pan(LENNY_CAP_PAN, None, 101));
    assert!(shows_zoom(LENNY_CAP_ZOOM, Some(&l)) && !shows_zoom(0, Some(&l)) && !shows_zoom(LENNY_CAP_ZOOM, None));
    assert_eq!(pointer(true, LENNY_CAP_FOCUS, true), Pointer::Crosshair);
    assert_eq!(pointer(false, LENNY_CAP_FOCUS, true), Pointer::Grab);
    assert_eq!(pointer(true, 0, false), Pointer::Plain);
}

#[test]
fn listening_again_takes_up_to_sixty_tries() {
    let mut r = Relisten::new();
    for _ in 0..59 {
        assert_eq!(r.tried(false), After::Again);
    }
    assert_eq!(r.tried(false), After::GiveUp);
    assert_eq!(Relisten::new().tried(true), After::Done);
}

#[test]
fn arguments_are_found_by_name() {
    let args: Vec<String> = ["lenny", "--port", "1", "--port", "2", "--size"].iter().map(|s| s.to_string()).collect();
    assert_eq!(arg(&args, &"--port".to_string()).unwrap(), "1");
    assert!(arg(&args, &"--size".to_string()).is_none());
    assert!(arg(&args, &"--after".to_string()).is_none());
    assert_eq!(parse_port("47474"), Some(47474));
    assert_eq!(parse_port("+1"), Some(1));
    assert_eq!(parse_port("65535"), Some(65535));
    for bad in ["65536", "", "+", "-1", "1 ", "99999999999999999999", "０"] {
        assert_eq!(parse_port(bad), None);
    }
}

#[test]
fn the_code_has_a_quiet_zone() {
    let p = qr_picture("lenny://c?v=1&p=1").unwrap();
    let n = p.side - 2 * QUIET;
    assert!(n >= 21 && p.dark.len() == p.side * p.side);
    let at = |x: usize, y: usize| p.dark[y * p.side + x];
    // The finder pattern in the corner, and nothing around it.
    assert!((0..7).all(|i| at(QUIET + i, QUIET) && at(QUIET, QUIET + i)));
    assert!(!at(QUIET + 1, QUIET + 1) && at(QUIET + 2, QUIET + 2));
    assert!((0..p.side).all(|i| (0..QUIET).all(|j| !at(i, j) && !at(j, i) && !at(i, p.side - 1 - j))));
    assert!(qr_picture(&"x".repeat(3000)).is_none());
    let small = with_quiet_zone(2, &vec![true, false, false, true]);
    assert_eq!(small.side, 10);
    assert!(small.dark[4 * 10 + 4] && !small.dark[4 * 10 + 5] && small.dark[5 * 10 + 5]);
}

#[test]
fn screenshots_are_png_files() {
    let rgba = vec![255, 0, 0, 255, 0, 0, 255, 128];
    let file = png_bytes(2, 1, &rgba).unwrap();
    let mut reader = png::Decoder::new(std::io::Cursor::new(file)).read_info().unwrap();
    let mut out = vec![0; reader.output_buffer_size()];
    let info = reader.next_frame(&mut out).unwrap();
    assert_eq!((info.width, info.height, info.color_type), (2, 1, png::ColorType::Rgba));
    assert_eq!(out, rgba);
    assert_eq!(png_bytes(2, 2, &rgba), Err(PngError::Size));
    assert_eq!(png_bytes(0, 0, &[]), Err(PngError::Refused));
}

// ---- the fake phone ----

#[test]
fn the_camera_answers_controls() {
    let mut c = Camera::new();
    assert_eq!(c.state.battery, 76);
    let ctl = |cmd: lenny_control_cmd, value: i32| control(cmd, 5, 6, value);
    assert_eq!(c.on_control(&ctl(lenny_control_cmd::LENNY_CTL_ZOOM, 900)), LENNY_ACK_OK);
    assert_eq!(c.state.zoom, 400);
    c.on_control(&ctl(lenny_control_cmd::LENNY_CTL_ZOOM, -3));
    assert_eq!(c.state.zoom, 100);
    c.on_control(&ctl(lenny_control_cmd::LENNY_CTL_PAN, 0));
    assert_eq!((c.state.pan_x, c.state.pan_y), (5, 6));
    c.on_control(&ctl(lenny_control_cmd::LENNY_CTL_FOCUS_AT, 0));
    c.on_control(&ctl(lenny_control_cmd::LENNY_CTL_EXPOSURE_COMP, -500));
    c.on_control(&ctl(lenny_control_cmd::LENNY_CTL_EXPOSURE_LOCK, 257));
    assert!(c.state.af_mode == 1 && c.state.exposure_comp == -500 && c.state.exposure_lock == 1);
    c.on_control(&ctl(lenny_control_cmd::LENNY_CTL_RESET_AUTO, 0));
    assert!(is_auto(&c.state));
    assert!(c.take_changed() && !c.take_changed());
    assert_eq!(c.on_control(&ctl(lenny_control_cmd::LENNY_CTL_WB_LOCK, 1)), LENNY_ACK_UNSUPPORTED);
    assert!(!c.changed && !c.want_key);
    c.on_control(&ctl(lenny_control_cmd::LENNY_CTL_KEYFRAME_REQUEST, 0));
    assert!(c.want_key);
    assert_eq!(c.next(true), PhoneStep::Wait);
    let eff = c.on_config(&lenny_stream_settings { bitrate_kbps: 9000, ..settings(1280, 720) });
    assert_eq!(eff.bitrate_kbps, 4000);
    assert_eq!(c.next(false), PhoneStep::Wait);
    assert_eq!(c.next(true), PhoneStep::Picture { width: 1280, height: 720, fps: 30, tell: true });
    assert_eq!(c.next(true), PhoneStep::Picture { width: 1280, height: 720, fps: 30, tell: false });
}

#[test]
fn parameter_sets_are_found_behind_short_and_long_start_codes() {
    let au = [0, 0, 0, 1, 0x67, 1, 2, 0, 0, 1, 0x68, 3, 0, 0, 0, 1, 0x65, 9, 9];
    assert_eq!(parameter_sets(&au), vec![0, 0, 0, 1, 0x67, 1, 2, 0, 0, 0, 1, 0x68, 3]);
    assert!(parameter_sets(&[0, 0, 1]).is_empty());
    assert!(parameter_sets(&[]).is_empty());
    assert_eq!(parameter_sets(&[0, 0, 1, 0x68]), vec![0, 0, 0, 1, 0x68]);
    let e = encoded(Made::P, vec![1]);
    assert!(e.config.is_none() && e.frame == Some((vec![1], 0)));
    let e = encoded(Made::Skip, vec![]);
    assert!(e.config.is_none() && e.frame.is_none());
    assert!(encoded(Made::I, vec![]).config.is_some());
}

/// A phone and a desktop, and the bytes between them.
struct Pair {
    tx: Session,
    rx: Session,
    to_rx: (Vec<u8>, MessageReader),
    to_tx: (Vec<u8>, MessageReader),
    camera: Camera,
    encoder: PhoneEncoder,
    decoder: VideoDecoder,
    previews: Vec<(usize, usize, usize, (usize, usize))>,
    vcam: NullVirtualCamera,
}

impl Pair {
    fn sender_does(&mut self, effects: Vec<Effect>, now: i64) {
        for e in effects {
            match e {
                Effect::Send(b) | Effect::Post(b) | Effect::Goodbye(b) => self.to_rx.0.extend(b),
                Effect::StreamConfig(req) => {
                    let eff = self.camera.on_config(&req);
                    let s = self.tx.stream_configured(eff);
                    self.sender_does(s.effects, now);
                    let s = self.tx.stream_started(eff, now);
                    self.sender_does(s.effects, now);
                }
                Effect::Control(c) => {
                    let ack = self.camera.on_control(&c);
                    let s = self.tx.control_done(c.req_id, ack);
                    self.sender_does(s.effects, now);
                }
                Effect::KeyframeRequest => self.camera.want_key = true,
                _ => {}
            }
        }
    }

    fn receiver_does(&mut self, effects: Vec<Effect>, now: i64) {
        for e in effects {
            let packet = match e {
                Effect::Send(b) | Effect::Post(b) | Effect::Goodbye(b) => {
                    self.to_tx.0.extend(b);
                    continue;
                }
                Effect::VideoConfig(c) => Packet::Config(c),
                Effect::VideoFrame(f) => Packet::Frame {
                    key: f.flags & LENNY_FRAME_KEYFRAME != 0,
                    data: f.data,
                    orientation: f.orientation,
                },
                _ => continue,
            };
            if let Outcome::Show { picture, orientation } = self.decoder.handle(packet, false, now) {
                let (canvas, p) = present(&picture, orientation).expect("usable");
                self.vcam.write_frame(&canvas).expect("a whole frame");
                self.previews.push((p.width, p.height, p.rgba.len(), p.source));
            }
        }
    }

    fn talk(&mut self, now: i64) {
        loop {
            while let (_, Some(o)) = self.tx.take_outgoing(now) {
                self.tx.outgoing_done(true, o.payload);
                self.to_rx.0.extend(o.msg);
            }
            let (a, b) = (std::mem::take(&mut self.to_rx.0), std::mem::take(&mut self.to_tx.0));
            if a.is_empty() && b.is_empty() {
                return;
            }
            self.to_rx.1.feed(&a);
            self.rx.received(now);
            while let Some(Step { effects, .. }) = self.rx.next_message(&mut self.to_rx.1, now, now) {
                self.receiver_does(effects, now);
            }
            self.to_tx.1.feed(&b);
            self.tx.received(now);
            while let Some(Step { effects, .. }) = self.tx.next_message(&mut self.to_tx.1, now, now) {
                self.sender_does(effects, now);
            }
        }
    }

    /// One turn of the phone.
    fn phone(&mut self, now: i64) {
        let on = self.tx.state() == streaming();
        if let PhoneStep::Picture { width, height, tell, .. } = self.camera.next(on) {
            if tell {
                let b = self.tx.send_control_state(&self.camera.state).unwrap();
                self.to_rx.0.extend(b);
            }
            let (w, h) = self.encoder.prepare(&mut self.camera, width as usize, height as usize).expect("encoder");
            let e = self.encoder.encode(card(w, h)).expect("encodes");
            if let Some(c) = e.config {
                self.tx.send_video_config(&c);
            }
            if let Some((data, flags)) = e.frame {
                self.tx.send_video_frame(&data, now, 0, flags, now);
            }
        }
        self.talk(now);
    }

    fn ask(&mut self, cmd: lenny_control_cmd, x: u16, y: u16, value: i32) {
        let mut c: lenny_control = control(cmd, x, y, value);
        let b = self.rx.send_control(&mut c).unwrap();
        self.to_tx.0.extend(b);
    }
}

#[test]
fn fake_phone_streams_through_the_desktop_pipeline() {
    let known = KnownPhones::load(&format!("{} Fake phone\n", "fa".repeat(16)));
    let mut rx = Session::new_receiver(receiver_config("PC", "test", 0, false));
    for p in known.known_phones() {
        rx.trust(&p.id);
    }
    let mut engine = Engine::new(known);
    engine.show_link(&[], 47474, &[3; 16], "PC", 0);
    assert!(engine.link.as_ref().unwrap().uri.starts_with("lenny://c?v=1&"));
    let mut p = Pair {
        tx: Session::new_sender(phone_config(0xFA)),
        rx,
        to_rx: (vec![], MessageReader::default()),
        to_tx: (vec![], MessageReader::default()),
        camera: Camera::new(),
        encoder: PhoneEncoder::new(),
        decoder: VideoDecoder::new().expect("decoder"),
        previews: vec![],
        vcam: match open_best(Err("no device".to_string()), vcam()) {
            Best::Null(n) => n,
            Best::Real::<NullVirtualCamera>(_) => unreachable!(),
        },
    };
    let effects = p.rx.start_link(0);
    p.receiver_does(effects, 0);
    let effects = p.tx.start_link(0);
    p.sender_does(effects, 0);
    p.talk(0);

    // Trusted phone: straight to streaming, video decoded, preview at the stream's own aspect ratio.
    assert_eq!((p.tx.state(), p.rx.state()), (streaming(), streaming()));
    let mut now = 0;
    while p.previews.len() <= 10 {
        now += 33_333;
        assert!(now < SEC);
        p.phone(now);
    }
    assert_eq!(p.previews[0], (960, 540, 960 * 540 * 4, (1920, 1080)));

    // Per-lens caps arrived (protocol 1.1).
    let caps = p.rx.peer_caps().unwrap();
    assert_eq!(caps.lenses[1].modes.len(), 2);
    assert_eq!(caps.lenses[0].zoom_max, 400);

    // Zoom + pan go to the phone, and its CONTROL_STATE comes back.
    p.ask(lenny_control_cmd::LENNY_CTL_ZOOM, 0, 0, 200);
    p.ask(lenny_control_cmd::LENNY_CTL_PAN, 60000, 1000, 0);
    p.talk(now);
    p.phone(now);
    let cs = p.rx.control_state().1;
    assert!(cs.zoom == 200 && cs.pan_x == 60000 && cs.pan_y == 1000);

    // Manual focus, then back to Auto.
    p.ask(lenny_control_cmd::LENNY_CTL_FOCUS_AT, 30000, 30000, 0);
    p.talk(now);
    p.phone(now);
    assert_eq!(p.rx.control_state().1.af_mode, 1);
    p.ask(lenny_control_cmd::LENNY_CTL_RESET_AUTO, 0, 0, 0);
    p.talk(now);
    p.phone(now);
    assert_eq!(p.rx.control_state().1.af_mode, 0);

    // Mode switch mid-stream: the decoder follows the new size.
    let (_, s) = p.rx.stream_settings();
    let want = lenny_mode { width: 1280, height: 720, fps_num: 30, fps_den: 1 };
    let b = p.rx.select_stream(&lenny_stream_settings { mode: want, ..s }).unwrap().unwrap();
    p.to_tx.0.extend(b);
    p.talk(now);
    for _ in 0..5 {
        now += 33_333;
        p.phone(now);
    }
    assert_eq!(p.previews.last().unwrap().3, (1280, 720));

    // The virtual camera backend loaded, and got every picture.
    assert!(!p.vcam.describe().is_empty());
    assert_eq!(p.vcam.frames, p.previews.len() as u64);

    // The desktop remembers the phone.
    let (has, info) = p.rx.peer();
    assert!(engine.tick(p.rx.state(), has, &info, false).save);
    assert_eq!(names(&engine.known), vec![([0xFA; 16], "Fake phone".to_string())]);
}

#[test]
fn an_encoder_is_replaced_and_starts_with_a_keyframe() {
    let mut encoder = PhoneEncoder::new();
    let mut camera = Camera::new();
    // None could be made: the keyframe is still owed.
    camera.want_key = false;
    assert_eq!(encoder.replaced(None, &mut camera, 64, 48), None);
    assert!(camera.want_key);
    assert_eq!(encoder.replaced(openh264::encoder::Encoder::new().ok(), &mut camera, 64, 48), Some((64, 48)));
    assert!(!camera.want_key);
    let e = encoder.encode(card(64, 48)).expect("encodes");
    assert_eq!(e.frame.unwrap().1, LENNY_FRAME_KEYFRAME);
    assert_eq!(&e.config.unwrap()[..5], &[0, 0, 0, 1, 0x67]);
    // The same size, an odd pixel more: the encoder stays, and no keyframe follows unless one is asked for.
    assert_eq!(encoder.prepare(&mut camera, 65, 49), Some((64, 48)));
    assert!(encoder.encode(card(64, 48)).expect("encodes").config.is_none());
    camera.want_key = true;
    assert_eq!(encoder.prepare(&mut camera, 64, 48), Some((64, 48)));
    assert!(encoder.encode(card(64, 48)).expect("encodes").config.is_some());
}
