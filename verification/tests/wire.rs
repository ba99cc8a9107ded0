//! The wire format, message by message.
use lenny::abi::{
    lenny_control, lenny_control_cmd, lenny_control_state, lenny_mode, lenny_stream_settings, LENNY_ACK_FAILED,
    LENNY_CAP_FOCUS, LENNY_CAP_LENS, LENNY_CAP_PAN, LENNY_CAP_TORCH, LENNY_CAP_ZOOM, LENNY_CODEC_H264,
    LENNY_FRAME_KEYFRAME, LENNY_PAIR_ALREADY_USED, LENNY_PAIR_EXPIRED, LENNY_PAIR_OK, LENNY_PAIR_UNKNOWN_TOKEN,
    LENNY_PLATFORM_WINDOWS, LENNY_REASON_BUSY, LENNY_STREAM_CAMERA_LOST,
};
use lenny::pairing::TokenStore;
use lenny::timing::ClockSync;
use lenny::wire::caps::{Caps, Codec, Lens};
use lenny::wire::control::{decode_settings, encode_settings, CapsSelect, Control, StreamStart};
use lenny::wire::frame::{
    put_header, Header, MessageReader, Status, HEADER_SIZE, MAX_CONTROL_PAYLOAD, MAX_VIDEO_PAYLOAD, VERSION_MINOR,
};
use lenny::wire::message::{to_message, Message};
use lenny::wire::msg;
use lenny::wire::simple::{
    ControlAck, ControlState, Goodbye, Hello, PairRequest, PairResult, Ping, Pong, StreamStatus, VideoConfig, PAN_CENTER,
};
use lenny::wire::tlv::{TlvReader, TlvWriter};
use lenny::wire::video::{decode_video_meta, encode_video_meta, VideoFrameMeta, VIDEO_FRAME_META_SIZE};

/// HELLO of a sender, protocol 1.0, with the least that it needs.
const HELLO_SENDER_MIN: [u8; 54] = [
    0x4C, 0x59, 0x01, 0x00, 0x01, 0x00, 0x00, 0x00, 0x2A, 0x00, 0x00, 0x00, 0x01, 0x00, 0x01, 0x00, 0x01, 0x02, 0x00,
    0x01, 0x00, 0x00, 0x03, 0x00, 0x01, 0x00, 0x01, 0x04, 0x00, 0x10, 0x00, 0x00, 0x01, 0x02, 0x03, 0x04, 0x05, 0x06,
    0x07, 0x08, 0x09, 0x0A, 0x0B, 0x0C, 0x0D, 0x0E, 0x0F, 0x05, 0x00, 0x03, 0x00, 0x50, 0x69, 0x78,
];

/// CONTROL(focus_at) with request 7.
const CONTROL_FOCUS_AT: [u8; 36] = [
    0x4C, 0x59, 0x01, 0x00, 0x40, 0x00, 0x00, 0x00, 0x18, 0x00, 0x00, 0x00, 0x01, 0x00, 0x04, 0x00, 0x07, 0x00, 0x00,
    0x00, 0x0B, 0x00, 0x0C, 0x00, 0x01, 0x00, 0x02, 0x00, 0x00, 0x80, 0x02, 0x00, 0x02, 0x00, 0x00, 0x40,
];

/// CONTROL(pan) with request 9, protocol 1.1.
const CONTROL_PAN: [u8; 36] = [
    0x4C, 0x59, 0x01, 0x01, 0x40, 0x00, 0x00, 0x00, 0x18, 0x00, 0x00, 0x00, 0x01, 0x00, 0x04, 0x00, 0x09, 0x00, 0x00,
    0x00, 0x15, 0x00, 0x0C, 0x00, 0x01, 0x00, 0x02, 0x00, 0x00, 0xC0, 0x02, 0x00, 0x02, 0x00, 0x00, 0x80,
];

/// A keyframe of six bytes.
const VIDEO_FRAME_KEY: [u8; 34] = [
    0x4C, 0x59, 0x01, 0x00, 0x31, 0x00, 0x00, 0x00, 0x16, 0x00, 0x00, 0x00, 0x01, 0x00, 0x00, 0x00, 0x40, 0x42, 0x0F,
    0x00, 0x00, 0x00, 0x00, 0x00, 0x01, 0x01, 0x00, 0x00, 0x00, 0x00, 0x00, 0x01, 0x65, 0x88,
];

/// CAPS of one lens with its own mode and zoom range, protocol 1.1.
const CAPS_LENS_1_1: [u8; 149] = [
    0x4C, 0x59, 0x01, 0x01, 0x20, 0x00, 0x00, 0x00, 0x89, 0x00, 0x00, 0x00, 0x01, 0x00, 0x0F, 0x00, 0x01, 0x00, 0x01,
    0x00, 0x01, 0x02, 0x00, 0x01, 0x00, 0x42, 0x03, 0x00, 0x01, 0x00, 0x1F, 0x02, 0x00, 0x18, 0x00, 0x01, 0x00, 0x02,
    0x00, 0x80, 0x07, 0x02, 0x00, 0x02, 0x00, 0x38, 0x04, 0x03, 0x00, 0x02, 0x00, 0x1E, 0x00, 0x04, 0x00, 0x02, 0x00,
    0x01, 0x00, 0x03, 0x00, 0x04, 0x00, 0x40, 0x1F, 0x00, 0x00, 0x04, 0x00, 0x08, 0x00, 0xC0, 0x01, 0x00, 0x00, 0x00,
    0x00, 0x00, 0x00, 0x05, 0x00, 0x42, 0x00, 0x01, 0x00, 0x01, 0x00, 0x00, 0x02, 0x00, 0x01, 0x00, 0x00, 0x03, 0x00,
    0x02, 0x00, 0x31, 0x78, 0x04, 0x00, 0x18, 0x00, 0x01, 0x00, 0x02, 0x00, 0x00, 0x05, 0x02, 0x00, 0x02, 0x00, 0xD0,
    0x02, 0x03, 0x00, 0x02, 0x00, 0x1E, 0x00, 0x04, 0x00, 0x02, 0x00, 0x01, 0x00, 0x05, 0x00, 0x12, 0x00, 0x01, 0x00,
    0x02, 0x00, 0x3C, 0x00, 0x02, 0x00, 0x02, 0x00, 0xE8, 0x03, 0x03, 0x00, 0x02, 0x00, 0x64, 0x00,
];

/// Feeds `msg` through a reader and returns the single message inside.
fn read_one(msg: &[u8]) -> Option<(Header, Vec<u8>)> {
    let mut r = MessageReader::default();
    r.feed(msg);
    let (h, p) = match r.next() {
        Status::Message(h, p) => (h, p.to_vec()),
        _ => return None,
    };
    if matches!(r.next(), Status::NeedMore) {
        Some((h, p))
    } else {
        None
    }
}

fn roundtrip<M: Message>(m: &M) -> M {
    let (h, p) = read_one(&to_message(m, VERSION_MINOR)).expect("one message");
    assert_eq!(h.typ, M::TYPE);
    M::decode(&p).expect("decodes")
}

#[test]
fn vector_hello_decodes_and_reencodes() {
    let v = HELLO_SENDER_MIN.to_vec();
    assert_eq!(v.len(), 54);
    let (h, p) = read_one(&v).unwrap();
    assert!(h.typ == msg::HELLO && h.length == 42);
    let m = Hello::decode(&p).unwrap();
    assert!(m.role == 1 && m.proto_major == 1 && m.proto_minor == 0 && m.device_name == b"Pix");
    assert!(m.device_id[0] == 0x00 && m.device_id[15] == 0x0F);
    assert_eq!(to_message(&m, h.ver_minor), v); // a 1.0 vector: re-encoded as 1.0
}

#[test]
fn vector_control_focus_at() {
    let v = CONTROL_FOCUS_AT.to_vec();
    let (h, p) = read_one(&v).unwrap();
    let c = Control::decode(&p).unwrap();
    assert!(
        c.0.req_id == 7
            && c.0.cmd == lenny_control_cmd::LENNY_CTL_FOCUS_AT.code()
            && c.0.x == 0x8000
            && c.0.y == 0x4000
    );
    assert_eq!(to_message(&c, h.ver_minor), v);
}

#[test]
fn vector_video_frame() {
    let v = VIDEO_FRAME_KEY.to_vec();
    let (h, p) = read_one(&v).unwrap();
    assert_eq!(h.typ, msg::VIDEO_FRAME);
    let (m, data) = decode_video_meta(&p).unwrap();
    assert!(m.frame_seq == 1 && m.pts_us == 1_000_000 && m.orientation == 1 && m.flags == LENNY_FRAME_KEYFRAME);
    assert!(data.len() == 6 && data[4] == 0x65);
    let mut meta = [0u8; VIDEO_FRAME_META_SIZE];
    encode_video_meta(&mut meta, &m);
    assert_eq!(&meta[..], &v[HEADER_SIZE..HEADER_SIZE + VIDEO_FRAME_META_SIZE]);
}

#[test]
fn reader_handles_byte_by_byte_and_back_to_back() {
    let mut stream = to_message(&Ping { seq: 1, t1: 10 }, 0);
    stream.extend(to_message(&Ping { seq: 2, t1: 20 }, 0));
    let mut r = MessageReader::default();
    let mut got = 0u32;
    for b in stream {
        r.feed(&[b]);
        while let Status::Message(_, p) = r.next() {
            assert_eq!(Ping::decode(p).unwrap().seq, got + 1);
            got += 1;
        }
    }
    assert_eq!(got, 2);
}

#[test]
fn reader_rejects_bad_magic_and_oversize() {
    let mut r = MessageReader::default();
    let mut bad = to_message(&Ping { seq: 1, t1: 1 }, 0);
    bad[0] = b'X';
    r.feed(&bad);
    assert!(matches!(r.next(), Status::BadMagic));

    let mut big = [0u8; HEADER_SIZE];
    put_header(&mut big, &Header { typ: msg::HELLO, length: MAX_CONTROL_PAYLOAD + 1, ..Default::default() });
    let mut r2 = MessageReader::default();
    r2.feed(&big);
    assert!(matches!(r2.next(), Status::TooLarge));

    // Video frames get the bigger limit.
    put_header(&mut big, &Header { typ: msg::VIDEO_FRAME, length: MAX_CONTROL_PAYLOAD + 1, ..Default::default() });
    let mut r3 = MessageReader::default();
    r3.feed(&big);
    assert!(matches!(r3.next(), Status::NeedMore));
    // ...up to its own limit.
    put_header(&mut big, &Header { typ: msg::VIDEO_FRAME, length: MAX_VIDEO_PAYLOAD + 1, ..Default::default() });
    let mut r4 = MessageReader::default();
    r4.feed(&big);
    assert!(matches!(r4.next(), Status::TooLarge));
}

#[test]
fn unknown_type_passes_through_reader() {
    let mut m = vec![0xAB; HEADER_SIZE + 3];
    put_header(&mut m, &Header { typ: 0x7777, length: 3, ..Default::default() });
    m.extend(to_message(&Ping { seq: 9, t1: 9 }, 0));
    let mut r = MessageReader::default();
    r.feed(&m);
    assert!(matches!(r.next(), Status::Message(h, p) if h.typ == 0x7777 && p.len() == 3));
    assert!(matches!(r.next(), Status::Message(h, _) if h.typ == msg::PING));
}

#[test]
fn unknown_tlv_tags_are_skipped() {
    let mut payload = vec![];
    let mut w = TlvWriter(&mut payload);
    w.u32(1, 5);
    w.str(999, b"from the future"); // unknown tag
    w.i64(2, 77);
    let p = Ping::decode(&payload).unwrap();
    assert!(p.seq == 5 && p.t1 == 77);
}

#[test]
fn truncated_or_missing_fields_rejected() {
    let mut payload = vec![];
    TlvWriter(&mut payload).u32(1, 5);
    assert!(Ping::decode(&payload).is_none()); // t1 missing
    TlvWriter(&mut payload).i64(2, 7);
    payload.pop(); // truncated field
    assert!(Ping::decode(&payload).is_none());
    let mut wrong_size = vec![];
    let mut w2 = TlvWriter(&mut wrong_size);
    w2.u16(1, 5); // seq must be u32
    w2.i64(2, 7);
    assert!(Ping::decode(&wrong_size).is_none());
}

#[test]
fn roundtrip_all_messages() {
    let mut hello = Hello {
        role: 2,
        device_name: b"Desk".to_vec(),
        app_version: b"0.1".to_vec(),
        platform: LENNY_PLATFORM_WINDOWS,
        pairing_required: true,
        features: 1,
        ..Default::default()
    };
    hello.device_id[3] = 9;
    let h2 = roundtrip(&hello);
    assert_eq!(h2, hello);

    assert_eq!(roundtrip(&Goodbye { reason: LENNY_REASON_BUSY as u16, detail: b"busy".to_vec() }).detail, b"busy");
    let pong = roundtrip(&Pong { seq: 3, t1: 1, t2: 2, t3: 3 });
    assert!(pong.seq == 3 && pong.t3 == 3);

    let mut pr = PairRequest::default();
    pr.token[15] = 0xEE;
    assert_eq!(roundtrip(&pr).token[15], 0xEE);
    assert_eq!(roundtrip(&PairResult { result: LENNY_PAIR_EXPIRED }).result, LENNY_PAIR_EXPIRED);

    let caps = Caps {
        codecs: vec![Codec { id: LENNY_CODEC_H264, profile: 66, level: 31 }],
        modes: vec![
            lenny_mode { width: 1280, height: 720, fps_num: 30, fps_den: 1 },
            lenny_mode { width: 1920, height: 1080, fps_num: 30000, fps_den: 1001 },
        ],
        max_bitrate_kbps: 12000,
        controls: (LENNY_CAP_FOCUS | LENNY_CAP_TORCH) as u64,
        lenses: vec![
            Lens { id: 0, facing: 0, label: b"Wide".to_vec(), ..Default::default() },
            Lens { id: 1, facing: 1, label: b"Front".to_vec(), ..Default::default() },
        ],
        has_exposure_range: true,
        exposure_min: -2000,
        exposure_max: 2000,
        exposure_step_milli: 333,
    };
    assert_eq!(roundtrip(&caps), caps);

    let mut s = lenny_stream_settings {
        codec: LENNY_CODEC_H264,
        mode: lenny_mode { width: 1920, height: 1080, fps_num: 30, fps_den: 1 },
        bitrate_kbps: 8000,
        has_lens: 1,
        lens_id: 2,
    };
    let sel = roundtrip(&CapsSelect(s));
    assert!(sel.0.mode.width == 1920 && sel.0.bitrate_kbps == 8000 && sel.0.has_lens == 1 && sel.0.lens_id == 2);
    s.has_lens = 0;
    assert_eq!(roundtrip(&StreamStart(s)).0.has_lens, 0);

    assert_eq!(roundtrip(&StreamStatus { state: LENNY_STREAM_CAMERA_LOST, reason: b"call".to_vec() }).reason, b"call");
    let vc = VideoConfig { codec: LENNY_CODEC_H264, config: vec![0, 0, 0, 1, 0x67] };
    assert_eq!(roundtrip(&vc).config, vc.config);

    for cmd in lenny_control_cmd::LENNY_CTL_KEYFRAME_REQUEST.code()..=lenny_control_cmd::LENNY_CTL_PAN.code() {
        let mut c = lenny_control { req_id: 42, cmd, ..Default::default() };
        if cmd == lenny_control_cmd::LENNY_CTL_EXPOSURE_COMP.code() {
            c.value = -1333;
        }
        if cmd == lenny_control_cmd::LENNY_CTL_ZOOM.code() {
            c.value = 250;
        }
        if cmd == lenny_control_cmd::LENNY_CTL_TORCH.code() || cmd == lenny_control_cmd::LENNY_CTL_SELECT_LENS.code() {
            c.value = 1;
        }
        let out = roundtrip(&Control(c));
        assert!(out.0.cmd == cmd && out.0.req_id == 42 && out.0.value == c.value);
    }
    assert_eq!(roundtrip(&ControlAck { req_id: 42, result: LENNY_ACK_FAILED as u8 }).result, LENNY_ACK_FAILED as u8);
    let cs = lenny_control_state {
        af_mode: 1,
        exposure_comp: -500,
        exposure_lock: 1,
        wb_lock: 0,
        torch: 1,
        lens_id: 2,
        zoom: 150,
        battery: 87,
        charging: 1,
        pan_x: 1000,
        pan_y: 60000,
    };
    assert_eq!(roundtrip(&ControlState(cs)).0, cs);
    // an old phone sends no battery or pan tags
    let old = ControlState::decode(&[]).unwrap().0;
    assert!(old.battery == 255 && old.pan_x == PAN_CENTER && old.pan_y == PAN_CENTER);
}

#[test]
fn clock_sync_prefers_lowest_rtt() {
    let mut c = ClockSync::default();
    assert!(!c.valid() && c.rtt_us() == -1);
    // Remote clock is +1000 ahead. Symmetric 100 us each way.
    c.add(0, 1100, 1100, 200);
    assert!(c.rtt_us() == 200 && c.offset_us() == 1000);
    // Slow, asymmetric sample (queued on the way back) must not win.
    c.add(10000, 11100, 11100, 15000);
    assert!(c.rtt_us() == 200 && c.offset_us() == 1000);
    c.add(5, 5, 4, 0); // negative rtt: ignored
    assert_eq!(c.rtt_us(), 200);
}

#[test]
fn pair_tokens_single_use_and_expiry() {
    let mut ts = TokenStore::default();
    let a = ts.issue([0xA1; 16], 0, 1000);
    let b = ts.issue([0xB2; 16], 0, 1000);
    assert_ne!(a, b);
    assert_eq!(ts.redeem(&a, 500), LENNY_PAIR_OK);
    assert_eq!(ts.redeem(&a, 600), LENNY_PAIR_ALREADY_USED);
    assert_eq!(ts.redeem(&b, 2000), LENNY_PAIR_EXPIRED);
    assert_eq!(ts.redeem(&[0; 16], 0), LENNY_PAIR_UNKNOWN_TOKEN);
}

#[test]
fn vector_control_pan() {
    let v = CONTROL_PAN.to_vec();
    let (_, p) = read_one(&v).unwrap();
    let c = Control::decode(&p).unwrap();
    assert!(
        c.0.req_id == 9 && c.0.cmd == lenny_control_cmd::LENNY_CTL_PAN.code() && c.0.x == 0xC000 && c.0.y == 0x8000
    );
    assert_eq!(to_message(&c, 1), v);
}

#[test]
fn vector_caps_per_lens_1_1() {
    let v = CAPS_LENS_1_1.to_vec();
    let (h, p) = read_one(&v).unwrap();
    assert_eq!(h.ver_minor, 1);
    let c = Caps::decode(&p).unwrap();
    let hd = lenny_mode { width: 1280, height: 720, fps_num: 30, fps_den: 1 };
    assert_eq!(c.modes, vec![lenny_mode { width: 1920, height: 1080, fps_num: 30, fps_den: 1 }]);
    assert_eq!(c.controls, (LENNY_CAP_LENS | LENNY_CAP_ZOOM | LENNY_CAP_PAN) as u64);
    let lens =
        Lens { id: 0, facing: 0, label: b"1x".to_vec(), modes: vec![hd], zoom_min: 60, zoom_max: 1000, zoom_base: 100 };
    assert_eq!(c.lenses, vec![lens]);
    assert_eq!(to_message(&c, 1), v);
    // A 1.0 peer gets the same CAPS without the per-lens fields, and still decodes it.
    let old = Caps::decode(&read_one(&to_message(&c, 0)).unwrap().1).unwrap();
    assert!(old.lenses[0].modes.is_empty() && old.lenses[0].zoom_max == 0 && old.lenses[0].label == b"1x");
}

#[test]
fn newer_fields_are_left_out_for_older_peers() {
    let cs = ControlState(lenny_control_state { pan_x: 7, pan_y: 8, ..Default::default() });
    assert_eq!(ControlState::decode(&read_one(&to_message(&cs, 1)).unwrap().1).unwrap().0.pan_x, 7);
    assert_eq!(ControlState::decode(&read_one(&to_message(&cs, 0)).unwrap().1).unwrap().0.pan_x, PAN_CENTER);
}

#[test]
fn fields_are_read_in_order_and_a_cut_off_one_is_bad() {
    let mut payload = vec![];
    {
        let mut w = TlvWriter(&mut payload);
        w.u8(3, 7);
        w.u16(4, 0x1234);
        w.empty(5);
    }
    assert_eq!(payload, vec![3, 0, 1, 0, 7, 4, 0, 2, 0, 0x34, 0x12, 5, 0, 0, 0]);
    let mut r = TlvReader::new(&payload);
    assert_eq!(r.next(), Some((3, &[7u8][..])));
    assert_eq!(r.next(), Some((4, &[0x34u8, 0x12][..])));
    assert_eq!(r.next(), Some((5, &[][..])));
    assert_eq!(r.next(), None);
    assert!(!r.bad);
    let mut cut = TlvReader::new(&payload[..6]);
    assert!(cut.next().is_some());
    assert_eq!(cut.next(), None);
    assert!(cut.bad);
}

#[test]
fn lists_nest() {
    let mut payload = vec![];
    {
        let mut w = TlvWriter(&mut payload);
        let mark = w.begin_list(2);
        w.u8(1, 9);
        w.end_list(mark);
    }
    assert_eq!(payload, vec![2, 0, 5, 0, 1, 0, 1, 0, 9]);
}

#[test]
fn a_message_reads_back_with_others_behind_it() {
    let first = Goodbye { reason: LENNY_REASON_BUSY as u16, detail: b"later".to_vec() };
    let mut stream = to_message(&first, 1);
    stream.extend(to_message(&Ping { seq: 1, t1: -5 }, 1));
    let mut r = MessageReader::default();
    r.feed(&stream);
    match r.next() {
        Status::Message(h, p) => {
            assert_eq!((h.typ, h.ver_minor), (msg::GOODBYE, 1));
            assert_eq!(Goodbye::decode(p).unwrap(), first);
        }
        _ => panic!("no message"),
    }
    assert!(matches!(r.next(), Status::Message(_, p) if Ping::decode(p).unwrap().t1 == -5));
}

#[test]
fn a_repeated_number_counts_last_and_a_wrong_size_spoils_the_message() {
    let mut payload = vec![];
    {
        let mut w = TlvWriter(&mut payload);
        w.u32(1, 5);
        w.i64(2, 1);
        w.u32(1, 6);
    }
    assert_eq!(Ping::decode(&payload).unwrap().seq, 6);
}

#[test]
fn offset_is_exact_when_both_ways_take_as_long() {
    let mut c = ClockSync::default();
    c.add(100, 5100 + 50, 5100 + 70, 100 + 50 + 20 + 50);
    assert_eq!((c.rtt_us(), c.offset_us()), (100, 5000));
    // Seventeen later samples push it out of the window.
    for _ in 0..16 {
        c.add(0, 500, 500, 1000);
    }
    assert_eq!((c.rtt_us(), c.offset_us()), (1000, 0));
}

#[test]
fn a_short_video_payload_is_no_frame() {
    assert!(decode_video_meta(&[0; 15]).is_none());
    let (m, data) = decode_video_meta(&[0; 16]).unwrap();
    assert!(m.frame_seq == 0 && data.is_empty());
}

#[test]
fn a_pan_is_left_out_for_a_peer_of_the_first_version() {
    let c = Control(lenny_control { req_id: 9, cmd: lenny_control_cmd::LENNY_CTL_PAN.code(), x: 1, y: 2, value: 0 });
    assert_eq!(read_one(&to_message(&c, 0)).unwrap().1, vec![1, 0, 4, 0, 9, 0, 0, 0]);
    assert_eq!(Control::decode(&read_one(&to_message(&c, 1)).unwrap().1).unwrap().0, c.0);
    let zoom = Control(lenny_control { cmd: lenny_control_cmd::LENNY_CTL_ZOOM.code(), value: 200, ..c.0 });
    assert_eq!(Control::decode(&read_one(&to_message(&zoom, 0)).unwrap().1).unwrap().0.value, 200);
}

/// The types of the messages in a stream that arrives in chunks of this many bytes, and whether the rest is refused.
fn types_by(stream: &[u8], chunk: usize) -> (Vec<u16>, bool) {
    let mut r = MessageReader::default();
    let mut types = vec![];
    for c in stream.chunks(chunk) {
        r.feed(c);
        while let Status::Message(h, _) = r.next() {
            types.push(h.typ);
        }
    }
    (types, matches!(r.next(), Status::BadMagic))
}

#[test]
fn the_cut_of_a_stream_does_not_matter() {
    let mut stream = to_message(&Ping { seq: 1, t1: 10 }, 0);
    stream.extend(VIDEO_FRAME_KEY);
    stream.extend(CONTROL_PAN);
    let types = vec![msg::PING, msg::VIDEO_FRAME, msg::CONTROL];
    for chunk in 1..=stream.len() {
        assert_eq!(types_by(&stream, chunk), (types.clone(), false));
    }
    stream.extend([0; HEADER_SIZE]);
    for chunk in 1..=stream.len() {
        assert_eq!(types_by(&stream, chunk), (types.clone(), true));
    }
}

#[test]
fn settings_need_a_frame_rate_and_their_first_five_fields() {
    let s = lenny_stream_settings {
        codec: LENNY_CODEC_H264,
        mode: lenny_mode { width: 64, height: 48, fps_num: 30, fps_den: 1 },
        bitrate_kbps: 500,
        has_lens: 9,
        lens_id: 3,
    };
    let bytes = |s: lenny_stream_settings| read_one(&to_message(&CapsSelect(s), 1)).unwrap().1;
    assert_eq!(CapsSelect::decode(&bytes(s)).unwrap().0, lenny_stream_settings { has_lens: 1, ..s });
    let mut bare = vec![];
    encode_settings(&mut TlvWriter(&mut bare), &s);
    assert_eq!(bare, bytes(s));
    assert_eq!(decode_settings(&bare), Some(lenny_stream_settings { has_lens: 1, ..s }));
    let no_lens = lenny_stream_settings { has_lens: 0, ..s };
    assert_eq!(CapsSelect::decode(&bytes(no_lens)).unwrap().0, lenny_stream_settings { lens_id: 0, ..no_lens });
    let no_rate = lenny_stream_settings { mode: lenny_mode { fps_den: 0, ..s.mode }, ..s };
    assert!(CapsSelect::decode(&bytes(no_rate)).is_none() && StreamStart::decode(&bytes(no_rate)).is_none());
    for missing in 1..=7 {
        let mut payload = vec![];
        let mut w = TlvWriter(&mut payload);
        for tag in (1..=7).filter(|t| *t != missing) {
            match tag {
                1 | 7 => w.u8(tag, 1),
                6 => w.u32(tag, 1),
                _ => w.u16(tag, 1),
            }
        }
        assert_eq!(StreamStart::decode(&payload).is_some(), missing > 5);
    }
}

#[test]
fn fields_come_out_before_whatever_is_cut_short() {
    for tail in [&[][..], &[1][..], &[1, 0, 0][..], &[1, 0, 2, 0, 7][..]] {
        let mut payload = vec![3, 0, 1, 0, 7, 4, 0, 0, 0];
        payload.extend(tail);
        let mut r = TlvReader::new(&payload);
        assert_eq!(r.next(), Some((3, &[7u8][..])));
        assert_eq!(r.next(), Some((4, &[][..])));
        assert_eq!(r.next(), None);
        assert_eq!(r.bad, !tail.is_empty());
    }
}

#[test]
fn a_control_keeps_what_its_field_can_carry() {
    let heard = |cmd: u16, x: u16, y: u16, value: i32| {
        let c = Control(lenny_control { req_id: 3, cmd, x, y, value });
        Control::decode(&read_one(&to_message(&c, 1)).unwrap().1).map(|c| (c.0.req_id, c.0.x, c.0.y, c.0.value))
    };
    assert_eq!(heard(lenny_control_cmd::LENNY_CTL_FOCUS_AT.code(), 4, 5, 6), Some((3, 4, 5, 0)));
    assert_eq!(heard(lenny_control_cmd::LENNY_CTL_TORCH.code(), 4, 5, -6), Some((3, 0, 0, 1)));
    assert_eq!(heard(lenny_control_cmd::LENNY_CTL_SELECT_LENS.code(), 4, 5, 0x1_0203), Some((3, 0, 0, 3)));
    assert_eq!(heard(lenny_control_cmd::LENNY_CTL_ZOOM.code(), 4, 5, -1), Some((3, 0, 0, 65535)));
    assert_eq!(heard(lenny_control_cmd::LENNY_CTL_EXPOSURE_COMP.code(), 4, 5, -500), Some((3, 0, 0, -500)));
    assert_eq!(heard(lenny_control_cmd::LENNY_CTL_RESET_AUTO.code(), 4, 5, 6), Some((3, 0, 0, 0)));
    assert_eq!(heard(1, 0, 0, 0), None);
    assert_eq!(heard(22, 0, 0, 0), None);
}

#[test]
fn two_bits_of_a_frames_orientation_count() {
    let mut b = [0u8; VIDEO_FRAME_META_SIZE];
    let m = VideoFrameMeta { frame_seq: 1, pts_us: -2, orientation: 7, flags: 3 };
    encode_video_meta(&mut b, &m);
    assert_eq!(decode_video_meta(&b).unwrap().0, VideoFrameMeta { orientation: 3, ..m });
}

#[test]
fn long_texts_are_cut_to_fit_a_field() {
    let g = Goodbye { reason: LENNY_REASON_BUSY as u16, detail: vec![b'x'; 70_000] };
    let mut payload = vec![];
    g.encode(&mut TlvWriter(&mut payload), 1);
    assert_eq!(Goodbye::decode(&payload).unwrap().detail, vec![b'x'; 65_535]);
}

#[test]
fn caps_need_frame_rates() {
    let rated = lenny_mode { width: 64, height: 48, fps_num: 30, fps_den: 1 };
    let none = lenny_mode { fps_den: 0, ..rated };
    let heard = |c: &Caps, minor: u8| Caps::decode(&read_one(&to_message(c, minor)).unwrap().1).is_some();
    assert!(heard(&Caps { modes: vec![rated], ..Default::default() }, 1));
    assert!(!heard(&Caps { modes: vec![rated, none], ..Default::default() }, 1));
    // A lens has its own modes from 1.1 on.
    let lens = Caps { lenses: vec![Lens { modes: vec![none], ..Default::default() }], ..Default::default() };
    assert!(!heard(&lens, 1) && heard(&lens, 0));
}
