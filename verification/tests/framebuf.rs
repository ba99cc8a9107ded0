//! The shared-memory ring: layout, reading back, and what a bad header comes to.
use lenny::framebuf::{
    copy_is_whole, fill_nv12, mapping_bytes, nv12_bytes, nv12_to_yuy2, place, Format, Frame, RawHeader, ReadError,
    Reader, View, Writer, FOURCC_NV12, HEADER_BYTES, MAGIC, O_HEARTBEAT, O_STATE, O_WIDTH, O_WRITE_INDEX, SLOT_HEADER, SLOT_COUNT, STATE_LIVE,
    STATE_NO_SOURCE, VERSION,
};

fn mapping() -> Vec<u8> {
    vec![0u8; mapping_bytes() + 8]
}

#[test]
fn write_then_read() {
    let mut mem = mapping();
    let mut w = Writer::new(View::new(&mut mem).unwrap(), 4, 2, 7).unwrap();
    let mut out = vec![0u8; nv12_bytes(4, 2)];
    assert_eq!(Reader::new(w.memory()).unwrap().read_nv12(&mut out).unwrap_err(), ReadError::Empty);
    // I420 4x2: Y 0..8, U [100,101], V [200,201] -> NV12 UV interleaved.
    let i420: Vec<u8> = (0..8).chain([100, 101, 200, 201]).collect();
    assert!(w.write_i420(&i420, 42, 1000));
    let r = Reader::new(w.memory()).unwrap();
    let f = r.read_nv12(&mut out).unwrap();
    assert_eq!((f.index, f.pts_100ns), (1, 42));
    assert_eq!(out, [0, 1, 2, 3, 4, 5, 6, 7, 100, 200, 101, 201]);
    assert_eq!(r.heartbeat_age(1500), 500);
    assert_eq!(r.format().unwrap(), Format { width: 4, height: 2, slot_bytes: 12 });
}

#[test]
fn corrupt_headers_are_rejected_not_read() {
    let mut mem = mapping();
    Writer::new(View::new(&mut mem).unwrap(), 1280, 720, 1).unwrap();
    assert!(Reader::new(&mem).unwrap().format().is_ok());
    mem[O_WIDTH..O_WIDTH + 4].copy_from_slice(&60000u32.to_le_bytes()); // would read far past the mapping
    assert_eq!(Reader::new(&mem).unwrap().format().unwrap_err(), ReadError::Invalid);
    mem[O_WIDTH..O_WIDTH + 4].copy_from_slice(&1280u32.to_le_bytes());
    let small = Reader::new(&mem[..HEADER_BYTES + 100]).unwrap();
    assert_eq!(small.format().unwrap_err(), ReadError::Invalid); // slots don't fit this view
    assert_eq!(small.read_nv12(&mut [0; 10]).unwrap_err(), ReadError::Invalid);
}

#[test]
fn mapping_too_small_or_odd_size_refused() {
    let mut mem = vec![0u8; 1024 * 8];
    assert!(Writer::new(View::new(&mut mem).unwrap(), 1280, 720, 1).is_none());
    let mut big = mapping();
    assert!(Writer::new(View::new(&mut big).unwrap(), 1281, 720, 1).is_none());
    assert!(Writer::new(View::new(&mut big).unwrap(), 1920, 1080, 1).is_some());
}

#[test]
fn yuy2_conversion() {
    let nv12 = [10, 11, 12, 13, 20, 21, 22, 23, 100, 200, 101, 201]; // 4x2
    let mut out = [0u8; 16];
    assert!(nv12_to_yuy2(&nv12, 4, 2, &mut out));
    assert_eq!(out, [10, 100, 11, 200, 12, 101, 13, 201, 20, 100, 21, 200, 22, 101, 23, 201]);
}

#[test]
fn yuy2_of_four_rows_uses_the_chroma_row_of_each_pair() {
    // 2x4: two chroma rows.
    let nv12 = [1, 2, 3, 4, 5, 6, 7, 8, 90, 91, 92, 93];
    let mut out = [0u8; 16];
    assert!(nv12_to_yuy2(&nv12, 2, 4, &mut out));
    assert_eq!(out, [1, 90, 2, 91, 3, 90, 4, 91, 5, 92, 6, 93, 7, 92, 8, 93]);
    let mut wrong = [7u8; 15];
    assert!(!nv12_to_yuy2(&nv12, 2, 4, &mut wrong));
    assert_eq!(wrong, [7u8; 15]);
    assert!(!nv12_to_yuy2(&[0, 0, 0, 0], 1, 2, &mut [0u8; 4]));
}

#[test]
fn flat_frames_keep_a_byte_without_a_partner() {
    let mut out = [9u8; 7];
    fill_nv12(&mut out, 2, 2, 16, 128, 129);
    assert_eq!(out, [16, 16, 16, 16, 128, 129, 9]);
    let mut short = [9u8; 3];
    fill_nv12(&mut short, 2, 2, 16, 128, 129);
    assert_eq!(short, [16, 16, 16]);
}

#[test]
fn frames_go_round_the_slots_and_the_newest_is_read() {
    let mut mem = mapping();
    let mut w = Writer::new(View::new(&mut mem).unwrap(), 2, 2, 1).unwrap();
    let mut out = vec![0u8; 6];
    for n in 1..=7u8 {
        assert!(w.write_nv12(&[n; 6], n as i64 * 10, n as u64));
        let f = Reader::new(w.memory()).unwrap().read_nv12(&mut out).unwrap();
        assert_eq!((f.index, f.pts_100ns), (n as u64, n as i64 * 10));
        assert_eq!(out, [n; 6]);
    }
    assert!(!w.write_nv12(&[0; 5], 0, 0));
    assert!(!w.write_i420(&[0; 7], 0, 0));
    assert_eq!(Reader::new(w.memory()).unwrap().read_nv12(&mut out).unwrap().index, 7);
}

#[test]
fn a_slot_that_is_being_written_is_torn_and_a_wrong_buffer_is_refused() {
    let mut mem = mapping();
    {
        let mut w = Writer::new(View::new(&mut mem).unwrap(), 2, 2, 1).unwrap();
        assert!(w.write_nv12(&[5; 6], 1, 1));
        assert_eq!(Reader::new(w.memory()).unwrap().read_nv12(&mut [0; 5]).unwrap_err(), ReadError::BadOutput);
    }
    // Slot 1 starts behind the first slot: 16 + 6 bytes, rounded up to 64.
    let slot = HEADER_BYTES + 64;
    assert_eq!(mem[slot], 2);
    mem[slot] = 3;
    let mut out = [0u8; 6];
    assert_eq!(Reader::new(&mem).unwrap().read_nv12(&mut out).unwrap_err(), ReadError::Torn);
    assert_eq!(out, [0u8; 6]);
    assert!(copy_is_whole(2, 2) && !copy_is_whole(2, 4) && !copy_is_whole(3, 3));
}

#[test]
fn header_fields_are_where_the_layout_says() {
    let mut mem = mapping();
    {
        let mut w = Writer::new(View::new(&mut mem).unwrap(), 1280, 720, 0x01020304).unwrap();
        assert_eq!(w.format(), Format { width: 1280, height: 720, slot_bytes: 1382400 });
        assert_eq!(Reader::new(w.memory()).unwrap().state(), STATE_NO_SOURCE);
        w.set_state(STATE_LIVE);
        w.heartbeat(0x1122334455667788);
        assert_eq!(Reader::new(w.memory()).unwrap().state(), STATE_LIVE);
        assert_eq!(Reader::new(w.memory()).unwrap().heartbeat_age(5), 0);
    }
    assert_eq!(&mem[0..4], b"LNYF");
    assert_eq!(MAGIC.to_le_bytes(), *b"LNYF");
    assert_eq!(&mem[20..24], b"NV12");
    assert_eq!(&mem[40..44], &[4, 3, 2, 1]);
    assert_eq!(mem[O_STATE], 1);
    assert_eq!(&mem[O_HEARTBEAT..O_HEARTBEAT + 8], &[0x88, 0x77, 0x66, 0x55, 0x44, 0x33, 0x22, 0x11]);
    assert_eq!(mapping_bytes(), 9335488);
    assert!(View::new(&mut vec![0u8; HEADER_BYTES - 1]).is_none());
    assert!(Reader::new(&[0u8; 10]).is_none());
}

/// The header of a ring for frames of this size.
fn header(width: u32, height: u32) -> RawHeader {
    RawHeader {
        magic: MAGIC,
        version: VERSION,
        slots: SLOT_COUNT,
        width,
        height,
        format: FOURCC_NV12,
        stride_y: width,
        stride_uv: width,
        slot_bytes: nv12_bytes(width, height) as u64,
    }
}

/// A reader beside a writer never returns a torn frame: every frame is one constant byte value. The reader copies in
/// pieces, and the writer publishes up to four frames between any two of its steps.
#[test]
fn seqlock_never_returns_torn_frames() {
    let mut mem = mapping();
    let len = mem.len();
    let (w, h) = (640u32, 360u32);
    let bytes = nv12_bytes(w, h);
    let mut writer = Writer::new(View::new(&mut mem).unwrap(), w, h, 1).unwrap();
    let (mut n, mut chance) = (0u8, 1u32);
    let mut write_some = |writer: &mut Writer| {
        chance = chance.wrapping_mul(1664525).wrapping_add(1013904223);
        let frames = if (chance >> 16) % 8 == 0 { (chance >> 20) % 4 + 1 } else { 0 };
        for _ in 0..frames {
            n = n.wrapping_add(1);
            assert!(writer.write_nv12(&vec![n; bytes], n as i64, 0));
        }
    };
    let word = |m: &[u8], at: usize| u64::from_le_bytes(m[at..at + 8].try_into().unwrap());
    let mut out = vec![0u8; bytes];
    let (mut ok, mut torn) = (0, 0);
    while ok < 300 {
        write_some(&mut writer);
        let p = match place(&header(w, h), len, bytes, word(writer.memory(), O_WRITE_INDEX)) {
            Ok(p) => p,
            Err(e) => {
                assert_eq!(e, ReadError::Empty);
                continue;
            }
        };
        write_some(&mut writer);
        let copying = p.begin(word(writer.memory(), p.offset)).unwrap();
        write_some(&mut writer);
        let pts = word(writer.memory(), p.offset + 8) as i64;
        for piece in 0..6 {
            write_some(&mut writer);
            let at = piece * bytes / 6..(piece + 1) * bytes / 6;
            let from = p.offset + SLOT_HEADER;
            out[at.clone()].copy_from_slice(&writer.memory()[from + at.start..from + at.end]);
        }
        write_some(&mut writer);
        match copying.finish(word(writer.memory(), p.offset), pts) {
            Ok(f) => {
                assert!(out.iter().all(|&b| b == out[0]), "torn frame returned");
                assert_eq!(out[0] as i64, f.pts_100ns);
                ok += 1;
            }
            Err(ReadError::Torn) => torn += 1,
            Err(e) => panic!("{e:?}"),
        }
    }
    assert!(torn > 0);
    println!("{ok} good reads, {torn} retries");
}

#[test]
fn a_copy_that_a_writer_overtook_is_thrown_away() {
    let mut mem = mapping();
    let len = mem.len();
    let mut w = Writer::new(View::new(&mut mem).unwrap(), 2, 2, 1).unwrap();
    assert!(w.write_nv12(&[1; 6], 10, 1));
    let h = header(2, 2);
    let p = place(&h, len, 6, 1).unwrap();
    assert_eq!((p.offset, p.slot_bytes), (HEADER_BYTES + 64, 6));
    let seq = |w: &Writer| u64::from_le_bytes(w.memory()[p.offset..p.offset + 8].try_into().unwrap());
    let copying = p.begin(seq(&w)).unwrap();
    assert_eq!(copying.finish(seq(&w), 10), Ok(Frame { index: 1, pts_100ns: 10 }));
    // Two more frames go to the other slots; the one after that takes this slot again.
    assert!(w.write_nv12(&[2; 6], 20, 2) && w.write_nv12(&[3; 6], 30, 3));
    assert!(copying.finish(seq(&w), 10).is_ok());
    assert!(w.write_nv12(&[4; 6], 40, 4));
    assert_eq!(copying.finish(seq(&w), 10), Err(ReadError::Torn));
    // What else ends a read, step by step.
    assert_eq!(p.begin(3), Err(ReadError::Torn));
    assert_eq!(place(&h, len, 6, 0), Err(ReadError::Empty));
    assert_eq!(place(&h, len, 5, 1), Err(ReadError::BadOutput));
    assert_eq!(place(&RawHeader { width: 4, ..h }, len, 6, 1), Err(ReadError::Invalid));
    assert_eq!(place(&h, HEADER_BYTES, 6, 1), Err(ReadError::Invalid));
}

#[test]
fn every_frame_of_a_writers_life_reads_back() {
    let mut mem = mapping();
    let mut w = Writer::new(View::new(&mut mem).unwrap(), 2, 2, 1).unwrap();
    w.set_state(STATE_LIVE);
    let mut out = [0u8; 6];
    for n in 1..20u8 {
        assert!(!w.write_nv12(&[n; 5], 0, 0) && !w.write_i420(&[n; 7], 0, 0));
        assert!(w.write_i420(&[n, n, n, n, 50, 60], n as i64, n as u64));
        w.heartbeat(100 + n as u64);
        let r = Reader::new(w.memory()).unwrap();
        assert_eq!(r.read_nv12(&mut out), Ok(Frame { index: n as u64, pts_100ns: n as i64 }));
        assert_eq!(out, [n, n, n, n, 50, 60]);
        assert_eq!((r.state(), r.heartbeat_age(100 + n as u64)), (STATE_LIVE, 0));
        assert_eq!(r.format().unwrap(), Format { width: 2, height: 2, slot_bytes: 6 });
    }
}
