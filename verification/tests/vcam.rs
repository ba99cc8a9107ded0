//! The virtual cameras' decisions.
use lenny::framebuf::{mapping_bytes, nv12_bytes, nv12_of, Reader, View, Writer, DSHOW_FILTER_CLSID, MAPPING_NAME};
use lenny::vcam::filter::{
    check_buffers, fill_sample, filter_name, find_pin, property, read_property, type_at, wanted_properties, AllocatorProperties, Enumerator, Filter, Pace, Refusal,
    Running, AMPROPERTY_PIN_CATEGORY, AMPROPSETID_PIN, SAMPLE_NS,
};
use lenny::vcam::frames::{Frames, Retry, Show, PICTURE_BYTES};
use lenny::vcam::media::{
    formats, match_type, other, stream_caps, video_info, MediaType, Pixel, ANY, FORMAT_COUNT, FORMAT_VIDEO_INFO, MEDIASUBTYPE_NV12,
    MEDIASUBTYPE_YUY2, MEDIATYPE_VIDEO,
};
use lenny::vcam::mf::{packed, turn, MfRefusal, Source, StreamState};
use lenny::vcam::null::NullVirtualCamera;
use lenny::vcam::server::{class_object, instance, registered_keys, registration, Class, ServerRefusal};
use lenny::vcam::server::{FILTER_CLSID, SOURCE_CLSID};
use lenny::vcam::windows::{describe, friendly_name, is_real, mf_camera, MfCamera};
use lenny::vcam::{
    fall_back, frame_stamp, i420_size, open_best, opened, vcam, Best, FrameFormat, IVirtualCamera, FRAME_TIME,
};

#[test]
fn frames_have_one_and_a_half_bytes_a_pixel() {
    assert_eq!(vcam().frame_size(), 1280 * 720 * 3 / 2);
    assert_eq!(FrameFormat { width: 2, height: 2, fps: 1 }.frame_size(), 6);
    assert_eq!(i420_size(0, 7), 0);
    assert_eq!(frame_stamp(3), 999_999);
}

struct Fake {
    opens: bool,
    open: bool,
}

impl IVirtualCamera for Fake {
    fn opened_with(&self) -> Option<FrameFormat> {
        if self.open {
            Some(vcam())
        } else {
            None
        }
    }
    fn open(&mut self, format: FrameFormat) -> Result<(), String> {
        self.open = self.opens && format == vcam();
        if self.open {
            Ok(())
        } else {
            Err("busy".to_string())
        }
    }
    fn write_frame(&mut self, _frame: &[u8]) -> Result<(), String> {
        Ok(())
    }
    fn close(&mut self) {
        self.open = false;
    }
    fn is_real(&self) -> bool {
        true
    }
    fn describe(&self) -> String {
        "fake".to_string()
    }
}

#[test]
fn the_best_camera_is_one_that_opens() {
    assert!(matches!(open_best(Ok(Fake { opens: true, open: false }), vcam()), Best::Real(c) if c.open));
    assert_eq!(opened(5, Ok(())), Ok(5));
    assert_eq!(opened(5, Err("busy".to_string())), Err("busy".to_string()));
    assert!(matches!(fall_back(Ok(5), vcam()), Best::Real(5)));
}

fn null_of(best: Best<Fake>) -> NullVirtualCamera {
    match best {
        Best::Real(_) => panic!("a real camera"),
        Best::Null(n) => n,
    }
}

#[test]
fn without_a_real_camera_frames_are_counted() {
    assert_eq!(null_of(open_best(Ok(Fake { opens: false, open: false }), vcam())).describe(), "busy");
    let mut cam = null_of(open_best(Err("no device".to_string()), FrameFormat { width: 4, height: 2, fps: 2 }));
    assert!(!cam.is_real());
    assert_eq!(cam.describe(), "no device");
    assert!(cam.write_frame(&[0; 11]).is_err() && !cam.is_sample());
    for (n, sample) in [(1, true), (2, false), (3, true)] {
        assert!(cam.write_frame(&[0; 12]).is_ok());
        assert_eq!((cam.frames, cam.is_sample()), (n, sample));
    }
    cam.close();
    assert!(cam.write_frame(&[0; 12]).is_err());
    let huge = FrameFormat { width: u32::MAX, height: u32::MAX, fps: 30 };
    assert!(!huge.fits() && cam.open(huge).is_err());
    assert!(cam.open(vcam()).is_ok() && cam.frames == 0);
}

fn asks(subtype: u128, size: Option<(i32, i32)>) -> MediaType {
    MediaType { major: MEDIATYPE_VIDEO, subtype, format: FORMAT_VIDEO_INFO, video: size }
}

#[test]
fn filter_offers_a_capture_pin() {
    let filter = Filter::new();
    assert_eq!(Enumerator::new(1).next(1), (0, 1));
    assert_eq!(read_property(Some(AMPROPSETID_PIN), AMPROPERTY_PIN_CATEGORY, Some(16)), Ok(()));
    assert_eq!(FORMAT_COUNT, 2);
    for i in 0..2 {
        let p = formats(i).unwrap();
        let vih = video_info(p);
        assert_eq!((vih.width, vih.height), (1280, 720));
        assert!([MEDIASUBTYPE_NV12, MEDIASUBTYPE_YUY2].contains(&p.subtype()));
    }
    assert!(formats(2).is_none() && formats(-1).is_none());
    assert_eq!(filter.connect_order(None), Ok((Pixel::Nv12, Pixel::Yuy2)));
}

#[test]
fn the_pin_is_found_by_its_name() {
    assert_eq!(find_pin(Some("Capture")), Ok(()));
    assert_eq!(find_pin(None), Err(Refusal::Pointer));
    for id in ["", "capture", "Captur", "Capture "] {
        assert_eq!(find_pin(Some(id)), Err(Refusal::NotFound));
    }
}

#[test]
fn buffers_have_to_hold_a_picture() {
    let of = |buffer_bytes: i32| AllocatorProperties { buffers: 2, buffer_bytes, align: 1, prefix: 0 };
    assert_eq!(check_buffers(&of(1280 * 720 * 3 / 2), Pixel::Nv12), Ok(()));
    assert_eq!(check_buffers(&of(1280 * 720 * 3 / 2 - 1), Pixel::Nv12), Err(Refusal::Unexpected));
    assert_eq!(check_buffers(&of(1280 * 720 * 3 / 2), Pixel::Yuy2), Err(Refusal::Unexpected));
    assert_eq!(check_buffers(&of(1280 * 720 * 2), Pixel::Yuy2), Ok(()));
}

#[test]
fn a_filters_name_is_cut_and_ends_in_zeros() {
    let short = filter_name(&[76, 101]);
    assert_eq!((short.len(), short[0], short[1], short[2]), (128, 76, 101, 0));
    let long = filter_name(&[7; 200]);
    assert!(long.len() == 128 && long[..127].iter().all(|u| *u == 7) && long[127] == 0);
}

#[test]
fn filter_streams_in_a_graph() {
    let mut f = Filter::new();
    f.connected_with(Pixel::Yuy2);
    assert!(f.run(5000)); // the streaming thread starts
    assert_eq!(f.state, Running::Running);
    assert_eq!(f.sample_times(Some(6000)), Some((1000, 1000 + FRAME_TIME)));
    assert_eq!(f.sample_times(Some(0)), Some((0, FRAME_TIME)));
    assert_eq!(f.sample_times(None), None);
    assert_eq!(f.disconnect(), Err(Refusal::NotStopped));
    assert!(!f.pause() && f.streaming && f.sample_times(Some(1)).is_none());
    assert!(f.stop());
    assert!(!f.streaming && f.state == Running::Stopped);
    assert_eq!(f.connection_type(), Ok(Pixel::Yuy2));
    assert_eq!(f.disconnect(), Ok(()));
    assert_eq!(f.connection_type(), Err(Refusal::NotConnected));
    assert!(!f.pause()); // nothing to stream to
}

#[test]
fn types_are_matched_or_refused() {
    assert_eq!(match_type(None), None);
    assert_eq!(match_type(Some(&asks(MEDIASUBTYPE_YUY2, Some((1280, -720))))), Some(Pixel::Yuy2));
    assert_eq!(match_type(Some(&asks(ANY, None))), Some(Pixel::Nv12));
    assert_eq!(match_type(Some(&asks(MEDIASUBTYPE_NV12, Some((1920, 1080))))), None);
    assert_eq!(match_type(Some(&asks(7, None))), None);
    assert_eq!(match_type(Some(&MediaType { major: 7, ..asks(ANY, None) })), None);
    assert_eq!(match_type(Some(&MediaType { format: 7, ..asks(ANY, None) })), None);
    assert_eq!(match_type(Some(&MediaType { format: ANY, ..asks(ANY, Some((1, 1))) })), Some(Pixel::Nv12));
    assert_eq!((Pixel::Nv12.image_size(), Pixel::Yuy2.image_size()), (1280 * 720 * 3 / 2, 1280 * 720 * 2));
    assert_eq!(Pixel::Nv12.fourcc(), u32::from_le_bytes(*b"NV12"));
    assert_eq!(Pixel::Yuy2.fourcc(), u32::from_le_bytes(*b"YUY2"));
    assert_eq!(video_info(Pixel::Yuy2).bit_rate, 1280 * 720 * 16 * 30);
    assert_eq!(other(Pixel::Yuy2), Pixel::Nv12);

    let mut f = Filter::new();
    assert_eq!(f.set_format(Some(&asks(7, None))), Err(Refusal::InvalidMediaType));
    assert_eq!(f.set_format(Some(&asks(MEDIASUBTYPE_YUY2, None))), Ok(()));
    assert_eq!(f.connect_order(None), Ok((Pixel::Yuy2, Pixel::Nv12)));
    assert_eq!(f.connect_order(Some(&asks(MEDIASUBTYPE_NV12, None))), Ok((Pixel::Nv12, Pixel::Nv12)));
    assert_eq!(f.connect_order(Some(&asks(7, None))), Err(Refusal::NoAcceptableTypes));
    f.connected_with(Pixel::Nv12);
    assert_eq!(f.set_format(Some(&asks(MEDIASUBTYPE_YUY2, None))), Err(Refusal::NotStopped));
    assert_eq!(f.connect_order(None), Err(Refusal::AlreadyConnected));
}

#[test]
fn the_pin_tells_its_category_only() {
    assert_eq!(property(None, 0), Err(Refusal::SetUnsupported));
    assert_eq!(property(Some(1), 0), Err(Refusal::SetUnsupported));
    assert_eq!(property(Some(AMPROPSETID_PIN), 1), Err(Refusal::IdUnsupported));
    assert_eq!(property(Some(AMPROPSETID_PIN), 0), Ok(()));
    assert_eq!(read_property(Some(AMPROPSETID_PIN), 0, Some(15)), Err(Refusal::Pointer));
    assert_eq!(read_property(Some(AMPROPSETID_PIN), 0, None), Err(Refusal::Pointer));
    let none = AllocatorProperties { buffers: 0, buffer_bytes: 0, align: 0, prefix: 8 };
    let want = wanted_properties(&none, 100);
    assert_eq!(want, AllocatorProperties { buffers: 2, buffer_bytes: 100, align: 1, prefix: 8 });
}

#[test]
fn enumerators_stop_at_the_end() {
    let mut e = Enumerator::new(2);
    assert_eq!(e.next(1), (0, 1));
    assert_eq!(e.next(5), (1, 1));
    assert_eq!(e.next(1).1, 0);
    e.reset();
    assert!(e.skip(2) && !e.skip(1));
    assert_eq!(e.next(1).1, 0);
    assert_eq!(type_at(Pixel::Yuy2, 1), Some(Pixel::Nv12));
    assert_eq!(type_at(Pixel::Yuy2, 2), None);
}

#[test]
fn a_thread_that_fell_behind_skips_ahead() {
    let mut p = Pace { n: 1 };
    assert_eq!(p.wait(0), SAMPLE_NS);
    assert_eq!(p.wait(SAMPLE_NS), 0);
    assert_eq!(p.n, 1);
    assert_eq!(p.wait(10 * SAMPLE_NS + 5), 0);
    assert_eq!(p.n, 10);
    p.delivered();
    assert_eq!(p.n, 11);
}

#[test]
fn mf_source_delivers_samples() {
    let mut s = Source::new();
    assert_eq!(s.request_sample(), Err(MfRefusal::InvalidRequest));
    assert_eq!(s.stream(0), Ok(()));
    assert_eq!(s.stream(1), Err(MfRefusal::InvalidStreamNumber));
    assert_eq!(s.start(), Ok(true));
    assert_eq!(s.start(), Ok(false));
    // Three samples, requested at once: paced to 30 fps.
    let mut next = 0;
    let mut now = 0;
    for _ in 0..3 {
        assert_eq!(s.request_sample(), Ok(()));
        let (wait, then) = turn(next, now);
        now += wait;
        next = then;
        assert_eq!(nv12_bytes(1280, 720), 1280 * 720 * 3 / 2);
    }
    assert!(now >= 60_000_000, "paced to 30 fps");
    assert_eq!(s.pause(), Err(MfRefusal::InvalidStateTransition));
    assert_eq!(s.stop(), Ok(true));
    assert_eq!(s.set_stream_state(StreamState::Paused), Err(MfRefusal::InvalidStateTransition));
    assert_eq!(s.set_stream_state(StreamState::Running), Ok(true));
    assert_eq!(s.set_stream_state(StreamState::Stopped), Ok(true));
    assert!(s.shutdown() && !s.shutdown());
    assert_eq!(s.check(), Err(MfRefusal::Shutdown));
    assert_eq!(s.start(), Err(MfRefusal::Shutdown));
    assert_eq!(packed(1280, 720), (1280u64 << 32) | 720);
}

#[test]
fn cameras_show_the_ring_then_hold_then_the_placeholder() {
    let mut mem = vec![0u8; mapping_bytes()];
    {
        let view = View::new(&mut mem).unwrap();
        let mut w = Writer::new(view, 1280, 720, 1).unwrap();
        assert!(w.write_i420(&vec![7u8; 1280 * 720 * 3 / 2], 0, 10_000));
    }
    let mut f = Frames::new();
    assert_eq!(f.next(None, 10_000, 0), Show::Placeholder);
    let r = Reader::new(&mem).unwrap();
    assert_eq!(f.next(Some(&r), 10_500, 1_000_000), Show::Live);
    assert!(f.live.len() == PICTURE_BYTES && f.live[0] == 7);
    // The heartbeat is a second old: the last frame is held for half a second.
    assert_eq!(f.next(Some(&r), 11_000, 1_499_999), Show::Live);
    assert_eq!(f.next(Some(&r), 11_000, 1_500_000), Show::Placeholder);
    f.fault();
    assert_eq!(f.next(Some(&r), 10_500, 1_600_000), Show::Placeholder);
    let mut retry = Retry { next_try: 0 };
    assert!(retry.due(false, 5) && !retry.due(false, 6) && retry.due(false, 1_000_005));
    assert!(!retry.due(true, 9_000_000));
}

#[test]
fn colours_are_put_side_by_side() {
    assert_eq!(nv12_of(&[1, 2, 3, 4, 5, 6, 7, 8, 10, 11, 20, 21], 4, 2), vec![
        1, 2, 3, 4, 5, 6, 7, 8, 10, 20, 11, 21
    ]);
}

#[test]
fn the_windows_camera_describes_itself() {
    assert_eq!(mf_camera(false, true), MfCamera::NoGlobalRing);
    assert_eq!(mf_camera(true, false), MfCamera::NotRegistered);
    assert_eq!(mf_camera(true, true), MfCamera::Possible);
    assert!(MfCamera::NotRegistered.refusal().starts_with("MF camera not registered"));
    assert!(is_real(true, true) && !is_real(false, true) && !is_real(true, false));
    assert_eq!(
        describe(true, true, "MF camera \"Lenny\" on"),
        "shared frames in Global\\; DirectShow \"Lenny (Classic)\" registered; MF camera \"Lenny\" on"
    );
    assert_eq!((friendly_name(true), friendly_name(false)), ("Lenny (Classic)", "Lenny"));
    assert_eq!(MAPPING_NAME, "Global\\LennyFrames_v1");
    assert_eq!(DSHOW_FILTER_CLSID.len(), 38);
}

#[test]
fn samples_are_filled_in_the_pins_format() {
    let mut picture = vec![0u8; PICTURE_BYTES];
    picture[0] = 1;
    picture[1] = 2;
    picture[1280 * 720] = 3;
    picture[1280 * 720 + 1] = 4;
    let mut sample = vec![9u8; PICTURE_BYTES + 2];
    assert!(fill_sample(Pixel::Nv12, &picture, &mut sample));
    assert_eq!(&sample[..PICTURE_BYTES], &picture[..]);
    assert_eq!(&sample[PICTURE_BYTES..], &[9, 9]);
    let mut sample = vec![9u8; 1280 * 720 * 2];
    assert!(fill_sample(Pixel::Yuy2, &picture, &mut sample));
    assert_eq!(&sample[..4], &[1, 3, 2, 4]);
    let mut short = vec![9u8; 1280 * 720 * 2 - 1];
    assert!(!fill_sample(Pixel::Yuy2, &picture, &mut short));
    assert!(short.iter().all(|b| *b == 9));
}

#[test]
fn the_stream_does_one_thing_in_each_format() {
    let c = stream_caps(1).unwrap();
    assert_eq!((c.pixel, c.width, c.height, c.step, c.frame_interval), (Pixel::Yuy2, 1280, 720, 1, FRAME_TIME));
    assert_eq!(c.bits_per_second, 1280 * 720 * 16 * 30);
    assert!(stream_caps(2).is_none() && stream_caps(-1).is_none());
}

#[test]
fn the_dll_makes_two_classes() {
    assert_eq!(class_object(true, FILTER_CLSID), Ok(Class::Filter));
    assert_eq!(class_object(true, SOURCE_CLSID), Ok(Class::Source));
    assert_eq!(class_object(true, 1), Err(ServerRefusal::ClassNotAvailable));
    assert_eq!(class_object(false, FILTER_CLSID), Err(ServerRefusal::Pointer));
    assert_eq!(instance(true, false), Ok(()));
    assert_eq!(instance(true, true), Err(ServerRefusal::NoAggregation));
    assert_eq!(instance(false, true), Err(ServerRefusal::Pointer));
}

#[test]
fn unregistering_leaves_nothing() {
    let dll = "C:\\lenny.dll";
    let written = registration(dll, true);
    let text: Vec<(&str, &str, &str)> =
        written.iter().map(|e| (e.key.as_str(), e.name.as_str(), e.value.as_str())).collect();
    let filter = "CLSID\\{BEEEF45F-D1F1-4A35-8F7D-17E756BC2046}";
    assert_eq!(text[0], (filter, "", "Lenny (Classic)"));
    assert_eq!(text[1], (format!("{filter}\\InprocServer32").as_str(), "", dll));
    assert_eq!((text[2].1, text[2].2), ("ThreadingModel", "Both"));
    assert_eq!(text[3].2, "Lenny");
    assert_eq!(text.len(), 6);
    let (a, b) = registered_keys();
    assert!(text.iter().all(|e| e.0.starts_with(&a) || e.0.starts_with(&b)));
}
