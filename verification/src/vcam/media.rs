//! The formats that the camera's pin offers: one size, 1280 by 720, in NV12 and YUY2.
use vstd::prelude::*;

verus! {

pub const WIDTH: i32 = 1280;

pub const HEIGHT: i32 = 720;

/// A GUID as one number, its text's digits in order.
pub type Guid = u128;

/// The GUID that stands for "any" in a media type.
pub const ANY: Guid = 0;

pub const MEDIATYPE_VIDEO: Guid = 0x7364_6976_0000_0010_8000_00AA_0038_9B71;

pub const MEDIASUBTYPE_NV12: Guid = 0x3231_564E_0000_0010_8000_00AA_0038_9B71;

pub const MEDIASUBTYPE_YUY2: Guid = 0x3259_5559_0000_0010_8000_00AA_0038_9B71;

pub const FORMAT_VIDEO_INFO: Guid = 0x0558_9F80_C356_11CE_BF01_00AA_0055_595A;

/// A pixel format.
#[derive(Clone, Copy, Debug, PartialEq, Eq, Structural)]
pub enum Pixel {
    Nv12,
    Yuy2,
}

/// How many formats there are.
pub const FORMAT_COUNT: usize = 2;

/// The `i`th format.
pub open spec fn format_at(i: int) -> Option<Pixel> {
    if i == 0 {
        Some(Pixel::Nv12)
    } else if i == 1 {
        Some(Pixel::Yuy2)
    } else {
        None
    }
}

/// The formats in order, by place.
pub fn formats(i: i32) -> (p: Option<Pixel>)
    ensures
        p == format_at(i as int),
{
    if i == 0 {
        Some(Pixel::Nv12)
    } else if i == 1 {
        Some(Pixel::Yuy2)
    } else {
        None
    }
}

/// The format that is not `p`.
pub open spec fn other_of(p: Pixel) -> Pixel {
    match p {
        Pixel::Nv12 => Pixel::Yuy2,
        Pixel::Yuy2 => Pixel::Nv12,
    }
}

pub fn other(p: Pixel) -> (r: Pixel)
    ensures
        r == other_of(p),
{
    match p {
        Pixel::Nv12 => Pixel::Yuy2,
        Pixel::Yuy2 => Pixel::Nv12,
    }
}

impl Pixel {
    /// The media subtype.
    #[verifier::allow_in_spec]
    pub fn subtype(self) -> Guid
        returns
            (match self {
                Pixel::Nv12 => MEDIASUBTYPE_NV12,
                Pixel::Yuy2 => MEDIASUBTYPE_YUY2,
            }),
    {
        match self {
            Pixel::Nv12 => MEDIASUBTYPE_NV12,
            Pixel::Yuy2 => MEDIASUBTYPE_YUY2,
        }
    }

    /// The four characters of the format's name, the first in the lowest byte.
    #[verifier::allow_in_spec]
    pub fn fourcc(self) -> u32
        returns
            (match self {
                Pixel::Nv12 => 0x3231_564Eu32,
                Pixel::Yuy2 => 0x3259_5559u32,
            }),
    {
        match self {
            Pixel::Nv12 => 0x3231_564E,
            Pixel::Yuy2 => 0x3259_5559,
        }
    }

    /// Bits to a pixel.
    #[verifier::allow_in_spec]
    pub fn bits(self) -> u16
        returns
            (match self {
                Pixel::Nv12 => 12u16,
                Pixel::Yuy2 => 16u16,
            }),
    {
        match self {
            Pixel::Nv12 => 12,
            Pixel::Yuy2 => 16,
        }
    }

    /// Bytes in one picture.
    pub fn image_size(self) -> (n: usize)
        ensures
            n == WIDTH * HEIGHT * self.bits() as int / 8,
    {
        match self {
            Pixel::Nv12 => 1_382_400,
            Pixel::Yuy2 => 1_843_200,
        }
    }
}

/// The numbers of a video format block.
#[derive(Clone, Copy, Debug, PartialEq, Eq, Structural)]
pub struct VideoInfo {
    /// Bits per second.
    pub bit_rate: u32,
    /// In 100 ns units.
    pub frame_time: i64,
    pub width: i32,
    pub height: i32,
    pub planes: u16,
    pub bit_count: u16,
    pub compression: u32,
    pub image_size: u32,
}

/// The format block of a pixel format at 30 frames a second.
pub fn video_info(p: Pixel) -> (v: VideoInfo)
    ensures
        v.bit_rate == WIDTH * HEIGHT * p.bits() as int * 30,
        v.frame_time == crate::vcam::FRAME_TIME,
        v.width == WIDTH,
        v.height == HEIGHT,
        v.planes == 1,
        v.bit_count == p.bits(),
        v.compression == p.fourcc(),
        v.image_size == WIDTH * HEIGHT * p.bits() as int / 8,
{
    let n: u32 = p.image_size() as u32;
    VideoInfo {
        bit_rate: n * 8 * 30,
        frame_time: crate::vcam::FRAME_TIME,
        width: WIDTH,
        height: HEIGHT,
        planes: 1,
        bit_count: p.bits(),
        compression: p.fourcc(),
        image_size: n,
    }
}

/// What the pin's stream can do in a format: one size at one rate, nothing cropped or scaled.
#[derive(Clone, Copy, Debug, PartialEq, Eq, Structural)]
pub struct StreamCaps {
    pub pixel: Pixel,
    /// Every size in the block: input, cropping and output, the least and the greatest.
    pub width: i32,
    pub height: i32,
    /// Every granularity and alignment in the block.
    pub step: i32,
    /// Both intervals in the block, in 100 ns units.
    pub frame_interval: i64,
    /// Both rates in the block.
    pub bits_per_second: i32,
}

/// What the stream can do in the `i`th format; nothing where there is none.
pub fn stream_caps(i: i32) -> (r: Option<StreamCaps>)
    ensures
        r is Some <==> format_at(i as int) is Some,
        r matches Some(c) ==> {
            &&& format_at(i as int) == Some(c.pixel)
            &&& c.width == WIDTH && c.height == HEIGHT
            &&& c.step == 1
            &&& c.frame_interval == crate::vcam::FRAME_TIME
            &&& c.bits_per_second == WIDTH * HEIGHT * c.pixel.bits() as int * 30
        },
{
    match formats(i) {
        Some(pixel) => Some(
            StreamCaps {
                pixel,
                width: WIDTH,
                height: HEIGHT,
                step: 1,
                frame_interval: crate::vcam::FRAME_TIME,
                bits_per_second: video_info(pixel).bit_rate as i32,
            },
        ),
        None => None,
    }
}

/// A media type as it comes from a graph: `video` is the size in its format block, where it has a whole one.
#[derive(Clone, Copy, Debug)]
pub struct MediaType {
    pub major: Guid,
    pub subtype: Guid,
    pub format: Guid,
    pub video: Option<(i32, i32)>,
}

/// Which of our formats `mt` asks for. A type may leave things open; a size, where it gives one, has to be ours, a
/// negative height standing for a picture from top to bottom.
pub open spec fn matched(mt: MediaType) -> Option<Pixel> {
    let pixel = if mt.subtype == ANY || mt.subtype == MEDIASUBTYPE_NV12 {
        Some(Pixel::Nv12)
    } else if mt.subtype == MEDIASUBTYPE_YUY2 {
        Some(Pixel::Yuy2)
    } else {
        None
    };
    let size_fits = match mt.video {
        Some((w, h)) => w == WIDTH && (h == HEIGHT || h == -HEIGHT),
        None => true,
    };
    if mt.major != MEDIATYPE_VIDEO && mt.major != ANY {
        None
    } else if mt.format == FORMAT_VIDEO_INFO {
        if size_fits {
            pixel
        } else {
            None
        }
    } else if mt.format == ANY {
        pixel
    } else {
        None
    }
}

/// Which of our formats `mt` asks for; nothing where there is no type.
pub fn match_type(mt: Option<&MediaType>) -> (p: Option<Pixel>)
    ensures
        p == (match mt {
            Some(mt) => matched(*mt),
            None => None,
        }),
{
    let mt = match mt {
        Some(mt) => mt,
        None => {
            return None;
        },
    };
    if mt.major != MEDIATYPE_VIDEO && mt.major != ANY {
        return None;
    }
    let p = if mt.subtype == ANY || mt.subtype == MEDIASUBTYPE_NV12 {
        Pixel::Nv12
    } else if mt.subtype == MEDIASUBTYPE_YUY2 {
        Pixel::Yuy2
    } else {
        return None;
    };
    if mt.format == FORMAT_VIDEO_INFO {
        if let Some((w, h)) = mt.video {
            if w != WIDTH || (h != HEIGHT && h != -HEIGHT) {
                return None;
            }
        }
    } else if mt.format != ANY {
        return None;
    }
    Some(p)
}

/// The type that we offer for a format is one that asks for that format.
pub proof fn law_offered_types_match(p: Pixel)
    ensures
        matched(
            MediaType {
                major: MEDIATYPE_VIDEO,
                subtype: p.subtype(),
                format: FORMAT_VIDEO_INFO,
                video: Some((WIDTH, HEIGHT)),
            },
        ) == Some(p),
{
}

} // verus!
