//! Plain values shared across the bridge: pixel-layout tags, frame kinds,
//! receiver settings and source descriptors.
//!
//! The numeric codes are fixed by the NDI runtime's binary interface; every
//! conversion here states the exact code it reads or produces.

use vstd::prelude::*;
use vstd::std_specs::convert::FromSpecImpl;
use vstd::string::StringExecFns;

verus! {

/// The 32-bit tag whose four bytes, lowest first, are `a`, `b`, `c`, `d`.
pub open spec fn fourcc_code(a: u8, b: u8, c: u8, d: u8) -> int {
    a as int + (b as int) * 0x100 + (c as int) * 0x1_0000 + (d as int) * 0x100_0000
}

/// Builds a FourCC tag from the four bytes of its short name.
pub fn fourcc(a: u8, b: u8, c: u8, d: u8) -> (tag: u32)
    ensures
        tag as int == fourcc_code(a, b, c, d),
{
    let lo: u32 = a as u32 + (b as u32) * 0x100;
    let hi: u32 = c as u32 + (d as u32) * 0x100;
    lo + hi * 0x1_0000
}

// The tags the runtime uses, each the four letters of its name.
pub const FOURCC_UYVY: u32 = 0x5956_5955;

pub const FOURCC_UYVA: u32 = 0x4156_5955;

pub const FOURCC_I420: u32 = 0x3032_3449;

pub const FOURCC_NV12: u32 = 0x3231_564E;

pub const FOURCC_YV12: u32 = 0x3231_5659;

pub const FOURCC_BGRA: u32 = 0x4152_4742;

pub const FOURCC_BGRX: u32 = 0x5852_4742;

pub const FOURCC_RGBA: u32 = 0x4142_4752;

pub const FOURCC_RGBX: u32 = 0x5842_4752;

/// Each named tag is the little-endian packing of the ASCII letters of its name.
pub proof fn lemma_fourcc_tags_spell_their_names()
    ensures
        FOURCC_UYVY as int == fourcc_code(0x55, 0x59, 0x56, 0x59),
        FOURCC_UYVA as int == fourcc_code(0x55, 0x59, 0x56, 0x41),
        FOURCC_I420 as int == fourcc_code(0x49, 0x34, 0x32, 0x30),
        FOURCC_NV12 as int == fourcc_code(0x4E, 0x56, 0x31, 0x32),
        FOURCC_YV12 as int == fourcc_code(0x59, 0x56, 0x31, 0x32),
        FOURCC_BGRA as int == fourcc_code(0x42, 0x47, 0x52, 0x41),
        FOURCC_BGRX as int == fourcc_code(0x42, 0x47, 0x52, 0x58),
        FOURCC_RGBA as int == fourcc_code(0x52, 0x47, 0x42, 0x41),
        FOURCC_RGBX as int == fourcc_code(0x52, 0x47, 0x42, 0x58),
{
}

/// Pixel layout of a captured video frame.
#[derive(Debug, Clone, Copy, PartialEq, Eq, Structural)]
pub enum FourCCVideoType {
    UYVY,
    UYVA,
    I420,
    NV12,
    YV12,
    BGRA,
    BGRX,
    RGBA,
    RGBX,
    Unknown(u32),
}

impl FourCCVideoType {
    /// The layout a raw tag denotes; a tag outside the known set is kept as `Unknown`.
    pub open spec fn of_raw(v: u32) -> FourCCVideoType {
        if v == FOURCC_UYVY {
            FourCCVideoType::UYVY
        } else if v == FOURCC_UYVA {
            FourCCVideoType::UYVA
        } else if v == FOURCC_I420 {
            FourCCVideoType::I420
        } else if v == FOURCC_NV12 {
            FourCCVideoType::NV12
        } else if v == FOURCC_YV12 {
            FourCCVideoType::YV12
        } else if v == FOURCC_BGRA {
            FourCCVideoType::BGRA
        } else if v == FOURCC_BGRX {
            FourCCVideoType::BGRX
        } else if v == FOURCC_RGBA {
            FourCCVideoType::RGBA
        } else if v == FOURCC_RGBX {
            FourCCVideoType::RGBX
        } else {
            FourCCVideoType::Unknown(v)
        }
    }

    /// Packed layouts with four bytes per pixel.
    pub open spec fn is_rgb_family(self) -> bool {
        self == FourCCVideoType::BGRA || self == FourCCVideoType::BGRX
            || self == FourCCVideoType::RGBA || self == FourCCVideoType::RGBX
    }

    /// Planar 4:2:0 layouts.
    pub open spec fn is_planar_420(self) -> bool {
        self == FourCCVideoType::I420 || self == FourCCVideoType::YV12
            || self == FourCCVideoType::NV12
    }
}

impl From<u32> for FourCCVideoType {
    fn from(v: u32) -> (ret: Self) {
        if v == FOURCC_UYVY {
            FourCCVideoType::UYVY
        } else if v == FOURCC_UYVA {
            FourCCVideoType::UYVA
        } else if v == FOURCC_I420 {
            FourCCVideoType::I420
        } else if v == FOURCC_NV12 {
            FourCCVideoType::NV12
        } else if v == FOURCC_YV12 {
            FourCCVideoType::YV12
        } else if v == FOURCC_BGRA {
            FourCCVideoType::BGRA
        } else if v == FOURCC_BGRX {
            FourCCVideoType::BGRX
        } else if v == FOURCC_RGBA {
            FourCCVideoType::RGBA
        } else if v == FOURCC_RGBX {
            FourCCVideoType::RGBX
        } else {
            FourCCVideoType::Unknown(v)
        }
    }
}

impl FromSpecImpl<u32> for FourCCVideoType {
    open spec fn obeys_from_spec() -> bool {
        true
    }

    open spec fn from_spec(v: u32) -> Self {
        FourCCVideoType::of_raw(v)
    }
}

/// How much of a source's stream a receiver asks for.
#[derive(Debug, Clone, Copy, PartialEq, Eq, Structural)]
pub enum RecvBandwidth {
    MetadataOnly,
    AudioOnly,
    Lowest,
    Highest,
}

impl RecvBandwidth {
    /// The runtime's code for this bandwidth.
    pub open spec fn raw(self) -> i32 {
        match self {
            RecvBandwidth::MetadataOnly => -10i32,
            RecvBandwidth::AudioOnly => 10i32,
            RecvBandwidth::Lowest => 0i32,
            RecvBandwidth::Highest => 100i32,
        }
    }

    /// The runtime's code for this bandwidth.
    pub fn to_raw(self) -> (r: i32)
        ensures
            r == self.raw(),
    {
        match self {
            RecvBandwidth::MetadataOnly => -10,
            RecvBandwidth::AudioOnly => 10,
            RecvBandwidth::Lowest => 0,
            RecvBandwidth::Highest => 100,
        }
    }
}

/// Which pixel layouts a receiver would like frames delivered in.
#[derive(Debug, Clone, Copy, PartialEq, Eq, Structural)]
pub enum RecvColorFormat {
    BgrxBgra,
    UyvyBgra,
    RgbxRgba,
    UyvyRgba,
    Fastest,
    Best,
}

impl RecvColorFormat {
    /// The runtime's code for this colour format.
    pub open spec fn raw(self) -> i32 {
        match self {
            RecvColorFormat::BgrxBgra => 0i32,
            RecvColorFormat::UyvyBgra => 1i32,
            RecvColorFormat::RgbxRgba => 2i32,
            RecvColorFormat::UyvyRgba => 3i32,
            RecvColorFormat::Fastest => 100i32,
            RecvColorFormat::Best => 101i32,
        }
    }

    /// The runtime's code for this colour format.
    pub fn to_raw(self) -> (r: i32)
        ensures
            r == self.raw(),
    {
        match self {
            RecvColorFormat::BgrxBgra => 0,
            RecvColorFormat::UyvyBgra => 1,
            RecvColorFormat::RgbxRgba => 2,
            RecvColorFormat::UyvyRgba => 3,
            RecvColorFormat::Fastest => 100,
            RecvColorFormat::Best => 101,
        }
    }
}

/// What a capture call came back with.
#[derive(Debug, Clone, Copy, PartialEq, Eq, Structural)]
pub enum FrameType {
    /// The capture timed out with nothing to deliver.
    Nothing,
    Video,
    Audio,
    Metadata,
    Error,
    StatusChange,
    Unknown(i32),
}

impl FrameType {
    /// The frame kind a raw code denotes; other codes are kept as `Unknown`.
    pub open spec fn of_raw(v: i32) -> FrameType {
        if v == 0 {
            FrameType::Nothing
        } else if v == 1 {
            FrameType::Video
        } else if v == 2 {
            FrameType::Audio
        } else if v == 3 {
            FrameType::Metadata
        } else if v == 4 {
            FrameType::Error
        } else if v == 100 {
            FrameType::StatusChange
        } else {
            FrameType::Unknown(v)
        }
    }
}

impl From<i32> for FrameType {
    fn from(v: i32) -> (ret: Self) {
        if v == 0 {
            FrameType::Nothing
        } else if v == 1 {
            FrameType::Video
        } else if v == 2 {
            FrameType::Audio
        } else if v == 3 {
            FrameType::Metadata
        } else if v == 4 {
            FrameType::Error
        } else if v == 100 {
            FrameType::StatusChange
        } else {
            FrameType::Unknown(v)
        }
    }
}

impl FromSpecImpl<i32> for FrameType {
    open spec fn obeys_from_spec() -> bool {
        true
    }

    open spec fn from_spec(v: i32) -> Self {
        FrameType::of_raw(v)
    }
}

/// A source as seen on the network: its name is its identity, the URL a hint.
#[derive(Debug)]
pub struct Source {
    pub name: String,
    pub url: Option<String>,
}

/// The mathematical content of a [`Source`].
pub struct SourceView {
    pub name: Seq<char>,
    pub url: Option<Seq<char>>,
}

impl View for Source {
    type V = SourceView;

    open spec fn view(&self) -> SourceView {
        SourceView {
            name: self.name@,
            url: match self.url {
                Some(u) => Some(u@),
                None => None,
            },
        }
    }
}

impl Clone for Source {
    fn clone(&self) -> (copy: Self)
        ensures
            copy@ == self@,
    {
        let url = match &self.url {
            Some(u) => Some(u.clone()),
            None => None,
        };
        Source { name: self.name.clone(), url }
    }
}

impl Source {
    /// What a descriptor read off the wire denotes: a missing name is the
    /// empty name, and a missing or empty URL is no URL.
    pub open spec fn of_raw(name: Option<Seq<char>>, url: Option<Seq<char>>) -> SourceView {
        SourceView {
            name: match name {
                Some(n) => n,
                None => Seq::<char>::empty(),
            },
            url: match url {
                Some(u) => if u.len() == 0 {
                    None
                } else {
                    Some(u)
                },
                None => None,
            },
        }
    }

    /// Normalises a descriptor as the runtime hands it out.
    pub fn from_raw(name: Option<String>, url: Option<String>) -> (source: Source)
        ensures
            source@ == Source::of_raw(
                match name {
                    Some(n) => Some(n@),
                    None => None,
                },
                match url {
                    Some(u) => Some(u@),
                    None => None,
                },
            ),
    {
        let name = match name {
            Some(n) => n,
            None => String::new(),
        };
        let url = match url {
            Some(u) => {
                if u.as_str().unicode_len() == 0 {
                    None
                } else {
                    Some(u)
                }
            },
            None => None,
        };
        Source { name, url }
    }
}

} // verus!
