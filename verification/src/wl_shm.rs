//! shared memory support
//!
//! A singleton global object that provides support for shared
//! memory.
//!
//! Clients can create wl_shm_pool objects using the create_pool
//! request.
//!
//! On binding the wl_shm object one or more format events
//! are emitted to inform clients about the valid pixel formats
//! that can be used for buffers.
//!
#![allow(non_camel_case_types)]
use vstd::prelude::*;
use crate::objects::{Dyn, Object};
use crate::wire::{u32_wire, write_at, flag_names, names_of, join_names, join_text, Codec, Decoded, Dsr, Fd, Ser, WireEnum};
use vstd::std_specs::convert::{FromSpecImpl, TryFromSpecImpl};
use vstd::std_specs::ops::{BitAndSpec, BitAndSpecImpl, BitOrSpec, BitOrSpecImpl};
use core::num::TryFromIntError;

pub mod request;
pub mod event;

verus! {

pub const NAME: &'static str = "wl_shm";

pub const VERSION: u32 = 1;

/// wl_shm error values
///
/// These errors can be emitted in response to wl_shm requests.
///
#[derive(Debug, Clone, Copy, PartialEq, Eq, Hash)]
pub enum error {
    /// buffer format is not known
    invalid_format,
    /// invalid size or stride during pool or buffer creation
    invalid_stride,
    /// mmapping the file descriptor failed
    invalid_fd,
}

impl WireEnum for error {
    open spec fn to_wire(self) -> u32 {
        match self {
            error::invalid_format => 0,
            error::invalid_stride => 1,
            error::invalid_fd => 2,
        }
    }

    open spec fn of_wire(v: u32) -> Option<error> {
        match v {
            0 => Some(error::invalid_format),
            1 => Some(error::invalid_stride),
            2 => Some(error::invalid_fd),
            _ => None,
        }
    }

    proof fn lemma_wire_enum(self, v: u32) {
    }
}

impl error {
    /// The word that stands for the entry.
    fn to_u32(self) -> (r: u32)
        ensures
            r == self.to_wire(),
    {
        match self {
            error::invalid_format => 0,
            error::invalid_stride => 1,
            error::invalid_fd => 2,
        }
    }

    /// The entry that a word stands for, if any.
    fn from_u32(v: u32) -> (r: Option<error>)
        ensures
            r == error::of_wire(v),
    {
        match v {
            0 => Some(error::invalid_format),
            1 => Some(error::invalid_stride),
            2 => Some(error::invalid_fd),
            _ => None,
        }
    }
}

impl From<error> for u32 {
    fn from(v: error) -> (r: u32) {
        v.to_u32()
    }
}

impl FromSpecImpl<error> for u32 {
    open spec fn obeys_from_spec() -> bool {
        true
    }

    open spec fn from_spec(v: error) -> u32 {
        v.to_wire()
    }
}

impl TryFrom<u32> for error {
    type Error = TryFromIntError;

    fn try_from(v: u32) -> (r: Result<error, TryFromIntError>) {
        match error::from_u32(v) {
            Some(e) => Ok(e),
            None => match u32::try_from(-1i32) {
                Ok(_) => {
                    assert(false);
                    Ok(error::invalid_format)
                },
                Err(e) => Err(e),
            },
        }
    }
}

impl TryFromSpecImpl<u32> for error {
    open spec fn obeys_try_from_spec() -> bool {
        true
    }

    open spec fn try_from_spec(v: u32) -> Result<error, TryFromIntError> {
        match error::of_wire(v) {
            Some(e) => Ok(e),
            None => Err(arbitrary()),
        }
    }
}

impl Ser for error {
    open spec fn ser_ok(&self) -> bool {
        true
    }

    open spec fn ser_bytes(&self) -> Seq<u8> {
        u32_wire(self.to_wire())
    }

    open spec fn ser_fds(&self) -> Seq<Fd> {
        Seq::empty()
    }

    fn wire_len(&self) -> (n: usize) {
        4
    }

    fn checked_len(&self) -> (r: Option<usize>) {
        Some(4)
    }

    open spec fn ser_fits(&self, cap: int) -> bool {
        true
    }

    fn serialize(self, buf: &mut [u8], fds: &mut Vec<Fd>) -> (r: Result<usize, &'static str>) {
        self.to_u32().serialize(buf, fds)
    }

    proof fn lemma_fits(&self, cap: int) {
    }
}

impl DeepView for error {
    type V = error;

    open spec fn deep_view(&self) -> error {
        *self
    }
}

impl Dsr for error {
    open spec fn dsr_spec(buf: Seq<u8>, fds: Seq<Fd>) -> Decoded<error> {
        match u32::dsr_spec(buf, fds) {
            Decoded::Value(i, n, left) => match error::of_wire(i) {
                Some(v) => Decoded::Value(v, n, left),
                None => Decoded::Failure("invalid value for error", left),
            },
            Decoded::Failure(e, left) => Decoded::Failure(e, left),
            Decoded::Undefined => Decoded::Undefined,
        }
    }

    fn try_deserialize(buf: &[u8], fds: &mut Vec<Fd>) -> (r: Option<Result<(error, usize), &'static str>>) {
        let (i, n) = match u32::try_deserialize(buf, fds) {
            Some(Ok(p)) => p,
            Some(Err(e)) => return Some(Err(e)),
            None => return None,
        };
        match error::from_u32(i) {
            Some(v) => Some(Ok((v, n))),
            None => Some(Err("invalid value for error")),
        }
    }
}

impl Codec for error {
    open spec fn rt_ok(&self) -> bool {
        true
    }

    proof fn lemma_roundtrip(&self, tail: Seq<u8>, base: Seq<Fd>) {
        self.to_wire().lemma_roundtrip(tail, base);
        self.lemma_wire_enum(0);
    }
}
impl error {
    /// The protocol's word for each entry, and no other word names an entry.
    pub proof fn lemma_wire_values()
        ensures
            error::invalid_format.to_wire() == 0,
            error::invalid_stride.to_wire() == 1,
            error::invalid_fd.to_wire() == 2,
            error::of_wire(0) == Some(error::invalid_format),
            error::of_wire(1) == Some(error::invalid_stride),
            error::of_wire(2) == Some(error::invalid_fd),
            forall|v: u32| #[trigger] error::of_wire(v) is Some ==> (v == 0 || v == 1 || v == 2),
    {
    }
}


/// pixel formats
///
/// This describes the memory layout of an individual pixel.
///
/// All renderers should support argb8888 and xrgb8888 but any other
/// formats are optional and may not be supported by the particular
/// renderer in use.
///
/// The drm format codes match the macros defined in drm_fourcc.h, except
/// argb8888 and xrgb8888. The formats actually supported by the compositor
/// will be reported by the format event.
///
/// For all wl_shm formats and unless specified in another protocol
/// extension, pre-multiplied alpha is used for pixel values.
///
#[derive(Debug, Clone, Copy, PartialEq, Eq, Hash)]
pub enum format {
    /// 32-bit ARGB format, [31:0] A:R:G:B 8:8:8:8 little endian
    argb8888,
    /// 32-bit RGB format, [31:0] x:R:G:B 8:8:8:8 little endian
    xrgb8888,
    /// 8-bit color index format, [7:0] C
    c8,
    /// 8-bit RGB format, [7:0] R:G:B 3:3:2
    rgb332,
    /// 8-bit BGR format, [7:0] B:G:R 2:3:3
    bgr233,
    /// 16-bit xRGB format, [15:0] x:R:G:B 4:4:4:4 little endian
    xrgb4444,
    /// 16-bit xBGR format, [15:0] x:B:G:R 4:4:4:4 little endian
    xbgr4444,
    /// 16-bit RGBx format, [15:0] R:G:B:x 4:4:4:4 little endian
    rgbx4444,
    /// 16-bit BGRx format, [15:0] B:G:R:x 4:4:4:4 little endian
    bgrx4444,
    /// 16-bit ARGB format, [15:0] A:R:G:B 4:4:4:4 little endian
    argb4444,
    /// 16-bit ABGR format, [15:0] A:B:G:R 4:4:4:4 little endian
    abgr4444,
    /// 16-bit RBGA format, [15:0] R:G:B:A 4:4:4:4 little endian
    rgba4444,
    /// 16-bit BGRA format, [15:0] B:G:R:A 4:4:4:4 little endian
    bgra4444,
    /// 16-bit xRGB format, [15:0] x:R:G:B 1:5:5:5 little endian
    xrgb1555,
    /// 16-bit xBGR 1555 format, [15:0] x:B:G:R 1:5:5:5 little endian
    xbgr1555,
    /// 16-bit RGBx 5551 format, [15:0] R:G:B:x 5:5:5:1 little endian
    rgbx5551,
    /// 16-bit BGRx 5551 format, [15:0] B:G:R:x 5:5:5:1 little endian
    bgrx5551,
    /// 16-bit ARGB 1555 format, [15:0] A:R:G:B 1:5:5:5 little endian
    argb1555,
    /// 16-bit ABGR 1555 format, [15:0] A:B:G:R 1:5:5:5 little endian
    abgr1555,
    /// 16-bit RGBA 5551 format, [15:0] R:G:B:A 5:5:5:1 little endian
    rgba5551,
    /// 16-bit BGRA 5551 format, [15:0] B:G:R:A 5:5:5:1 little endian
    bgra5551,
    /// 16-bit RGB 565 format, [15:0] R:G:B 5:6:5 little endian
    rgb565,
    /// 16-bit BGR 565 format, [15:0] B:G:R 5:6:5 little endian
    bgr565,
    /// 24-bit RGB format, [23:0] R:G:B little endian
    rgb888,
    /// 24-bit BGR format, [23:0] B:G:R little endian
    bgr888,
    /// 32-bit xBGR format, [31:0] x:B:G:R 8:8:8:8 little endian
    xbgr8888,
    /// 32-bit RGBx format, [31:0] R:G:B:x 8:8:8:8 little endian
    rgbx8888,
    /// 32-bit BGRx format, [31:0] B:G:R:x 8:8:8:8 little endian
    bgrx8888,
    /// 32-bit ABGR format, [31:0] A:B:G:R 8:8:8:8 little endian
    abgr8888,
    /// 32-bit RGBA format, [31:0] R:G:B:A 8:8:8:8 little endian
    rgba8888,
    /// 32-bit BGRA format, [31:0] B:G:R:A 8:8:8:8 little endian
    bgra8888,
    /// 32-bit xRGB format, [31:0] x:R:G:B 2:10:10:10 little endian
    xrgb2101010,
    /// 32-bit xBGR format, [31:0] x:B:G:R 2:10:10:10 little endian
    xbgr2101010,
    /// 32-bit RGBx format, [31:0] R:G:B:x 10:10:10:2 little endian
    rgbx1010102,
    /// 32-bit BGRx format, [31:0] B:G:R:x 10:10:10:2 little endian
    bgrx1010102,
    /// 32-bit ARGB format, [31:0] A:R:G:B 2:10:10:10 little endian
    argb2101010,
    /// 32-bit ABGR format, [31:0] A:B:G:R 2:10:10:10 little endian
    abgr2101010,
    /// 32-bit RGBA format, [31:0] R:G:B:A 10:10:10:2 little endian
    rgba1010102,
    /// 32-bit BGRA format, [31:0] B:G:R:A 10:10:10:2 little endian
    bgra1010102,
    /// packed YCbCr format, [31:0] Cr0:Y1:Cb0:Y0 8:8:8:8 little endian
    yuyv,
    /// packed YCbCr format, [31:0] Cb0:Y1:Cr0:Y0 8:8:8:8 little endian
    yvyu,
    /// packed YCbCr format, [31:0] Y1:Cr0:Y0:Cb0 8:8:8:8 little endian
    uyvy,
    /// packed YCbCr format, [31:0] Y1:Cb0:Y0:Cr0 8:8:8:8 little endian
    vyuy,
    /// packed AYCbCr format, [31:0] A:Y:Cb:Cr 8:8:8:8 little endian
    ayuv,
    /// 2 plane YCbCr Cr:Cb format, 2x2 subsampled Cr:Cb plane
    nv12,
    /// 2 plane YCbCr Cb:Cr format, 2x2 subsampled Cb:Cr plane
    nv21,
    /// 2 plane YCbCr Cr:Cb format, 2x1 subsampled Cr:Cb plane
    nv16,
    /// 2 plane YCbCr Cb:Cr format, 2x1 subsampled Cb:Cr plane
    nv61,
    /// 3 plane YCbCr format, 4x4 subsampled Cb (1) and Cr (2) planes
    yuv410,
    /// 3 plane YCbCr format, 4x4 subsampled Cr (1) and Cb (2) planes
    yvu410,
    /// 3 plane YCbCr format, 4x1 subsampled Cb (1) and Cr (2) planes
    yuv411,
    /// 3 plane YCbCr format, 4x1 subsampled Cr (1) and Cb (2) planes
    yvu411,
    /// 3 plane YCbCr format, 2x2 subsampled Cb (1) and Cr (2) planes
    yuv420,
    /// 3 plane YCbCr format, 2x2 subsampled Cr (1) and Cb (2) planes
    yvu420,
    /// 3 plane YCbCr format, 2x1 subsampled Cb (1) and Cr (2) planes
    yuv422,
    /// 3 plane YCbCr format, 2x1 subsampled Cr (1) and Cb (2) planes
    yvu422,
    /// 3 plane YCbCr format, non-subsampled Cb (1) and Cr (2) planes
    yuv444,
    /// 3 plane YCbCr format, non-subsampled Cr (1) and Cb (2) planes
    yvu444,
    /// [7:0] R
    r8,
    /// [15:0] R little endian
    r16,
    /// [15:0] R:G 8:8 little endian
    rg88,
    /// [15:0] G:R 8:8 little endian
    gr88,
    /// [31:0] R:G 16:16 little endian
    rg1616,
    /// [31:0] G:R 16:16 little endian
    gr1616,
    /// [63:0] x:R:G:B 16:16:16:16 little endian
    xrgb16161616f,
    /// [63:0] x:B:G:R 16:16:16:16 little endian
    xbgr16161616f,
    /// [63:0] A:R:G:B 16:16:16:16 little endian
    argb16161616f,
    /// [63:0] A:B:G:R 16:16:16:16 little endian
    abgr16161616f,
    /// [31:0] X:Y:Cb:Cr 8:8:8:8 little endian
    xyuv8888,
    /// [23:0] Cr:Cb:Y 8:8:8 little endian
    vuy888,
    /// Y followed by U then V, 10:10:10. Non-linear modifier only
    vuy101010,
    /// [63:0] Cr0:0:Y1:0:Cb0:0:Y0:0 10:6:10:6:10:6:10:6 little endian per 2 Y pixels
    y210,
    /// [63:0] Cr0:0:Y1:0:Cb0:0:Y0:0 12:4:12:4:12:4:12:4 little endian per 2 Y pixels
    y212,
    /// [63:0] Cr0:Y1:Cb0:Y0 16:16:16:16 little endian per 2 Y pixels
    y216,
    /// [31:0] A:Cr:Y:Cb 2:10:10:10 little endian
    y410,
    /// [63:0] A:0:Cr:0:Y:0:Cb:0 12:4:12:4:12:4:12:4 little endian
    y412,
    /// [63:0] A:Cr:Y:Cb 16:16:16:16 little endian
    y416,
    /// [31:0] X:Cr:Y:Cb 2:10:10:10 little endian
    xvyu2101010,
    /// [63:0] X:0:Cr:0:Y:0:Cb:0 12:4:12:4:12:4:12:4 little endian
    xvyu12_16161616,
    /// [63:0] X:Cr:Y:Cb 16:16:16:16 little endian
    xvyu16161616,
    /// [63:0]   A3:A2:Y3:0:Cr0:0:Y2:0:A1:A0:Y1:0:Cb0:0:Y0:0  1:1:8:2:8:2:8:2:1:1:8:2:8:2:8:2 little endian
    y0l0,
    /// [63:0]   X3:X2:Y3:0:Cr0:0:Y2:0:X1:X0:Y1:0:Cb0:0:Y0:0  1:1:8:2:8:2:8:2:1:1:8:2:8:2:8:2 little endian
    x0l0,
    /// [63:0]   A3:A2:Y3:Cr0:Y2:A1:A0:Y1:Cb0:Y0  1:1:10:10:10:1:1:10:10:10 little endian
    y0l2,
    /// [63:0]   X3:X2:Y3:Cr0:Y2:X1:X0:Y1:Cb0:Y0  1:1:10:10:10:1:1:10:10:10 little endian
    x0l2,
    yuv420_8bit,
    yuv420_10bit,
    xrgb8888_a8,
    xbgr8888_a8,
    rgbx8888_a8,
    bgrx8888_a8,
    rgb888_a8,
    bgr888_a8,
    rgb565_a8,
    bgr565_a8,
    /// non-subsampled Cr:Cb plane
    nv24,
    /// non-subsampled Cb:Cr plane
    nv42,
    /// 2x1 subsampled Cr:Cb plane, 10 bit per channel
    p210,
    /// 2x2 subsampled Cr:Cb plane 10 bits per channel
    p010,
    /// 2x2 subsampled Cr:Cb plane 12 bits per channel
    p012,
    /// 2x2 subsampled Cr:Cb plane 16 bits per channel
    p016,
    /// [63:0] A:x:B:x:G:x:R:x 10:6:10:6:10:6:10:6 little endian
    axbxgxrx106106106106,
    /// 2x2 subsampled Cr:Cb plane
    nv15,
    q410,
    q401,
    /// [63:0] x:R:G:B 16:16:16:16 little endian
    xrgb16161616,
    /// [63:0] x:B:G:R 16:16:16:16 little endian
    xbgr16161616,
    /// [63:0] A:R:G:B 16:16:16:16 little endian
    argb16161616,
    /// [63:0] A:B:G:R 16:16:16:16 little endian
    abgr16161616,
}

impl WireEnum for format {
    open spec fn to_wire(self) -> u32 {
        match self {
            format::argb8888 => 0,
            format::xrgb8888 => 1,
            format::c8 => 538982467,
            format::rgb332 => 943867730,
            format::bgr233 => 944916290,
            format::xrgb4444 => 842093144,
            format::xbgr4444 => 842089048,
            format::rgbx4444 => 842094674,
            format::bgrx4444 => 842094658,
            format::argb4444 => 842093121,
            format::abgr4444 => 842089025,
            format::rgba4444 => 842088786,
            format::bgra4444 => 842088770,
            format::xrgb1555 => 892424792,
            format::xbgr1555 => 892420696,
            format::rgbx5551 => 892426322,
            format::bgrx5551 => 892426306,
            format::argb1555 => 892424769,
            format::abgr1555 => 892420673,
            format::rgba5551 => 892420434,
            format::bgra5551 => 892420418,
            format::rgb565 => 909199186,
            format::bgr565 => 909199170,
            format::rgb888 => 875710290,
            format::bgr888 => 875710274,
            format::xbgr8888 => 875709016,
            format::rgbx8888 => 875714642,
            format::bgrx8888 => 875714626,
            format::abgr8888 => 875708993,
            format::rgba8888 => 875708754,
            format::bgra8888 => 875708738,
            format::xrgb2101010 => 808669784,
            format::xbgr2101010 => 808665688,
            format::rgbx1010102 => 808671314,
            format::bgrx1010102 => 808671298,
            format::argb2101010 => 808669761,
            format::abgr2101010 => 808665665,
            format::rgba1010102 => 808665426,
            format::bgra1010102 => 808665410,
            format::yuyv => 1448695129,
            format::yvyu => 1431918169,
            format::uyvy => 1498831189,
            format::vyuy => 1498765654,
            format::ayuv => 1448433985,
            format::nv12 => 842094158,
            format::nv21 => 825382478,
            format::nv16 => 909203022,
            format::nv61 => 825644622,
            format::yuv410 => 961959257,
            format::yvu410 => 961893977,
            format::yuv411 => 825316697,
            format::yvu411 => 825316953,
            format::yuv420 => 842093913,
            format::yvu420 => 842094169,
            format::yuv422 => 909202777,
            format::yvu422 => 909203033,
            format::yuv444 => 875713881,
            format::yvu444 => 875714137,
            format::r8 => 538982482,
            format::r16 => 540422482,
            format::rg88 => 943212370,
            format::gr88 => 943215175,
            format::rg1616 => 842221394,
            format::gr1616 => 842224199,
            format::xrgb16161616f => 1211388504,
            format::xbgr16161616f => 1211384408,
            format::argb16161616f => 1211388481,
            format::abgr16161616f => 1211384385,
            format::xyuv8888 => 1448434008,
            format::vuy888 => 875713878,
            format::vuy101010 => 808670550,
            format::y210 => 808530521,
            format::y212 => 842084953,
            format::y216 => 909193817,
            format::y410 => 808531033,
            format::y412 => 842085465,
            format::y416 => 909194329,
            format::xvyu2101010 => 808670808,
            format::xvyu12_16161616 => 909334104,
            format::xvyu16161616 => 942954072,
            format::y0l0 => 810299481,
            format::x0l0 => 810299480,
            format::y0l2 => 843853913,
            format::x0l2 => 843853912,
            format::yuv420_8bit => 942691673,
            format::yuv420_10bit => 808539481,
            format::xrgb8888_a8 => 943805016,
            format::xbgr8888_a8 => 943800920,
            format::rgbx8888_a8 => 943806546,
            format::bgrx8888_a8 => 943806530,
            format::rgb888_a8 => 943798354,
            format::bgr888_a8 => 943798338,
            format::rgb565_a8 => 943797586,
            format::bgr565_a8 => 943797570,
            format::nv24 => 875714126,
            format::nv42 => 842290766,
            format::p210 => 808530512,
            format::p010 => 808530000,
            format::p012 => 842084432,
            format::p016 => 909193296,
            format::axbxgxrx106106106106 => 808534593,
            format::nv15 => 892425806,
            format::q410 => 808531025,
            format::q401 => 825242705,
            format::xrgb16161616 => 942953048,
            format::xbgr16161616 => 942948952,
            format::argb16161616 => 942953025,
            format::abgr16161616 => 942948929,
        }
    }

    open spec fn of_wire(v: u32) -> Option<format> {
        match v {
            0 => Some(format::argb8888),
            1 => Some(format::xrgb8888),
            538982467 => Some(format::c8),
            943867730 => Some(format::rgb332),
            944916290 => Some(format::bgr233),
            842093144 => Some(format::xrgb4444),
            842089048 => Some(format::xbgr4444),
            842094674 => Some(format::rgbx4444),
            842094658 => Some(format::bgrx4444),
            842093121 => Some(format::argb4444),
            842089025 => Some(format::abgr4444),
            842088786 => Some(format::rgba4444),
            842088770 => Some(format::bgra4444),
            892424792 => Some(format::xrgb1555),
            892420696 => Some(format::xbgr1555),
            892426322 => Some(format::rgbx5551),
            892426306 => Some(format::bgrx5551),
            892424769 => Some(format::argb1555),
            892420673 => Some(format::abgr1555),
            892420434 => Some(format::rgba5551),
            892420418 => Some(format::bgra5551),
            909199186 => Some(format::rgb565),
            909199170 => Some(format::bgr565),
            875710290 => Some(format::rgb888),
            875710274 => Some(format::bgr888),
            875709016 => Some(format::xbgr8888),
            875714642 => Some(format::rgbx8888),
            875714626 => Some(format::bgrx8888),
            875708993 => Some(format::abgr8888),
            875708754 => Some(format::rgba8888),
            875708738 => Some(format::bgra8888),
            808669784 => Some(format::xrgb2101010),
            808665688 => Some(format::xbgr2101010),
            808671314 => Some(format::rgbx1010102),
            808671298 => Some(format::bgrx1010102),
            808669761 => Some(format::argb2101010),
            808665665 => Some(format::abgr2101010),
            808665426 => Some(format::rgba1010102),
            808665410 => Some(format::bgra1010102),
            1448695129 => Some(format::yuyv),
            1431918169 => Some(format::yvyu),
            1498831189 => Some(format::uyvy),
            1498765654 => Some(format::vyuy),
            1448433985 => Some(format::ayuv),
            842094158 => Some(format::nv12),
            825382478 => Some(format::nv21),
            909203022 => Some(format::nv16),
            825644622 => Some(format::nv61),
            961959257 => Some(format::yuv410),
            961893977 => Some(format::yvu410),
            825316697 => Some(format::yuv411),
            825316953 => Some(format::yvu411),
            842093913 => Some(format::yuv420),
            842094169 => Some(format::yvu420),
            909202777 => Some(format::yuv422),
            909203033 => Some(format::yvu422),
            875713881 => Some(format::yuv444),
            875714137 => Some(format::yvu444),
            538982482 => Some(format::r8),
            540422482 => Some(format::r16),
            943212370 => Some(format::rg88),
            943215175 => Some(format::gr88),
            842221394 => Some(format::rg1616),
            842224199 => Some(format::gr1616),
            1211388504 => Some(format::xrgb16161616f),
            1211384408 => Some(format::xbgr16161616f),
            1211388481 => Some(format::argb16161616f),
            1211384385 => Some(format::abgr16161616f),
            1448434008 => Some(format::xyuv8888),
            875713878 => Some(format::vuy888),
            808670550 => Some(format::vuy101010),
            808530521 => Some(format::y210),
            842084953 => Some(format::y212),
            909193817 => Some(format::y216),
            808531033 => Some(format::y410),
            842085465 => Some(format::y412),
            909194329 => Some(format::y416),
            808670808 => Some(format::xvyu2101010),
            909334104 => Some(format::xvyu12_16161616),
            942954072 => Some(format::xvyu16161616),
            810299481 => Some(format::y0l0),
            810299480 => Some(format::x0l0),
            843853913 => Some(format::y0l2),
            843853912 => Some(format::x0l2),
            942691673 => Some(format::yuv420_8bit),
            808539481 => Some(format::yuv420_10bit),
            943805016 => Some(format::xrgb8888_a8),
            943800920 => Some(format::xbgr8888_a8),
            943806546 => Some(format::rgbx8888_a8),
            943806530 => Some(format::bgrx8888_a8),
            943798354 => Some(format::rgb888_a8),
            943798338 => Some(format::bgr888_a8),
            943797586 => Some(format::rgb565_a8),
            943797570 => Some(format::bgr565_a8),
            875714126 => Some(format::nv24),
            842290766 => Some(format::nv42),
            808530512 => Some(format::p210),
            808530000 => Some(format::p010),
            842084432 => Some(format::p012),
            909193296 => Some(format::p016),
            808534593 => Some(format::axbxgxrx106106106106),
            892425806 => Some(format::nv15),
            808531025 => Some(format::q410),
            825242705 => Some(format::q401),
            942953048 => Some(format::xrgb16161616),
            942948952 => Some(format::xbgr16161616),
            942953025 => Some(format::argb16161616),
            942948929 => Some(format::abgr16161616),
            _ => None,
        }
    }

    proof fn lemma_wire_enum(self, v: u32) {
    }
}

impl format {
    /// The word that stands for the entry.
    fn to_u32(self) -> (r: u32)
        ensures
            r == self.to_wire(),
    {
        match self {
            format::argb8888 => 0,
            format::xrgb8888 => 1,
            format::c8 => 538982467,
            format::rgb332 => 943867730,
            format::bgr233 => 944916290,
            format::xrgb4444 => 842093144,
            format::xbgr4444 => 842089048,
            format::rgbx4444 => 842094674,
            format::bgrx4444 => 842094658,
            format::argb4444 => 842093121,
            format::abgr4444 => 842089025,
            format::rgba4444 => 842088786,
            format::bgra4444 => 842088770,
            format::xrgb1555 => 892424792,
            format::xbgr1555 => 892420696,
            format::rgbx5551 => 892426322,
            format::bgrx5551 => 892426306,
            format::argb1555 => 892424769,
            format::abgr1555 => 892420673,
            format::rgba5551 => 892420434,
            format::bgra5551 => 892420418,
            format::rgb565 => 909199186,
            format::bgr565 => 909199170,
            format::rgb888 => 875710290,
            format::bgr888 => 875710274,
            format::xbgr8888 => 875709016,
            format::rgbx8888 => 875714642,
            format::bgrx8888 => 875714626,
            format::abgr8888 => 875708993,
            format::rgba8888 => 875708754,
            format::bgra8888 => 875708738,
            format::xrgb2101010 => 808669784,
            format::xbgr2101010 => 808665688,
            format::rgbx1010102 => 808671314,
            format::bgrx1010102 => 808671298,
            format::argb2101010 => 808669761,
            format::abgr2101010 => 808665665,
            format::rgba1010102 => 808665426,
            format::bgra1010102 => 808665410,
            format::yuyv => 1448695129,
            format::yvyu => 1431918169,
            format::uyvy => 1498831189,
            format::vyuy => 1498765654,
            format::ayuv => 1448433985,
            format::nv12 => 842094158,
            format::nv21 => 825382478,
            format::nv16 => 909203022,
            format::nv61 => 825644622,
            format::yuv410 => 961959257,
            format::yvu410 => 961893977,
            format::yuv411 => 825316697,
            format::yvu411 => 825316953,
            format::yuv420 => 842093913,
            format::yvu420 => 842094169,
            format::yuv422 => 909202777,
            format::yvu422 => 909203033,
            format::yuv444 => 875713881,
            format::yvu444 => 875714137,
            format::r8 => 538982482,
            format::r16 => 540422482,
            format::rg88 => 943212370,
            format::gr88 => 943215175,
            format::rg1616 => 842221394,
            format::gr1616 => 842224199,
            format::xrgb16161616f => 1211388504,
            format::xbgr16161616f => 1211384408,
            format::argb16161616f => 1211388481,
            format::abgr16161616f => 1211384385,
            format::xyuv8888 => 1448434008,
            format::vuy888 => 875713878,
            format::vuy101010 => 808670550,
            format::y210 => 808530521,
            format::y212 => 842084953,
            format::y216 => 909193817,
            format::y410 => 808531033,
            format::y412 => 842085465,
            format::y416 => 909194329,
            format::xvyu2101010 => 808670808,
            format::xvyu12_16161616 => 909334104,
            format::xvyu16161616 => 942954072,
            format::y0l0 => 810299481,
            format::x0l0 => 810299480,
            format::y0l2 => 843853913,
            format::x0l2 => 843853912,
            format::yuv420_8bit => 942691673,
            format::yuv420_10bit => 808539481,
            format::xrgb8888_a8 => 943805016,
            format::xbgr8888_a8 => 943800920,
            format::rgbx8888_a8 => 943806546,
            format::bgrx8888_a8 => 943806530,
            format::rgb888_a8 => 943798354,
            format::bgr888_a8 => 943798338,
            format::rgb565_a8 => 943797586,
            format::bgr565_a8 => 943797570,
            format::nv24 => 875714126,
            format::nv42 => 842290766,
            format::p210 => 808530512,
            format::p010 => 808530000,
            format::p012 => 842084432,
            format::p016 => 909193296,
            format::axbxgxrx106106106106 => 808534593,
            format::nv15 => 892425806,
            format::q410 => 808531025,
            format::q401 => 825242705,
            format::xrgb16161616 => 942953048,
            format::xbgr16161616 => 942948952,
            format::argb16161616 => 942953025,
            format::abgr16161616 => 942948929,
        }
    }

    /// The entry that a word stands for, if any.
    fn from_u32(v: u32) -> (r: Option<format>)
        ensures
            r == format::of_wire(v),
    {
        match v {
            0 => Some(format::argb8888),
            1 => Some(format::xrgb8888),
            538982467 => Some(format::c8),
            943867730 => Some(format::rgb332),
            944916290 => Some(format::bgr233),
            842093144 => Some(format::xrgb4444),
            842089048 => Some(format::xbgr4444),
            842094674 => Some(format::rgbx4444),
            842094658 => Some(format::bgrx4444),
            842093121 => Some(format::argb4444),
            842089025 => Some(format::abgr4444),
            842088786 => Some(format::rgba4444),
            842088770 => Some(format::bgra4444),
            892424792 => Some(format::xrgb1555),
            892420696 => Some(format::xbgr1555),
            892426322 => Some(format::rgbx5551),
            892426306 => Some(format::bgrx5551),
            892424769 => Some(format::argb1555),
            892420673 => Some(format::abgr1555),
            892420434 => Some(format::rgba5551),
            892420418 => Some(format::bgra5551),
            909199186 => Some(format::rgb565),
            909199170 => Some(format::bgr565),
            875710290 => Some(format::rgb888),
            875710274 => Some(format::bgr888),
            875709016 => Some(format::xbgr8888),
            875714642 => Some(format::rgbx8888),
            875714626 => Some(format::bgrx8888),
            875708993 => Some(format::abgr8888),
            875708754 => Some(format::rgba8888),
            875708738 => Some(format::bgra8888),
            808669784 => Some(format::xrgb2101010),
            808665688 => Some(format::xbgr2101010),
            808671314 => Some(format::rgbx1010102),
            808671298 => Some(format::bgrx1010102),
            808669761 => Some(format::argb2101010),
            808665665 => Some(format::abgr2101010),
            808665426 => Some(format::rgba1010102),
            808665410 => Some(format::bgra1010102),
            1448695129 => Some(format::yuyv),
            1431918169 => Some(format::yvyu),
            1498831189 => Some(format::uyvy),
            1498765654 => Some(format::vyuy),
            1448433985 => Some(format::ayuv),
            842094158 => Some(format::nv12),
            825382478 => Some(format::nv21),
            909203022 => Some(format::nv16),
            825644622 => Some(format::nv61),
            961959257 => Some(format::yuv410),
            961893977 => Some(format::yvu410),
            825316697 => Some(format::yuv411),
            825316953 => Some(format::yvu411),
            842093913 => Some(format::yuv420),
            842094169 => Some(format::yvu420),
            909202777 => Some(format::yuv422),
            909203033 => Some(format::yvu422),
            875713881 => Some(format::yuv444),
            875714137 => Some(format::yvu444),
            538982482 => Some(format::r8),
            540422482 => Some(format::r16),
            943212370 => Some(format::rg88),
            943215175 => Some(format::gr88),
            842221394 => Some(format::rg1616),
            842224199 => Some(format::gr1616),
            1211388504 => Some(format::xrgb16161616f),
            1211384408 => Some(format::xbgr16161616f),
            1211388481 => Some(format::argb16161616f),
            1211384385 => Some(format::abgr16161616f),
            1448434008 => Some(format::xyuv8888),
            875713878 => Some(format::vuy888),
            808670550 => Some(format::vuy101010),
            808530521 => Some(format::y210),
            842084953 => Some(format::y212),
            909193817 => Some(format::y216),
            808531033 => Some(format::y410),
            842085465 => Some(format::y412),
            909194329 => Some(format::y416),
            808670808 => Some(format::xvyu2101010),
            909334104 => Some(format::xvyu12_16161616),
            942954072 => Some(format::xvyu16161616),
            810299481 => Some(format::y0l0),
            810299480 => Some(format::x0l0),
            843853913 => Some(format::y0l2),
            843853912 => Some(format::x0l2),
            942691673 => Some(format::yuv420_8bit),
            808539481 => Some(format::yuv420_10bit),
            943805016 => Some(format::xrgb8888_a8),
            943800920 => Some(format::xbgr8888_a8),
            943806546 => Some(format::rgbx8888_a8),
            943806530 => Some(format::bgrx8888_a8),
            943798354 => Some(format::rgb888_a8),
            943798338 => Some(format::bgr888_a8),
            943797586 => Some(format::rgb565_a8),
            943797570 => Some(format::bgr565_a8),
            875714126 => Some(format::nv24),
            842290766 => Some(format::nv42),
            808530512 => Some(format::p210),
            808530000 => Some(format::p010),
            842084432 => Some(format::p012),
            909193296 => Some(format::p016),
            808534593 => Some(format::axbxgxrx106106106106),
            892425806 => Some(format::nv15),
            808531025 => Some(format::q410),
            825242705 => Some(format::q401),
            942953048 => Some(format::xrgb16161616),
            942948952 => Some(format::xbgr16161616),
            942953025 => Some(format::argb16161616),
            942948929 => Some(format::abgr16161616),
            _ => None,
        }
    }
}

impl From<format> for u32 {
    fn from(v: format) -> (r: u32) {
        v.to_u32()
    }
}

impl FromSpecImpl<format> for u32 {
    open spec fn obeys_from_spec() -> bool {
        true
    }

    open spec fn from_spec(v: format) -> u32 {
        v.to_wire()
    }
}

impl TryFrom<u32> for format {
    type Error = TryFromIntError;

    fn try_from(v: u32) -> (r: Result<format, TryFromIntError>) {
        match format::from_u32(v) {
            Some(e) => Ok(e),
            None => match u32::try_from(-1i32) {
                Ok(_) => {
                    assert(false);
                    Ok(format::argb8888)
                },
                Err(e) => Err(e),
            },
        }
    }
}

impl TryFromSpecImpl<u32> for format {
    open spec fn obeys_try_from_spec() -> bool {
        true
    }

    open spec fn try_from_spec(v: u32) -> Result<format, TryFromIntError> {
        match format::of_wire(v) {
            Some(e) => Ok(e),
            None => Err(arbitrary()),
        }
    }
}

impl Ser for format {
    open spec fn ser_ok(&self) -> bool {
        true
    }

    open spec fn ser_bytes(&self) -> Seq<u8> {
        u32_wire(self.to_wire())
    }

    open spec fn ser_fds(&self) -> Seq<Fd> {
        Seq::empty()
    }

    fn wire_len(&self) -> (n: usize) {
        4
    }

    fn checked_len(&self) -> (r: Option<usize>) {
        Some(4)
    }

    open spec fn ser_fits(&self, cap: int) -> bool {
        true
    }

    fn serialize(self, buf: &mut [u8], fds: &mut Vec<Fd>) -> (r: Result<usize, &'static str>) {
        self.to_u32().serialize(buf, fds)
    }

    proof fn lemma_fits(&self, cap: int) {
    }
}

impl DeepView for format {
    type V = format;

    open spec fn deep_view(&self) -> format {
        *self
    }
}

impl Dsr for format {
    open spec fn dsr_spec(buf: Seq<u8>, fds: Seq<Fd>) -> Decoded<format> {
        match u32::dsr_spec(buf, fds) {
            Decoded::Value(i, n, left) => match format::of_wire(i) {
                Some(v) => Decoded::Value(v, n, left),
                None => Decoded::Failure("invalid value for format", left),
            },
            Decoded::Failure(e, left) => Decoded::Failure(e, left),
            Decoded::Undefined => Decoded::Undefined,
        }
    }

    fn try_deserialize(buf: &[u8], fds: &mut Vec<Fd>) -> (r: Option<Result<(format, usize), &'static str>>) {
        let (i, n) = match u32::try_deserialize(buf, fds) {
            Some(Ok(p)) => p,
            Some(Err(e)) => return Some(Err(e)),
            None => return None,
        };
        match format::from_u32(i) {
            Some(v) => Some(Ok((v, n))),
            None => Some(Err("invalid value for format")),
        }
    }
}

impl Codec for format {
    open spec fn rt_ok(&self) -> bool {
        true
    }

    proof fn lemma_roundtrip(&self, tail: Seq<u8>, base: Seq<Fd>) {
        self.to_wire().lemma_roundtrip(tail, base);
        self.lemma_wire_enum(0);
    }
}
impl format {
    /// The protocol's word for each entry, and no other word names an entry.
    pub proof fn lemma_wire_values()
        ensures
            format::argb8888.to_wire() == 0,
            format::xrgb8888.to_wire() == 1,
            format::c8.to_wire() == 538982467,
            format::rgb332.to_wire() == 943867730,
            format::bgr233.to_wire() == 944916290,
            format::xrgb4444.to_wire() == 842093144,
            format::xbgr4444.to_wire() == 842089048,
            format::rgbx4444.to_wire() == 842094674,
            format::bgrx4444.to_wire() == 842094658,
            format::argb4444.to_wire() == 842093121,
            format::abgr4444.to_wire() == 842089025,
            format::rgba4444.to_wire() == 842088786,
            format::bgra4444.to_wire() == 842088770,
            format::xrgb1555.to_wire() == 892424792,
            format::xbgr1555.to_wire() == 892420696,
            format::rgbx5551.to_wire() == 892426322,
            format::bgrx5551.to_wire() == 892426306,
            format::argb1555.to_wire() == 892424769,
            format::abgr1555.to_wire() == 892420673,
            format::rgba5551.to_wire() == 892420434,
            format::bgra5551.to_wire() == 892420418,
            format::rgb565.to_wire() == 909199186,
            format::bgr565.to_wire() == 909199170,
            format::rgb888.to_wire() == 875710290,
            format::bgr888.to_wire() == 875710274,
            format::xbgr8888.to_wire() == 875709016,
            format::rgbx8888.to_wire() == 875714642,
            format::bgrx8888.to_wire() == 875714626,
            format::abgr8888.to_wire() == 875708993,
            format::rgba8888.to_wire() == 875708754,
            format::bgra8888.to_wire() == 875708738,
            format::xrgb2101010.to_wire() == 808669784,
            format::xbgr2101010.to_wire() == 808665688,
            format::rgbx1010102.to_wire() == 808671314,
            format::bgrx1010102.to_wire() == 808671298,
            format::argb2101010.to_wire() == 808669761,
            format::abgr2101010.to_wire() == 808665665,
            format::rgba1010102.to_wire() == 808665426,
            format::bgra1010102.to_wire() == 808665410,
            format::yuyv.to_wire() == 1448695129,
            format::yvyu.to_wire() == 1431918169,
            format::uyvy.to_wire() == 1498831189,
            format::vyuy.to_wire() == 1498765654,
            format::ayuv.to_wire() == 1448433985,
            format::nv12.to_wire() == 842094158,
            format::nv21.to_wire() == 825382478,
            format::nv16.to_wire() == 909203022,
            format::nv61.to_wire() == 825644622,
            format::yuv410.to_wire() == 961959257,
            format::yvu410.to_wire() == 961893977,
            format::yuv411.to_wire() == 825316697,
            format::yvu411.to_wire() == 825316953,
            format::yuv420.to_wire() == 842093913,
            format::yvu420.to_wire() == 842094169,
            format::yuv422.to_wire() == 909202777,
            format::yvu422.to_wire() == 909203033,
            format::yuv444.to_wire() == 875713881,
            format::yvu444.to_wire() == 875714137,
            format::r8.to_wire() == 538982482,
            format::r16.to_wire() == 540422482,
            format::rg88.to_wire() == 943212370,
            format::gr88.to_wire() == 943215175,
            format::rg1616.to_wire() == 842221394,
            format::gr1616.to_wire() == 842224199,
            format::xrgb16161616f.to_wire() == 1211388504,
            format::xbgr16161616f.to_wire() == 1211384408,
            format::argb16161616f.to_wire() == 1211388481,
            format::abgr16161616f.to_wire() == 1211384385,
            format::xyuv8888.to_wire() == 1448434008,
            format::vuy888.to_wire() == 875713878,
            format::vuy101010.to_wire() == 808670550,
            format::y210.to_wire() == 808530521,
            format::y212.to_wire() == 842084953,
            format::y216.to_wire() == 909193817,
            format::y410.to_wire() == 808531033,
            format::y412.to_wire() == 842085465,
            format::y416.to_wire() == 909194329,
            format::xvyu2101010.to_wire() == 808670808,
            format::xvyu12_16161616.to_wire() == 909334104,
            format::xvyu16161616.to_wire() == 942954072,
            format::y0l0.to_wire() == 810299481,
            format::x0l0.to_wire() == 810299480,
            format::y0l2.to_wire() == 843853913,
            format::x0l2.to_wire() == 843853912,
            format::yuv420_8bit.to_wire() == 942691673,
            format::yuv420_10bit.to_wire() == 808539481,
            format::xrgb8888_a8.to_wire() == 943805016,
            format::xbgr8888_a8.to_wire() == 943800920,
            format::rgbx8888_a8.to_wire() == 943806546,
            format::bgrx8888_a8.to_wire() == 943806530,
            format::rgb888_a8.to_wire() == 943798354,
            format::bgr888_a8.to_wire() == 943798338,
            format::rgb565_a8.to_wire() == 943797586,
            format::bgr565_a8.to_wire() == 943797570,
            format::nv24.to_wire() == 875714126,
            format::nv42.to_wire() == 842290766,
            format::p210.to_wire() == 808530512,
            format::p010.to_wire() == 808530000,
            format::p012.to_wire() == 842084432,
            format::p016.to_wire() == 909193296,
            format::axbxgxrx106106106106.to_wire() == 808534593,
            format::nv15.to_wire() == 892425806,
            format::q410.to_wire() == 808531025,
            format::q401.to_wire() == 825242705,
            format::xrgb16161616.to_wire() == 942953048,
            format::xbgr16161616.to_wire() == 942948952,
            format::argb16161616.to_wire() == 942953025,
            format::abgr16161616.to_wire() == 942948929,
            format::of_wire(0) == Some(format::argb8888),
            format::of_wire(1) == Some(format::xrgb8888),
            format::of_wire(538982467) == Some(format::c8),
            format::of_wire(943867730) == Some(format::rgb332),
            format::of_wire(944916290) == Some(format::bgr233),
            format::of_wire(842093144) == Some(format::xrgb4444),
            format::of_wire(842089048) == Some(format::xbgr4444),
            format::of_wire(842094674) == Some(format::rgbx4444),
            format::of_wire(842094658) == Some(format::bgrx4444),
            format::of_wire(842093121) == Some(format::argb4444),
            format::of_wire(842089025) == Some(format::abgr4444),
            format::of_wire(842088786) == Some(format::rgba4444),
            format::of_wire(842088770) == Some(format::bgra4444),
            format::of_wire(892424792) == Some(format::xrgb1555),
            format::of_wire(892420696) == Some(format::xbgr1555),
            format::of_wire(892426322) == Some(format::rgbx5551),
            format::of_wire(892426306) == Some(format::bgrx5551),
            format::of_wire(892424769) == Some(format::argb1555),
            format::of_wire(892420673) == Some(format::abgr1555),
            format::of_wire(892420434) == Some(format::rgba5551),
            format::of_wire(892420418) == Some(format::bgra5551),
            format::of_wire(909199186) == Some(format::rgb565),
            format::of_wire(909199170) == Some(format::bgr565),
            format::of_wire(875710290) == Some(format::rgb888),
            format::of_wire(875710274) == Some(format::bgr888),
            format::of_wire(875709016) == Some(format::xbgr8888),
            format::of_wire(875714642) == Some(format::rgbx8888),
            format::of_wire(875714626) == Some(format::bgrx8888),
            format::of_wire(875708993) == Some(format::abgr8888),
            format::of_wire(875708754) == Some(format::rgba8888),
            format::of_wire(875708738) == Some(format::bgra8888),
            format::of_wire(808669784) == Some(format::xrgb2101010),
            format::of_wire(808665688) == Some(format::xbgr2101010),
            format::of_wire(808671314) == Some(format::rgbx1010102),
            format::of_wire(808671298) == Some(format::bgrx1010102),
            format::of_wire(808669761) == Some(format::argb2101010),
            format::of_wire(808665665) == Some(format::abgr2101010),
            format::of_wire(808665426) == Some(format::rgba1010102),
            format::of_wire(808665410) == Some(format::bgra1010102),
            format::of_wire(1448695129) == Some(format::yuyv),
            format::of_wire(1431918169) == Some(format::yvyu),
            format::of_wire(1498831189) == Some(format::uyvy),
            format::of_wire(1498765654) == Some(format::vyuy),
            format::of_wire(1448433985) == Some(format::ayuv),
            format::of_wire(842094158) == Some(format::nv12),
            format::of_wire(825382478) == Some(format::nv21),
            format::of_wire(909203022) == Some(format::nv16),
            format::of_wire(825644622) == Some(format::nv61),
            format::of_wire(961959257) == Some(format::yuv410),
            format::of_wire(961893977) == Some(format::yvu410),
            format::of_wire(825316697) == Some(format::yuv411),
            format::of_wire(825316953) == Some(format::yvu411),
            format::of_wire(842093913) == Some(format::yuv420),
            format::of_wire(842094169) == Some(format::yvu420),
            format::of_wire(909202777) == Some(format::yuv422),
            format::of_wire(909203033) == Some(format::yvu422),
            format::of_wire(875713881) == Some(format::yuv444),
            format::of_wire(875714137) == Some(format::yvu444),
            format::of_wire(538982482) == Some(format::r8),
            format::of_wire(540422482) == Some(format::r16),
            format::of_wire(943212370) == Some(format::rg88),
            format::of_wire(943215175) == Some(format::gr88),
            format::of_wire(842221394) == Some(format::rg1616),
            format::of_wire(842224199) == Some(format::gr1616),
            format::of_wire(1211388504) == Some(format::xrgb16161616f),
            format::of_wire(1211384408) == Some(format::xbgr16161616f),
            format::of_wire(1211388481) == Some(format::argb16161616f),
            format::of_wire(1211384385) == Some(format::abgr16161616f),
            format::of_wire(1448434008) == Some(format::xyuv8888),
            format::of_wire(875713878) == Some(format::vuy888),
            format::of_wire(808670550) == Some(format::vuy101010),
            format::of_wire(808530521) == Some(format::y210),
            format::of_wire(842084953) == Some(format::y212),
            format::of_wire(909193817) == Some(format::y216),
            format::of_wire(808531033) == Some(format::y410),
            format::of_wire(842085465) == Some(format::y412),
            format::of_wire(909194329) == Some(format::y416),
            format::of_wire(808670808) == Some(format::xvyu2101010),
            format::of_wire(909334104) == Some(format::xvyu12_16161616),
            format::of_wire(942954072) == Some(format::xvyu16161616),
            format::of_wire(810299481) == Some(format::y0l0),
            format::of_wire(810299480) == Some(format::x0l0),
            format::of_wire(843853913) == Some(format::y0l2),
            format::of_wire(843853912) == Some(format::x0l2),
            format::of_wire(942691673) == Some(format::yuv420_8bit),
            format::of_wire(808539481) == Some(format::yuv420_10bit),
            format::of_wire(943805016) == Some(format::xrgb8888_a8),
            format::of_wire(943800920) == Some(format::xbgr8888_a8),
            format::of_wire(943806546) == Some(format::rgbx8888_a8),
            format::of_wire(943806530) == Some(format::bgrx8888_a8),
            format::of_wire(943798354) == Some(format::rgb888_a8),
            format::of_wire(943798338) == Some(format::bgr888_a8),
            format::of_wire(943797586) == Some(format::rgb565_a8),
            format::of_wire(943797570) == Some(format::bgr565_a8),
            format::of_wire(875714126) == Some(format::nv24),
            format::of_wire(842290766) == Some(format::nv42),
            format::of_wire(808530512) == Some(format::p210),
            format::of_wire(808530000) == Some(format::p010),
            format::of_wire(842084432) == Some(format::p012),
            format::of_wire(909193296) == Some(format::p016),
            format::of_wire(808534593) == Some(format::axbxgxrx106106106106),
            format::of_wire(892425806) == Some(format::nv15),
            format::of_wire(808531025) == Some(format::q410),
            format::of_wire(825242705) == Some(format::q401),
            format::of_wire(942953048) == Some(format::xrgb16161616),
            format::of_wire(942948952) == Some(format::xbgr16161616),
            format::of_wire(942953025) == Some(format::argb16161616),
            format::of_wire(942948929) == Some(format::abgr16161616),
            forall|v: u32| #[trigger] format::of_wire(v) is Some ==> (v == 0 || v == 1 || v == 538982467 || v == 943867730 || v == 944916290 || v == 842093144 || v == 842089048 || v == 842094674 || v == 842094658 || v == 842093121 || v == 842089025 || v == 842088786 || v == 842088770 || v == 892424792 || v == 892420696 || v == 892426322 || v == 892426306 || v == 892424769 || v == 892420673 || v == 892420434 || v == 892420418 || v == 909199186 || v == 909199170 || v == 875710290 || v == 875710274 || v == 875709016 || v == 875714642 || v == 875714626 || v == 875708993 || v == 875708754 || v == 875708738 || v == 808669784 || v == 808665688 || v == 808671314 || v == 808671298 || v == 808669761 || v == 808665665 || v == 808665426 || v == 808665410 || v == 1448695129 || v == 1431918169 || v == 1498831189 || v == 1498765654 || v == 1448433985 || v == 842094158 || v == 825382478 || v == 909203022 || v == 825644622 || v == 961959257 || v == 961893977 || v == 825316697 || v == 825316953 || v == 842093913 || v == 842094169 || v == 909202777 || v == 909203033 || v == 875713881 || v == 875714137 || v == 538982482 || v == 540422482 || v == 943212370 || v == 943215175 || v == 842221394 || v == 842224199 || v == 1211388504 || v == 1211384408 || v == 1211388481 || v == 1211384385 || v == 1448434008 || v == 875713878 || v == 808670550 || v == 808530521 || v == 842084953 || v == 909193817 || v == 808531033 || v == 842085465 || v == 909194329 || v == 808670808 || v == 909334104 || v == 942954072 || v == 810299481 || v == 810299480 || v == 843853913 || v == 843853912 || v == 942691673 || v == 808539481 || v == 943805016 || v == 943800920 || v == 943806546 || v == 943806530 || v == 943798354 || v == 943798338 || v == 943797586 || v == 943797570 || v == 875714126 || v == 842290766 || v == 808530512 || v == 808530000 || v == 842084432 || v == 909193296 || v == 808534593 || v == 892425806 || v == 808531025 || v == 825242705 || v == 942953048 || v == 942948952 || v == 942953025 || v == 942948929),
    {
    }
}


/// The interface's run-time name is its protocol name.
pub proof fn lemma_interface_name()
    ensures
        <Obj as Object>::interface_name() == "wl_shm"@,
{
}


#[derive(Debug, Clone, Copy)]
pub struct wl_shm;

pub type Obj = wl_shm;

#[allow(non_upper_case_globals)]
pub const Obj: Obj = wl_shm;

impl Ser for wl_shm {
    open spec fn ser_ok(&self) -> bool {
        true
    }

    open spec fn ser_bytes(&self) -> Seq<u8> {
        Seq::empty()
    }

    open spec fn ser_fds(&self) -> Seq<Fd> {
        Seq::empty()
    }

    fn wire_len(&self) -> (n: usize) {
        0
    }

    fn checked_len(&self) -> (r: Option<usize>) {
        Some(0)
    }

    open spec fn ser_fits(&self, cap: int) -> bool {
        true
    }

    fn serialize(self, buf: &mut [u8], fds: &mut Vec<Fd>) -> (r: Result<usize, &'static str>) {
        assert(buf@ =~= write_at(old(buf)@, 0, Seq::<u8>::empty()));
        assert(fds@ =~= old(fds)@ + Seq::<Fd>::empty());
        Ok(0)
    }

    proof fn lemma_fits(&self, cap: int) {
    }
}

impl DeepView for wl_shm {
    type V = ();

    open spec fn deep_view(&self) -> () {
        ()
    }
}

impl Dsr for wl_shm {
    open spec fn dsr_spec(buf: Seq<u8>, fds: Seq<Fd>) -> Decoded<()> {
        Decoded::Value((), 0, fds)
    }

    fn try_deserialize(buf: &[u8], fds: &mut Vec<Fd>) -> (r: Option<Result<(wl_shm, usize), &'static str>>) {
        Some(Ok((wl_shm, 0)))
    }
}

impl Codec for wl_shm {
    open spec fn rt_ok(&self) -> bool {
        true
    }

    proof fn lemma_roundtrip(&self, tail: Seq<u8>, base: Seq<Fd>) {
        assert(Seq::<Fd>::empty().reverse() =~= Seq::<Fd>::empty());
        assert(base + Seq::<Fd>::empty() =~= base);
    }
}

impl Object for wl_shm {
    open spec fn interface_name() -> Seq<char> {
        NAME@
    }

    open spec fn destructor_op() -> Option<u16> {
        None
    }

    fn new_obj() -> (r: wl_shm) {
        wl_shm
    }

    fn new_dyn(version: u32) -> (d: Dyn) {
        Dyn { name: NAME.to_owned(), version }
    }

    fn destructor() -> (r: Option<u16>) {
        None
    }

    proof fn lemma_unit(&self, buf: Seq<u8>, fds: Seq<Fd>) {
    }
}

} // verus!
