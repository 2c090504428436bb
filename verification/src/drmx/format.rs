//! The pixel format of a scanned-out buffer.

use super::fourcc::{
    ABGR16161616F, ABGR2101010, ABGR8888, ARGB8888, RGB565, XBGR2101010, XBGR8888, XRGB8888,
};
use crate::skia::ColorType;
use vstd::prelude::*;

verus! {

/// A pixel format, by its fourcc code.
#[derive(Debug, Clone, Copy, PartialEq, Eq, Structural)]
pub struct Format(pub u32);

/// How the canvas has to lay out a pixel of the format with the code `fourcc`,
/// for the formats that a canvas can draw to.
pub open spec fn color_type_of(fourcc: u32) -> Option<ColorType> {
    if fourcc == XRGB8888 || fourcc == ARGB8888 {
        Some(ColorType::BGRA8888)
    } else if fourcc == XBGR8888 {
        Some(ColorType::RGB888x)
    } else if fourcc == ABGR8888 {
        Some(ColorType::RGBA8888)
    } else if fourcc == XBGR2101010 {
        Some(ColorType::BGR101010x)
    } else if fourcc == ABGR2101010 {
        Some(ColorType::BGRA1010102)
    } else if fourcc == ABGR16161616F {
        Some(ColorType::RGBAF16)
    } else if fourcc == RGB565 {
        Some(ColorType::RGB565)
    } else {
        None
    }
}

impl Format {
    pub fn fourcc(&self) -> (r: u32)
        ensures
            r == self.0,
    {
        self.0
    }

    /// The layout of a pixel on a canvas, or `None` where no canvas has it.
    pub fn color_type(&self) -> (r: Option<ColorType>)
        ensures
            r == color_type_of(self.0),
    {
        match self.0 {
            XRGB8888 | ARGB8888 => Some(ColorType::BGRA8888),
            XBGR8888 => Some(ColorType::RGB888x),
            ABGR8888 => Some(ColorType::RGBA8888),
            // HDR
            XBGR2101010 => Some(ColorType::BGR101010x),
            ABGR2101010 => Some(ColorType::BGRA1010102),
            ABGR16161616F => Some(ColorType::RGBAF16),
            RGB565 => Some(ColorType::RGB565),
            _ => None,
        }
    }

    /// The layout of a pixel on a canvas, for a format that a canvas has.
    pub fn skia(&self) -> (r: ColorType)
        requires
            color_type_of(self.0) is Some,
        ensures
            Some(r) == color_type_of(self.0),
    {
        self.color_type().unwrap()
    }
}

/// Which codes have which layout on a canvas, and that no other code has one.
pub proof fn canvas_layouts_belong_to_these_codes(fourcc: u32)
    ensures
        ({
            let layout = color_type_of(fourcc);
            &&& layout == Some(ColorType::BGRA8888) <==> fourcc == 0x3432_5258 || fourcc
                == 0x3432_5241
            &&& layout == Some(ColorType::RGB888x) <==> fourcc == 0x3432_4258
            &&& layout == Some(ColorType::RGBA8888) <==> fourcc == 0x3432_4241
            &&& layout == Some(ColorType::BGR101010x) <==> fourcc == 0x3033_4258
            &&& layout == Some(ColorType::BGRA1010102) <==> fourcc == 0x3033_4241
            &&& layout == Some(ColorType::RGBAF16) <==> fourcc == 0x4834_4241
            &&& layout == Some(ColorType::RGB565) <==> fourcc == 0x3631_4752
        }),
{
}

} // verus!
