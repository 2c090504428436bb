//! The fourcc codes of the pixel formats that can be drawn to.

use vstd::prelude::*;

verus! {

/// `XR24`
pub const XRGB8888: u32 = 0x3432_5258;

/// `AR24`
pub const ARGB8888: u32 = 0x3432_5241;

/// `XB24`
pub const XBGR8888: u32 = 0x3432_4258;

/// `AB24`
pub const ABGR8888: u32 = 0x3432_4241;

/// `XB30`
pub const XBGR2101010: u32 = 0x3033_4258;

/// `AB30`
pub const ABGR2101010: u32 = 0x3033_4241;

/// `AB4H`
pub const ABGR16161616F: u32 = 0x4834_4241;

/// `RG16`
pub const RGB565: u32 = 0x3631_4752;

} // verus!
