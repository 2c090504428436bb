//! The Vulkan numbers that describe an image and its view.

use vstd::prelude::*;

verus! {

/// An image with two dimensions.
pub const IMAGE_TYPE_2D: i32 = 1;

/// A view with two dimensions.
pub const VIEW_TYPE_2D: i32 = 1;

/// One sample for each pixel.
pub const SAMPLES_1: u32 = 1;

/// A layout in memory that a DRM format modifier describes.
pub const TILING_DRM_FORMAT_MODIFIER: i32 = 1000158000;

/// The use of an image that is drawn to.
pub const USAGE_COLOR_ATTACHMENT: u32 = 0x10;

/// An image that one queue family uses at a time.
pub const SHARING_EXCLUSIVE: i32 = 0;

/// The layout of an image that holds nothing yet.
pub const LAYOUT_UNDEFINED: i32 = 0;

/// Memory that is shared by a DMA-BUF file descriptor.
pub const HANDLE_DMA_BUF: u32 = 0x200;

/// The part of an image that holds colours.
pub const ASPECT_COLOR: u32 = 1;

} // verus!
