//! The Vulkan formats that a scanned-out buffer can have.

use vstd::prelude::*;

verus! {

pub const R5G6B5_UNORM_PACK16: i32 = 4;

pub const R8G8B8A8_UNORM: i32 = 37;

pub const B8G8R8A8_UNORM: i32 = 44;

pub const A2B10G10R10_UNORM_PACK32: i32 = 64;

pub const R16G16B16A16_SFLOAT: i32 = 97;

} // verus!
