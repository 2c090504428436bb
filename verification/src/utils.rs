//! Small helpers: the guard of a resource, and the pixel format of a Vulkan image.

use crate::drmx::fourcc::{
    ABGR16161616F, ABGR2101010, ABGR8888, ARGB8888, RGB565, XBGR2101010, XBGR8888, XRGB8888,
};
use crate::skia::ColorType;
use crate::vulkan::format::{
    A2B10G10R10_UNORM_PACK32, B8G8R8A8_UNORM, R16G16B16A16_SFLOAT, R5G6B5_UNORM_PACK16,
    R8G8B8A8_UNORM,
};
use std::ops::Deref;
use vstd::prelude::*;

verus! {

/// A resource together with what has to be done when it is given up.
///
/// [`Guard::finish`] hands the resource over and forgets the cleanup;
/// [`Guard::drop`] gives the resource up. Whoever lets a guard go calls one of
/// the two: the cleanup is not called at the end of a scope by itself.
pub struct Guard<T: Copy, F: FnOnce(T)>(T, Option<F>);

impl<T: Copy, F: FnOnce(T)> Guard<T, F> {
    /// The guarded resource.
    pub closed spec fn value(&self) -> T {
        self.0
    }

    /// Whether the resource is still to be given up.
    pub closed spec fn armed(&self) -> bool {
        self.1 is Some
    }

    /// What is called with the resource when it is given up.
    pub closed spec fn cleanup(&self) -> F {
        self.1->0
    }

    /// Whether the cleanup can be called, where it is still to be called.
    pub open spec fn disposable(&self) -> bool {
        self.armed() ==> self.cleanup().requires((self.value(),))
    }

    /// Whether the cleanup was called with the resource, where it was still to
    /// be called.
    pub open spec fn disposed(&self) -> bool {
        self.armed() ==> self.cleanup().ensures((self.value(),), ())
    }

    pub fn new(value: T, cleanup: F) -> (r: Self)
        ensures
            r.value() == value,
            r.armed(),
            r.cleanup() == cleanup,
    {
        Guard(value, Some(cleanup))
    }

    /// The resource, which the caller owns from now on. The cleanup is not called.
    pub fn finish(self) -> (r: T)
        ensures
            r == self.value(),
    {
        self.0
    }

    /// Gives the resource up: calls the cleanup with it, unless that was done
    /// before.
    pub fn drop(&mut self)
        requires
            old(self).disposable(),
        ensures
            old(self).disposed(),
            old(self).armed() ==> old(self).cleanup().ensures((old(self).value(),), ()),
            !final(self).armed(),
            final(self).value() == old(self).value(),
    {
        if let Some(cleanup) = self.1.take() {
            cleanup(self.0)
        }
    }
}

impl<T: Copy, F: FnOnce(T)> Deref for Guard<T, F> {
    type Target = T;

    fn deref(&self) -> (r: &T)
        ensures
            *r == self.value(),
    {
        &self.0
    }
}

/// A pixel format, by its fourcc code.
#[derive(Debug, Clone, Copy, PartialEq, Eq, Structural)]
pub struct Format(pub u32);

/// The Vulkan format that holds the format with the code `fourcc`, for the
/// formats that Vulkan can draw to.
pub open spec fn vk_format_of(fourcc: u32) -> Option<i32> {
    if fourcc == XRGB8888 || fourcc == ARGB8888 {
        Some(B8G8R8A8_UNORM)
    } else if fourcc == XBGR8888 || fourcc == ABGR8888 {
        Some(R8G8B8A8_UNORM)
    } else if fourcc == XBGR2101010 || fourcc == ABGR2101010 {
        Some(A2B10G10R10_UNORM_PACK32)
    } else if fourcc == RGB565 {
        Some(R5G6B5_UNORM_PACK16)
    } else if fourcc == ABGR16161616F {
        Some(R16G16B16A16_SFLOAT)
    } else {
        None
    }
}

/// How the canvas has to lay out a pixel of the format with the code `fourcc`,
/// for the formats that a canvas can draw to.
pub open spec fn color_type_of(fourcc: u32) -> Option<ColorType> {
    if fourcc == XRGB8888 {
        Some(ColorType::RGB888x)
    } else if fourcc == ARGB8888 {
        Some(ColorType::RGBA8888)
    } else if fourcc == XBGR8888 || fourcc == ABGR8888 {
        Some(ColorType::BGRA8888)
    } else if fourcc == XBGR2101010 {
        Some(ColorType::BGR101010x)
    } else if fourcc == ABGR2101010 {
        Some(ColorType::BGRA1010102)
    } else if fourcc == ABGR16161616F {
        Some(ColorType::RGBAF16)
    } else if fourcc == RGB565 {
        Some(ColorType::RGB565)
    } else {
        None
    }
}

impl Format {
    /// The Vulkan format, or `None` where Vulkan has none.
    pub fn vk_format(&self) -> (r: Option<i32>)
        ensures
            r == vk_format_of(self.0),
    {
        match self.0 {
            XRGB8888 | ARGB8888 => Some(B8G8R8A8_UNORM),
            XBGR8888 | ABGR8888 => Some(R8G8B8A8_UNORM),
            // HDR
            XBGR2101010 | ABGR2101010 => Some(A2B10G10R10_UNORM_PACK32),
            RGB565 => Some(R5G6B5_UNORM_PACK16),
            ABGR16161616F => Some(R16G16B16A16_SFLOAT),
            _ => None,
        }
    }

    /// The Vulkan format, for a format that Vulkan has.
    pub fn vk(&self) -> (r: i32)
        requires
            vk_format_of(self.0) is Some,
        ensures
            Some(r) == vk_format_of(self.0),
    {
        self.vk_format().unwrap()
    }

    pub fn fourcc(&self) -> (r: u32)
        ensures
            r == self.0,
    {
        self.0
    }

    /// The layout of a pixel on a canvas, or `None` where no canvas has it.
    pub fn color_type(&self) -> (r: Option<ColorType>)
        ensures
            r == color_type_of(self.0),
    {
        match self.0 {
            XRGB8888 => Some(ColorType::RGB888x),
            ARGB8888 => Some(ColorType::RGBA8888),
            XBGR8888 | ABGR8888 => Some(ColorType::BGRA8888),
            // HDR
            XBGR2101010 => Some(ColorType::BGR101010x),
            ABGR2101010 => Some(ColorType::BGRA1010102),
            ABGR16161616F => Some(ColorType::RGBAF16),
            RGB565 => Some(ColorType::RGB565),
            _ => None,
        }
    }

    /// The layout of a pixel on a canvas, for a format that a canvas has.
    pub fn skia(&self) -> (r: ColorType)
        requires
            color_type_of(self.0) is Some,
        ensures
            Some(r) == color_type_of(self.0),
    {
        self.color_type().unwrap()
    }
}

/// Vulkan and the canvas know the same formats.
pub proof fn formats_are_known_alike(fourcc: u32)
    ensures
        vk_format_of(fourcc) is Some <==> color_type_of(fourcc) is Some,
        color_type_of(fourcc) is Some <==> crate::drmx::format::color_type_of(fourcc) is Some,
{
}

/// Which codes have which Vulkan format, and that no other code has one.
pub proof fn vulkan_formats_belong_to_these_codes(fourcc: u32, format: i32)
    ensures
        vk_format_of(fourcc) == Some(format) <==> {
            ||| (fourcc == 0x3432_5258 || fourcc == 0x3432_5241) && format == 44
            ||| (fourcc == 0x3432_4258 || fourcc == 0x3432_4241) && format == 37
            ||| (fourcc == 0x3033_4258 || fourcc == 0x3033_4241) && format == 64
            ||| fourcc == 0x3631_4752 && format == 4
            ||| fourcc == 0x4834_4241 && format == 97
        },
{
}

/// Which codes have which layout on a canvas of a Vulkan image, and that no other code
/// has one.
pub proof fn canvas_layouts_belong_to_these_codes(fourcc: u32)
    ensures
        ({
            let layout = color_type_of(fourcc);
            &&& layout == Some(ColorType::RGB888x) <==> fourcc == 0x3432_5258
            &&& layout == Some(ColorType::RGBA8888) <==> fourcc == 0x3432_5241
            &&& layout == Some(ColorType::BGRA8888) <==> fourcc == 0x3432_4258 || fourcc
                == 0x3432_4241
            &&& layout == Some(ColorType::BGR101010x) <==> fourcc == 0x3033_4258
            &&& layout == Some(ColorType::BGRA1010102) <==> fourcc == 0x3033_4241
            &&& layout == Some(ColorType::RGBAF16) <==> fourcc == 0x4834_4241
            &&& layout == Some(ColorType::RGB565) <==> fourcc == 0x3631_4752
        }),
{
}

/// A guard can be given up where its cleanup can be called with its resource, and was
/// given up where its cleanup was; one whose cleanup was called before needs nothing.
pub proof fn guards_owe_their_cleanup<T: Copy, F: FnOnce(T)>(guard: Guard<T, F>)
    ensures
        guard.armed() ==> (guard.disposable() <==> guard.cleanup().requires((guard.value(),))),
        guard.armed() ==> (guard.disposed() <==> guard.cleanup().ensures((guard.value(),), ())),
        !guard.armed() ==> guard.disposable() && guard.disposed(),
{
}

} // verus!
