use compositor::drmx;
use compositor::drmx::atomic_req::Fixed16;
use compositor::drmx::fourcc::{
    ABGR16161616F, ABGR2101010, ABGR8888, ARGB8888, RGB565, XBGR2101010, XBGR8888, XRGB8888,
};
use compositor::skia::ColorType;
use compositor::utils::{Format, Guard};
use compositor::vulkan::format as vk_format;
use std::cell::Cell;

#[test]
fn a_finished_guard_hands_its_resource_over() {
    let released = Cell::new(0);
    let guard = Guard::new(7u32, |value| released.set(value));
    assert_eq!(*guard, 7);
    assert_eq!(guard.finish(), 7);
    assert_eq!(released.get(), 0);
}

#[test]
fn a_dropped_guard_cleans_up() {
    let released = Cell::new(0);
    let mut guard = Guard::new(7u32, |value| released.set(released.get() + value));
    guard.drop();
    assert_eq!(released.get(), 7);
    guard.drop();
    assert_eq!(released.get(), 7);
    assert_eq!(guard.finish(), 7);
    assert_eq!(released.get(), 7);
}

#[test]
fn vulkan_formats() {
    let expected = [
        (XRGB8888, vk_format::B8G8R8A8_UNORM),
        (ARGB8888, vk_format::B8G8R8A8_UNORM),
        (XBGR8888, vk_format::R8G8B8A8_UNORM),
        (ABGR8888, vk_format::R8G8B8A8_UNORM),
        (XBGR2101010, vk_format::A2B10G10R10_UNORM_PACK32),
        (ABGR2101010, vk_format::A2B10G10R10_UNORM_PACK32),
        (RGB565, vk_format::R5G6B5_UNORM_PACK16),
        (ABGR16161616F, vk_format::R16G16B16A16_SFLOAT),
    ];
    for (code, vulkan) in expected {
        assert_eq!(Format(code).fourcc(), code);
        assert_eq!(Format(code).vk(), vulkan);
        assert_eq!(Format(code).vk_format(), Some(vulkan));
    }
    assert_eq!(Format(0).vk_format(), None);
}

#[test]
fn canvas_layouts_of_vulkan_images() {
    let expected = [
        (XRGB8888, ColorType::RGB888x),
        (ARGB8888, ColorType::RGBA8888),
        (XBGR8888, ColorType::BGRA8888),
        (ABGR8888, ColorType::BGRA8888),
        (XBGR2101010, ColorType::BGR101010x),
        (ABGR2101010, ColorType::BGRA1010102),
        (ABGR16161616F, ColorType::RGBAF16),
        (RGB565, ColorType::RGB565),
    ];
    for (code, layout) in expected {
        assert_eq!(Format(code).skia(), layout);
    }
    assert_eq!(Format(0).color_type(), None);
}

#[test]
fn canvas_layouts_of_scanned_out_buffers() {
    let expected = [
        (XRGB8888, ColorType::BGRA8888),
        (ARGB8888, ColorType::BGRA8888),
        (XBGR8888, ColorType::RGB888x),
        (ABGR8888, ColorType::RGBA8888),
        (XBGR2101010, ColorType::BGR101010x),
        (ABGR2101010, ColorType::BGRA1010102),
        (ABGR16161616F, ColorType::RGBAF16),
        (RGB565, ColorType::RGB565),
    ];
    for (code, layout) in expected {
        assert_eq!(drmx::Format(code).fourcc(), code);
        assert_eq!(drmx::Format(code).skia(), layout);
    }
    assert_eq!(drmx::Format(1).color_type(), None);
}

#[test]
fn known_formats_are_the_same_for_vulkan_and_the_canvas() {
    for code in [XRGB8888, ARGB8888, RGB565, 0, 1, u32::MAX] {
        let known = Format(code).vk_format().is_some();
        assert_eq!(Format(code).color_type().is_some(), known);
        assert_eq!(drmx::Format(code).color_type().is_some(), known);
    }
}

#[test]
fn whole_numbers_in_fixed_point() {
    assert_eq!(Fixed16::integer(0), Fixed16(0));
    assert_eq!(Fixed16::integer(1920), Fixed16(1920 << 16));
    assert_eq!(Fixed16::integer(u16::MAX), Fixed16(0xffff_0000));
}
