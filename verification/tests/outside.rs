//! The numbers that stand for what other crates name.

use ash::vk;
use compositor::cpu::{IMPORT_SYNC_FILE, TIMEOUT_NSEC};
use compositor::drmx::atomic_req::{ALLOW_MODESET, ANNOUNCED_FLIP};
use compositor::drmx::fourcc;
use compositor::drmx::mode::MODE_TYPE_PREFERRED;
use compositor::modifiers::{INVALID, LINEAR};
use compositor::select::{TYPE_CURSOR, TYPE_OVERLAY, TYPE_PRIMARY};
use compositor::vulkan::format as vk_format;
use compositor::vulkan::image;
use compositor::vulkan::COLOR_ATTACHMENT;
use drm::buffer::{DrmFourcc, DrmModifier};
use drm::control::{AtomicCommitFlags, ModeTypeFlags, PlaneType};

#[test]
fn fourcc_codes_are_those_of_drm() {
    assert_eq!(fourcc::XRGB8888, DrmFourcc::Xrgb8888 as u32);
    assert_eq!(fourcc::ARGB8888, DrmFourcc::Argb8888 as u32);
    assert_eq!(fourcc::XBGR8888, DrmFourcc::Xbgr8888 as u32);
    assert_eq!(fourcc::ABGR8888, DrmFourcc::Abgr8888 as u32);
    assert_eq!(fourcc::XBGR2101010, DrmFourcc::Xbgr2101010 as u32);
    assert_eq!(fourcc::ABGR2101010, DrmFourcc::Abgr2101010 as u32);
    assert_eq!(fourcc::ABGR16161616F, DrmFourcc::Abgr16161616f as u32);
    assert_eq!(fourcc::RGB565, DrmFourcc::Rgb565 as u32);
}

#[test]
fn modifiers_are_those_of_drm() {
    assert_eq!(LINEAR, u64::from(DrmModifier::Linear));
    assert_eq!(INVALID, u64::from(DrmModifier::Invalid));
}

#[test]
fn flags_are_those_of_drm() {
    assert_eq!(MODE_TYPE_PREFERRED, ModeTypeFlags::PREFERRED.bits());
    assert_eq!(ALLOW_MODESET, AtomicCommitFlags::ALLOW_MODESET.bits());
    assert_eq!(
        ANNOUNCED_FLIP,
        (AtomicCommitFlags::PAGE_FLIP_EVENT | AtomicCommitFlags::NONBLOCK).bits()
    );
    assert_eq!(IMPORT_SYNC_FILE, drm_ffi::DRM_SYNCOBJ_FD_TO_HANDLE_FLAGS_IMPORT_SYNC_FILE);
    assert_eq!(TIMEOUT_NSEC, 500_000);
}

#[test]
fn plane_types_are_those_of_drm() {
    assert_eq!(TYPE_OVERLAY, PlaneType::Overlay as u64);
    assert_eq!(TYPE_PRIMARY, PlaneType::Primary as u64);
    assert_eq!(TYPE_CURSOR, PlaneType::Cursor as u64);
}

#[test]
fn formats_are_those_of_vulkan() {
    assert_eq!(vk_format::R5G6B5_UNORM_PACK16, vk::Format::R5G6B5_UNORM_PACK16.as_raw());
    assert_eq!(vk_format::R8G8B8A8_UNORM, vk::Format::R8G8B8A8_UNORM.as_raw());
    assert_eq!(vk_format::B8G8R8A8_UNORM, vk::Format::B8G8R8A8_UNORM.as_raw());
    assert_eq!(vk_format::A2B10G10R10_UNORM_PACK32, vk::Format::A2B10G10R10_UNORM_PACK32.as_raw());
    assert_eq!(vk_format::R16G16B16A16_SFLOAT, vk::Format::R16G16B16A16_SFLOAT.as_raw());
    assert_eq!(COLOR_ATTACHMENT, vk::FormatFeatureFlags::COLOR_ATTACHMENT.as_raw());
}

#[test]
fn image_parameters_are_those_of_vulkan() {
    assert_eq!(image::IMAGE_TYPE_2D, vk::ImageType::TYPE_2D.as_raw());
    assert_eq!(image::VIEW_TYPE_2D, vk::ImageViewType::TYPE_2D.as_raw());
    assert_eq!(image::SAMPLES_1, vk::SampleCountFlags::TYPE_1.as_raw());
    assert_eq!(
        image::TILING_DRM_FORMAT_MODIFIER,
        vk::ImageTiling::DRM_FORMAT_MODIFIER_EXT.as_raw()
    );
    assert_eq!(image::USAGE_COLOR_ATTACHMENT, vk::ImageUsageFlags::COLOR_ATTACHMENT.as_raw());
    assert_eq!(image::SHARING_EXCLUSIVE, vk::SharingMode::EXCLUSIVE.as_raw());
    assert_eq!(image::LAYOUT_UNDEFINED, vk::ImageLayout::UNDEFINED.as_raw());
    assert_eq!(image::HANDLE_DMA_BUF, vk::ExternalMemoryHandleTypeFlags::DMA_BUF_EXT.as_raw());
    assert_eq!(image::ASPECT_COLOR, vk::ImageAspectFlags::COLOR.as_raw());
}
