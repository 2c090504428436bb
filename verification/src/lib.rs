//! The decisions of a small DRM/KMS compositor: which display pipeline to
//! drive, which buffer layouts the plane and the renderer share, what is asked
//! of the kernel, and in which order buffers are drawn and shown.

pub mod cpu;
pub mod drmx;
pub mod format_modifier;
pub mod modifiers;
pub mod output;
pub mod scanout;
pub mod search;
pub mod select;
pub mod skia;
pub mod text;
pub mod utils;
pub mod vulkan;
