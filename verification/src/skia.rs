//! How a canvas lays out its pixels.

use vstd::prelude::*;

verus! {

/// The pixel layouts of a Skia canvas that a scanned-out buffer can have.
#[derive(Debug, Clone, Copy, PartialEq, Eq, Structural)]
pub enum ColorType {
    RGB888x,
    RGBA8888,
    BGRA8888,
    BGR101010x,
    BGRA1010102,
    RGBAF16,
    RGB565,
}

} // verus!
