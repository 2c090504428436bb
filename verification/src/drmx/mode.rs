//! Display modes and what a display pipeline is set to.

use vstd::prelude::*;

verus! {

/// A display mode, field for field as DRM describes it.
#[derive(Debug, Clone, Copy, PartialEq, Eq)]
pub struct Mode {
    pub clock: u32,
    pub hdisplay: u16,
    pub hsync_start: u16,
    pub hsync_end: u16,
    pub htotal: u16,
    pub hskew: u16,
    pub vdisplay: u16,
    pub vsync_start: u16,
    pub vsync_end: u16,
    pub vtotal: u16,
    pub vscan: u16,
    pub vrefresh: u32,
    pub flags: u32,
    pub mode_type: u32,
    pub name: [u8; 32],
}

/// The bit of a mode's type that marks the mode as preferred.
pub const MODE_TYPE_PREFERRED: u32 = 8;

/// Calls `ModeTypeFlags::from_bits_truncate` and `ModeTypeFlags::contains` of
/// the `drm` crate, and claims that together they test the bit
/// [`MODE_TYPE_PREFERRED`].
#[verifier::external_body]
fn contains_preferred(mode_type: u32) -> (r: bool)
    ensures
        r == (mode_type & MODE_TYPE_PREFERRED != 0),
{
    drm::control::ModeTypeFlags::from_bits_truncate(mode_type).contains(
        drm::control::ModeTypeFlags::PREFERRED,
    )
}

impl Mode {
    /// The resolution: width and height in pixels.
    pub fn size(&self) -> (r: (u16, u16))
        ensures
            r == (self.hdisplay, self.vdisplay),
    {
        (self.hdisplay, self.vdisplay)
    }

    /// Whether the display prefers this mode.
    pub open spec fn preferred(self) -> bool {
        self.mode_type & MODE_TYPE_PREFERRED != 0
    }

    pub fn is_preferred(&self) -> (r: bool)
        ensures
            r == self.preferred(),
    {
        contains_preferred(self.mode_type)
    }
}

/// What a CRTC was set to.
#[derive(Debug, Clone, Copy, PartialEq, Eq)]
pub struct CrtcState {
    pub framebuffer: Option<u32>,
    pub position: (u32, u32),
    pub mode: Option<Mode>,
}

/// A mode is preferred exactly where the fourth binary digit of its type is 1,
/// whatever the others are.
pub proof fn the_fourth_digit_of_a_type_marks_preferred_modes(mode: Mode)
    ensures
        mode.preferred() <==> (mode.mode_type / 8) % 2 == 1,
{
    let mode_type = mode.mode_type;
    assert(mode_type & 8 != 0 <==> (mode_type / 8) % 2 == 1) by (bit_vector);
}

} // verus!
