//! Drawing with Vulkan: which layouts can be drawn to, how a buffer is made fit
//! to be drawn to, and what is submitted to draw a frame.

pub mod buffer;
pub mod format;
pub mod image;
pub mod render;

use std::collections::HashSet;
use vstd::prelude::*;

verus! {

broadcast use vstd::std_specs::hash::group_hash_axioms;

/// A Vulkan device that is ready to draw, by the handles of its command pool
/// and of its queue.
#[derive(Debug, Clone, Copy, PartialEq, Eq, Structural)]
pub struct Vulkan {
    pub pool: u64,
    pub queue: u64,
}

/// What Vulkan can do with images of one modifier.
#[derive(Debug, Clone, Copy, PartialEq, Eq, Structural)]
pub struct ModifierProperties {
    pub modifier: u64,
    /// The bits of what images with the modifier can be used for.
    pub tiling_features: u32,
}

/// The bit that says that an image can be drawn to.
pub const COLOR_ATTACHMENT: u32 = 0x80;

/// Calls `FormatFeatureFlags::from_raw` and `FormatFeatureFlags::contains` of
/// the `ash` crate, and claims that together they test the bit
/// [`COLOR_ATTACHMENT`].
#[verifier::external_body]
fn contains_color_attachment(features: u32) -> (r: bool)
    ensures
        r == (features & COLOR_ATTACHMENT == COLOR_ATTACHMENT),
{
    ash::vk::FormatFeatureFlags::from_raw(features).contains(
        ash::vk::FormatFeatureFlags::COLOR_ATTACHMENT,
    )
}

impl ModifierProperties {
    /// Whether images with the modifier can be drawn to.
    pub open spec fn drawable(self) -> bool {
        self.tiling_features & COLOR_ATTACHMENT == COLOR_ATTACHMENT
    }
}

/// The modifier `m` is among those that can be drawn to.
pub open spec fn drawable_modifier(properties: Seq<ModifierProperties>, m: u64) -> bool {
    exists|k: int|
        0 <= k < properties.len() && (#[trigger] properties[k]).drawable() && properties[k].modifier
            == m
}

impl Vulkan {
    /// The modifiers that can be drawn to, out of all that the device knows.
    pub fn modifiers(&self, properties: &Vec<ModifierProperties>) -> (r: HashSet<u64>)
        ensures
            forall|m: u64| #[trigger] r@.contains(m) <==> drawable_modifier(properties@, m),
    {
        let mut drawable: HashSet<u64> = HashSet::new();
        let mut i: usize = 0;
        while i < properties.len()
            invariant
                i <= properties@.len(),
                forall|m: u64| #[trigger]
                    drawable@.contains(m) <==> drawable_modifier(properties@.take(i as int), m),
            decreases properties@.len() - i,
        {
            let p = properties[i];
            let ghost before = drawable@;
            if contains_color_attachment(p.tiling_features) {
                drawable.insert(p.modifier);
            }
            proof {
                let shorter = properties@.take(i as int);
                let longer = properties@.take(i + 1);
                assert forall|m: u64| #[trigger] drawable@.contains(m) <==> drawable_modifier(
                    longer,
                    m,
                ) by {
                    if drawable_modifier(longer, m) {
                        let k = choose|k: int|
                            0 <= k < longer.len() && (#[trigger] longer[k]).drawable()
                                && longer[k].modifier == m;
                        if k < i {
                            assert(shorter[k] == longer[k]);
                        }
                    }
                    if before.contains(m) {
                        let k = choose|k: int|
                            0 <= k < shorter.len() && (#[trigger] shorter[k]).drawable()
                                && shorter[k].modifier == m;
                        assert(longer[k] == shorter[k]);
                    }
                    assert(longer[i as int] == p);
                }
            }
            i = i + 1;
        }
        assert(properties@.take(i as int) =~= properties@);
        drawable
    }
}

/// Why Vulkan could not be used. Errors of the loader and of the device come
/// with their text or their number.
#[derive(Debug)]
pub enum VulkanError {
    Loading(String),
    Vulkan(i32),
    Io(std::io::Error),
    UnsupportedDmaMemory,
    Fd(String),
    Other(String),
}

impl VulkanError {
    /// The text that tells a user what is wrong. An error of the device or of
    /// std brings its own text, and has none here.
    pub open spec fn text(self) -> Option<Seq<char>> {
        match self {
            VulkanError::Loading(text) | VulkanError::Fd(text) | VulkanError::Other(text) => Some(
                text@,
            ),
            VulkanError::UnsupportedDmaMemory => Some(
                "no supported DMA memory type can be imported into Vulkan"@,
            ),
            VulkanError::Vulkan(_) | VulkanError::Io(_) => None,
        }
    }

    pub fn message(&self) -> (r: Option<String>)
        ensures
            match r {
                Some(message) => self.text() == Some(message@),
                None => self.text() is None,
            },
    {
        match self {
            VulkanError::Loading(text) => Some(text.as_str().to_owned()),
            VulkanError::Fd(text) => Some(text.as_str().to_owned()),
            VulkanError::Other(text) => Some(text.as_str().to_owned()),
            VulkanError::UnsupportedDmaMemory => Some(
                "no supported DMA memory type can be imported into Vulkan".to_owned(),
            ),
            VulkanError::Vulkan(_) => None,
            VulkanError::Io(_) => None,
        }
    }
}

impl From<String> for VulkanError {
    fn from(value: String) -> (r: Self) {
        VulkanError::Other(value)
    }
}

impl vstd::std_specs::convert::FromSpecImpl<String> for VulkanError {
    open spec fn obeys_from_spec() -> bool {
        true
    }

    open spec fn from_spec(value: String) -> Self {
        VulkanError::Other(value)
    }
}

/// A modifier is offered exactly where some properties of it have the eighth binary
/// digit of their features set, whatever their other features are.
pub proof fn the_eighth_digit_of_features_marks_drawable_modifiers(
    properties: Seq<ModifierProperties>,
    m: u64,
)
    ensures
        drawable_modifier(properties, m) <==> exists|k: int|
            {
                &&& 0 <= k < properties.len()
                &&& (#[trigger] properties[k]).modifier == m
                &&& (properties[k].tiling_features / 128) % 2 == 1
            },
{
    assert forall|k: int| 0 <= k < properties.len() implies (#[trigger] properties[k]).drawable()
        == ((properties[k].tiling_features / 128) % 2 == 1) by {
        let features = properties[k].tiling_features;
        assert((features & 0x80 == 0x80) == ((features / 128) % 2 == 1)) by (bit_vector);
    }
}

/// A text that an error carries is told as it is. Errors of the device and of std
/// bring their own.
pub proof fn texts_are_told_as_they_are(error: VulkanError, text: String)
    ensures
        VulkanError::Loading(text).text() == Some(text@),
        VulkanError::Fd(text).text() == Some(text@),
        VulkanError::Other(text).text() == Some(text@),
        <VulkanError as vstd::std_specs::convert::FromSpec<String>>::from_spec(text)
            == VulkanError::Other(text),
        error.text() is None <==> error is Vulkan || error is Io,
{
}

} // verus!
