//! Plain descriptions of what DRM offers and of what it is asked for.

pub mod atomic_req;
pub mod format;
pub mod fourcc;
pub mod mode;
pub mod property;

pub use self::format::Format;
pub use self::mode::Mode;
