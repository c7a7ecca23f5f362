//! Zero-copy views into a shared, reference-counted buffer.
//!
//! A [`Snap`] names a contiguous range of a buffer that it owns jointly
//! with every other view of that buffer. A view can be split in two
//! adjacent views and two adjacent views can be merged into one, without
//! touching the elements. Once a view is the last one left, it can take the
//! buffer back as a `Vec`.

pub mod access;
pub mod error;
pub mod laws;
pub mod shared;
pub mod snap;
pub mod text;
pub mod window;

pub use error::SnapError;
pub use snap::Snap;
pub use window::Window;
