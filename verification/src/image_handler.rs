//! Navigation and viewport logic, independent of any UI toolkit.

pub mod formats;
pub mod geometry;
pub mod image_set;
pub mod path_order;
pub mod session;
pub mod viewport;

pub use image_set::ImageSet;
pub use session::{Intent, Response, Session};
pub use viewport::{Rejection, Transform, ViewportController};
