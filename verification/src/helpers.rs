//! Small value types shared by every system.
pub mod dragging;
pub mod transform;
