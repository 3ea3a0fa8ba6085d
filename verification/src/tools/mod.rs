//! Development and testing tools.
pub mod tracking_allocator;
