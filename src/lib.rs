pub mod geometry;
pub mod session;
