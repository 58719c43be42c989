//! What the remote site tells about a user's courses and their sections.
pub mod courses;
pub mod section;
