//! Discovery and classification of the block devices attached to the host.
pub mod json;
pub mod laws;
pub mod linux;
pub mod size;
pub mod sysdisk;
pub mod text;
pub mod types;
pub mod windows;
