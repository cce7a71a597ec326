//! The host-side bit-perfect checker: test configuration, the test pattern,
//! alignment and comparison of the captured stream, and the shared-mode
//! format blob.

pub mod types;
pub mod cli;
pub mod pattern;
pub mod analysis;
pub mod shared_format;
pub mod dump;
pub mod stream;
pub mod devices;
