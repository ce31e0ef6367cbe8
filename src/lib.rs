//! Decoder and breakpoint index for the SWD debug-information format.
pub mod bytes;
pub mod reader;
pub mod swd;
pub mod tag;

pub use reader::{load, SwdReader};
pub use swd::{Breakpoint, File, Swd};
pub use tag::{DecodeError, Tag};
