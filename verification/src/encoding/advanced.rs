//! Buffer reuse, context tags and bit strings.

pub use crate::encoding::bitstring;
pub use crate::encoding::buffer::{BufferManager, BufferStats};
pub use crate::encoding::tag as context;
