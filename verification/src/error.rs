//! The two ways in which bytes can fail to become a C string for logcat.
use vstd::prelude::*;

verus! {

/// A zero byte stood where logcat needs a null-terminated string.
#[derive(Debug, Clone, Copy, PartialEq, Eq, Structural)]
pub enum Error {
    /// The tag holds a zero byte; the payload is the index of the first one
    /// in the capped tag.
    TagConstruction(usize),
    /// A chunk of a rendered line holds a zero byte; the payload is the index
    /// of the first one in that chunk.
    ChunkEncoding(usize),
}

} // verus!
