//! Where the renderer's records are written.
use vstd::prelude::*;

verus! {

/// A sink for the bytes of the records that drawing produces.
///
/// The caller implements this trait to receive each write to its buffer, which typically
/// keeps a cursor.
pub trait BufferWithCursor {
    /// Called when `slice` is written to the buffer.
    fn write(&mut self, slice: &[u8]);
}

} // verus!
