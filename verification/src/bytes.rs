//! Byte buffers.

use vstd::prelude::*;

verus! {

/// Sets every byte of the buffer to zero.
pub fn clear_bytes(buffer: &mut [u8])
    ensures
        final(buffer)@ == Seq::new(old(buffer)@.len(), |i: int| 0u8),
{
    let len = buffer.len();
    for i in 0..len
        invariant
            len == buffer@.len(),
            buffer@.len() == old(buffer)@.len(),
            forall|j: int| 0 <= j < i ==> buffer@[j] == 0,
    {
        buffer[i] = 0;
    }
}

/// Appends the bytes to the buffer.
pub fn append_bytes(buffer: &mut Vec<u8>, data: &[u8])
    ensures
        final(buffer)@ == old(buffer)@ + data@,
{
    buffer.extend_from_slice(data);
    assert(buffer@ =~= old(buffer)@ + data@);
}

} // verus!
