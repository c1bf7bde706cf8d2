//! Counting the bytes of a download.

use vstd::prelude::*;

verus! {

/// `received` and `len` added, stopping at the largest 64-bit number.
pub open spec fn add_bytes(received: u64, len: nat) -> u64 {
    if received + len > u64::MAX {
        u64::MAX
    } else {
        (received + len) as u64
    }
}

/// The count after a chunk of `len` bytes arrived. A count never goes
/// down and never wraps round.
pub fn count_chunk(received: u64, len: usize) -> (counted: u64)
    ensures
        counted == add_bytes(received, len as nat),
        counted >= received,
{
    received.saturating_add(len as u64)
}

/// Adding bytes never lowers a count, and adds exactly where the sum fits.
pub proof fn lemma_add_bytes_grows(received: u64, len: nat)
    ensures
        add_bytes(received, len) >= received,
        received + len <= u64::MAX ==> add_bytes(received, len) == received + len,
        add_bytes(received, 0) == received,
{
}

/// Adding bytes in two portions gives what adding them at once gives.
pub proof fn lemma_add_bytes_twice(received: u64, first: nat, second: nat)
    ensures
        add_bytes(add_bytes(received, first), second) == add_bytes(received, first + second),
{
}

} // verus!
