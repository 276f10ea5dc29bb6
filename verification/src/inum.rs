//! The inode number allocator: a counter that the key-value store holds for
//! the whole cluster.

use vstd::prelude::*;
use crate::error::{Errno, MetaError};

verus! {

/// The first inode number that is handed out; 1 is the root.
pub const INUM_START: u64 = 2;

/// An inode number, and the value that the counter takes when it is handed
/// out.
#[derive(Clone, Copy, Debug, PartialEq, Eq, Structural)]
pub struct InumGrant {
    /// The number to use.
    pub ino: u64,
    /// The counter after the allocation.
    pub next: u64,
}

/// The value of the counter before an allocation, given what the store holds:
/// a store without a counter, or with one below the first number, starts at
/// [`INUM_START`].
pub open spec fn counter_of(stored: Option<u64>) -> u64 {
    match stored {
        Some(c) => if c < INUM_START {
            INUM_START
        } else {
            c
        },
        None => INUM_START,
    }
}

/// What an allocation gives for the stored counter: the value of the counter
/// as the number, and one more as the new counter; `ENOSPC` at the end of the
/// numbers.
pub open spec fn alloc_spec(stored: Option<u64>) -> Result<InumGrant, MetaError> {
    let c = counter_of(stored);
    if c == u64::MAX {
        Err(MetaError::Posix(Errno::ENOSPC))
    } else {
        Ok(InumGrant { ino: c, next: (c + 1) as u64 })
    }
}

/// The allocator of inode numbers. It holds no state of its own: the counter
/// lives in the store, and the caller writes back the new value with a
/// compare-and-swap against the value it read.
#[derive(Clone, Copy, Debug)]
pub struct INumAllocator {}

impl INumAllocator {
    /// An allocator.
    pub fn new() -> (a: INumAllocator) {
        INumAllocator {  }
    }

    /// Takes the next inode number from the counter value `stored` that was
    /// read from the store.
    pub fn alloc_inum_for_fnode(&self, stored: Option<u64>) -> (r: Result<InumGrant, MetaError>)
        ensures
            r == alloc_spec(stored),
    {
        let c: u64 = match stored {
            Some(c) => if c < INUM_START {
                INUM_START
            } else {
                c
            },
            None => INUM_START,
        };
        if c == u64::MAX {
            Err(MetaError::Posix(Errno::ENOSPC))
        } else {
            Ok(InumGrant { ino: c, next: c + 1 })
        }
    }
}

/// The allocator never hands out zero or the root's number, the counter
/// only rises, and of two allocations, the second of which starts from the
/// counter that the first left, the second gives the greater number.
pub proof fn lemma_alloc_rises(stored: Option<u64>)
    ensures
        alloc_spec(stored) matches Ok(g) ==> {
            &&& g.ino >= INUM_START
            &&& g.ino != 0 && g.ino != 1
            &&& g.next == g.ino + 1
            &&& stored matches Some(c) ==> g.ino >= c && g.next > c
            &&& alloc_spec(Some(g.next)) matches Ok(h) ==> h.ino > g.ino
        },
{
}

} // verus!
