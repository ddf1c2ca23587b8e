//! The arena allocator: serves zero-initialized instance storage for a
//! class layout and owns every block it has ever produced until the arena
//! itself is dropped. Each block is its own heap allocation held in an
//! append-only list, so arena growth never disturbs earlier blocks.

use vstd::prelude::*;
use crate::classes::Class;

verus! {

/// Handle to one allocation: the stable index of its block within the
/// arena that produced it, valid for the arena's lifetime.
pub type AllocationHandle = usize;

/// Raised when an allocation request exceeds the arena's remaining
/// resources. Fatal to the request only: the arena and every block it
/// served before stay intact.
#[derive(Debug)]
pub struct AllocationError;

/// The contents of a freshly served block: `n` zeroed bytes.
pub open spec fn zero_block(n: nat) -> Seq<u8> {
    Seq::new(n, |k: int| 0u8)
}

/// The allocation capability: hands out zero-initialized instance storage
/// for class layouts, retaining ownership of every block produced. There is
/// no per-block free operation; blocks live exactly as long as their
/// allocator.
pub trait Allocator: Sized {
    /// Every block this allocator has produced so far, oldest first.
    spec fn blocks(&self) -> Seq<Seq<u8>>;

    /// Whether a request for `n` more bytes is within the allocator's
    /// remaining resources.
    spec fn can_allocate(&self, n: nat) -> bool;

    /// Serves storage for one instance of `class`: a fresh block of exactly
    /// `class.instance_size` bytes, every byte zero, appended after all
    /// blocks served before, which remain unchanged. The returned handle is
    /// the new block's stable index. The request fails exactly when it
    /// exceeds the remaining resources, and a failed request leaves the
    /// allocator untouched; a successful one consumes exactly the block's
    /// size from the resources.
    fn allocate(&mut self, class: &Class) -> (r: Result<AllocationHandle, AllocationError>)
        requires
            class.wf(),
        ensures
            match r {
                Ok(handle) => {
                    &&& old(self).can_allocate(class.instance_size as nat)
                    &&& handle == old(self).blocks().len()
                    &&& final(self).blocks() == old(self).blocks().push(
                        zero_block(class.instance_size as nat),
                    )
                    &&& forall|k: int|
                        0 <= k < old(self).blocks().len() ==> final(self).blocks()[k] == old(
                            self,
                        ).blocks()[k]
                    &&& forall|m: nat|
                        final(self).can_allocate(m) <==> old(self).can_allocate(
                            (m + class.instance_size) as nat,
                        )
                },
                Err(_) => {
                    &&& !old(self).can_allocate(class.instance_size as nat)
                    &&& *final(self) == *old(self)
                },
            },
    ;
}

/// The one arena shipped with this core. Its ownership list is append-only
/// and each block is an independent heap allocation, so previously issued
/// handles and views stay valid as the arena grows. An optional byte budget
/// bounds the total it will serve, standing in for the machine's real
/// resource limit.
pub struct BasicAllocator {
    allocations: Vec<Vec<u8>>,
    remaining: Option<usize>,
}

impl BasicAllocator {
    /// The byte budget still available; `None` means unbounded.
    pub closed spec fn budget(&self) -> Option<usize> {
        self.remaining
    }

    /// An empty arena with no byte budget.
    pub fn new() -> (r: BasicAllocator)
        ensures
            r.blocks().len() == 0,
            r.budget() is None,
    {
        BasicAllocator { allocations: Vec::new(), remaining: None }
    }

    /// An empty arena that will serve at most `limit` bytes in total, for
    /// exercising callers against resource exhaustion.
    pub fn with_limit(limit: usize) -> (r: BasicAllocator)
        ensures
            r.blocks().len() == 0,
            r.budget() == Some(limit),
    {
        BasicAllocator { allocations: Vec::new(), remaining: Some(limit) }
    }

    /// Number of blocks served so far.
    pub fn block_count(&self) -> (n: usize)
        ensures
            n == self.blocks().len(),
    {
        self.allocations.len()
    }

    /// Length in bytes of the block behind `handle`.
    pub fn block_len(&self, handle: AllocationHandle) -> (n: usize)
        requires
            handle < self.blocks().len(),
        ensures
            n == self.blocks()[handle as int].len(),
    {
        self.allocations[handle].len()
    }

    /// Reads one byte of the block behind `handle`.
    pub fn read_byte(&self, handle: AllocationHandle, at: usize) -> (b: u8)
        requires
            handle < self.blocks().len(),
            at < self.blocks()[handle as int].len(),
        ensures
            b == self.blocks()[handle as int][at as int],
    {
        self.allocations[handle][at]
    }

    /// Writes one byte of the block behind `handle`. Every other byte of
    /// that block, every other block, and the budget stay as they were.
    pub fn write_byte(&mut self, handle: AllocationHandle, at: usize, value: u8)
        requires
            handle < old(self).blocks().len(),
            at < old(self).blocks()[handle as int].len(),
        ensures
            final(self).blocks() == old(self).blocks().update(
                handle as int,
                old(self).blocks()[handle as int].update(at as int, value),
            ),
            final(self).budget() == old(self).budget(),
    {
        self.allocations[handle][at] = value;
        proof {
            assert(self.blocks() =~= old(self).blocks().update(
                handle as int,
                old(self).blocks()[handle as int].update(at as int, value),
            ));
        }
    }
}

impl Default for BasicAllocator {
    /// Same as `new`: an empty arena with no byte budget.
    fn default() -> (r: Self)
        ensures
            r.blocks().len() == 0,
            r.budget() is None,
    {
        BasicAllocator::new()
    }
}

impl Allocator for BasicAllocator {
    /// The views of the blocks in the ownership list, in allocation order.
    closed spec fn blocks(&self) -> Seq<Seq<u8>> {
        Seq::new(self.allocations@.len(), |k: int| self.allocations@[k]@)
    }

    /// Unbounded, or no more than the bytes left in the budget.
    open spec fn can_allocate(&self, n: nat) -> bool {
        match self.budget() {
            None => true,
            Some(rem) => n <= rem,
        }
    }

    fn allocate(&mut self, class: &Class) -> (r: Result<AllocationHandle, AllocationError>) {
        match self.remaining {
            Some(rem) => {
                if class.instance_size <= rem {
                    self.remaining = Some(rem - class.instance_size);
                } else {
                    return Err(AllocationError);
                }
            },
            None => {},
        }
        let mut block: Vec<u8> = Vec::new();
        let mut filled: usize = 0;
        while filled < class.instance_size
            invariant
                filled <= class.instance_size,
                block@ == zero_block(filled as nat),
            decreases class.instance_size - filled,
        {
            block.push(0u8);
            filled += 1;
            proof {
                assert(block@ =~= zero_block(filled as nat));
            }
        }
        let handle = self.allocations.len();
        self.allocations.push(block);
        proof {
            assert(self.blocks() =~= old(self).blocks().push(
                zero_block(class.instance_size as nat),
            ));
        }
        Ok(handle)
    }
}

} // verus!
