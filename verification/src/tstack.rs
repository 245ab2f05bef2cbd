//! Mini stack memory allocator for an 8-thread kernel.
//!
//! The pool is a fixed row of stack slots with a free/used flag per slot. On
//! a real board each slot is a 16 KB buffer in static storage; here the pool
//! carries the flags, and `stack_top` gives the address a slot's stack grows
//! down from.

use vstd::prelude::*;

verus! {

/// Number of stack slots the kernel provides.
pub const MAX_THREADS: usize = 8;

/// Bytes in each thread stack.
pub const STACK_SIZE: usize = 16 * 1024;

/// Address of the first byte of the stack region.
pub const STACK_BASE: u32 = 0x0010_0000;

/// How a release request can be rejected.
#[derive(Clone, Copy, Debug, PartialEq, Eq, Structural)]
pub enum PoolError {
    /// The slot index lies outside the pool.
    InvalidIndex,
    /// The slot is already free.
    DoubleFree,
}

/// Fixed pool of stack slots; `free[i]` is true iff slot `i` is unowned.
pub struct StackPool {
    pub free: Vec<bool>,
}

/// Number of slots of `s` that are in use.
pub open spec fn count_used(s: Seq<bool>) -> int
    decreases s.len(),
{
    if s.len() == 0 {
        0
    } else {
        count_used(s.drop_last()) + if s.last() {
            0int
        } else {
            1int
        }
    }
}

/// A pool never has more slots in use than it has slots.
pub proof fn lemma_count_used_bounded(s: Seq<bool>)
    ensures
        0 <= count_used(s) <= s.len(),
    decreases s.len(),
{
    if s.len() > 0 {
        lemma_count_used_bounded(s.drop_last());
    }
}

/// Every slot is in use exactly when the in-use count reaches the length.
pub proof fn lemma_count_used_full(s: Seq<bool>)
    ensures
        (count_used(s) == s.len()) <==> (forall|i: int| 0 <= i < s.len() ==> !s[i]),
    decreases s.len(),
{
    if s.len() > 0 {
        lemma_count_used_full(s.drop_last());
        lemma_count_used_bounded(s.drop_last());
        if count_used(s) == s.len() {
            assert forall|i: int| 0 <= i < s.len() implies !s[i] by {
                if i < s.len() - 1 {
                    assert(!s.drop_last()[i]);
                }
            }
        }
        if forall|i: int| 0 <= i < s.len() ==> !s[i] {
            assert(forall|i: int| 0 <= i < s.drop_last().len() ==> !s.drop_last()[i]);
        }
    }
}

/// Marking a free slot used raises the in-use count by exactly one.
pub proof fn lemma_count_used_take(s: Seq<bool>, i: int)
    requires
        0 <= i < s.len(),
        s[i],
    ensures
        count_used(s.update(i, false)) == count_used(s) + 1,
    decreases s.len(),
{
    if i == s.len() - 1 {
        assert(s.update(i, false).drop_last() =~= s.drop_last());
    } else {
        assert(s.update(i, false).drop_last() =~= s.drop_last().update(i, false));
        lemma_count_used_take(s.drop_last(), i);
    }
}

/// Marking a used slot free lowers the in-use count by exactly one.
pub proof fn lemma_count_used_put(s: Seq<bool>, i: int)
    requires
        0 <= i < s.len(),
        !s[i],
    ensures
        count_used(s.update(i, true)) == count_used(s) - 1,
    decreases s.len(),
{
    if i == s.len() - 1 {
        assert(s.update(i, true).drop_last() =~= s.drop_last());
    } else {
        assert(s.update(i, true).drop_last() =~= s.drop_last().update(i, true));
        lemma_count_used_put(s.drop_last(), i);
    }
}

impl StackPool {
    /// Pool capacity: the number of slots.
    pub open spec fn capacity(self) -> nat {
        self.free@.len()
    }

    /// True iff slot `i` is unowned.
    pub open spec fn slot_free(self, i: int) -> bool {
        self.free@[i]
    }

    /// Slots of the pool that are in use.
    pub open spec fn in_use(self) -> int {
        count_used(self.free@)
    }

    /// A fresh pool of `capacity` slots, all free.
    pub fn new(capacity: usize) -> (r: StackPool)
        ensures
            r.capacity() == capacity,
            forall|i: int| 0 <= i < capacity ==> r.slot_free(i),
    {
        let mut free: Vec<bool> = Vec::new();
        let mut i: usize = 0;
        while i < capacity
            invariant
                i <= capacity,
                free@.len() == i,
                forall|j: int| 0 <= j < i ==> free@[j],
            decreases capacity - i,
        {
            free.push(true);
            i += 1;
        }
        StackPool { free }
    }

    /// Returns the lowest free slot, marked used, or `None` when every slot
    /// is owned — exhaustion, which callers must treat as recoverable.
    pub fn stack_alloc(&mut self) -> (r: Option<usize>)
        ensures
            final(self).capacity() == old(self).capacity(),
            match r {
                Some(i) => {
                    &&& i < old(self).capacity()
                    &&& old(self).slot_free(i as int)
                    &&& forall|j: int| 0 <= j < i ==> !old(self).slot_free(j)
                    &&& final(self).free@ == old(self).free@.update(i as int, false)
                    &&& final(self).in_use() == old(self).in_use() + 1
                },
                None => {
                    &&& forall|j: int| 0 <= j < old(self).capacity() ==> !old(self).slot_free(j)
                    &&& *final(self) == *old(self)
                },
            },
    {
        let n = self.free.len();
        let mut i: usize = 0;
        while i < n
            invariant
                i <= n,
                n == self.capacity(),
                *self == *old(self),
                forall|j: int| 0 <= j < i ==> !self.slot_free(j),
            decreases n - i,
        {
            if self.free[i] {
                self.free.set(i, false);
                proof {
                    lemma_count_used_take(old(self).free@, i as int);
                }
                return Some(i);
            }
            i += 1;
        }
        None
    }

    /// Frees slot `i`, making it available again. A release of an out-of-range
    /// index or of a slot already free is rejected and changes nothing.
    pub fn stack_free(&mut self, i: usize) -> (r: Result<(), PoolError>)
        ensures
            final(self).capacity() == old(self).capacity(),
            i >= old(self).capacity() ==> {
                &&& r == Err::<(), PoolError>(PoolError::InvalidIndex)
                &&& *final(self) == *old(self)
            },
            i < old(self).capacity() && old(self).slot_free(i as int) ==> {
                &&& r == Err::<(), PoolError>(PoolError::DoubleFree)
                &&& *final(self) == *old(self)
            },
            i < old(self).capacity() && !old(self).slot_free(i as int) ==> {
                &&& r == Ok::<(), PoolError>(())
                &&& final(self).free@ == old(self).free@.update(i as int, true)
                &&& final(self).in_use() == old(self).in_use() - 1
            },
    {
        if i >= self.free.len() {
            return Err(PoolError::InvalidIndex);
        }
        if self.free[i] {
            return Err(PoolError::DoubleFree);
        }
        self.free.set(i, true);
        proof {
            lemma_count_used_put(old(self).free@, i as int);
        }
        Ok(())
    }
}

/// Address just past slot `sid`'s buffer: the value a fresh thread's stack
/// pointer starts at, since stacks grow downwards.
pub fn stack_top(sid: usize) -> (r: u32)
    requires
        sid < MAX_THREADS,
    ensures
        r == STACK_BASE + (sid + 1) * STACK_SIZE,
{
    STACK_BASE + ((sid as u32) + 1) * (STACK_SIZE as u32)
}

} // verus!
