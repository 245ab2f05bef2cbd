//! Spawning the demo printer thread from a key press.
//!
//! The demo thread bodies themselves run ordinary code outside the kernel
//! core; what the core provides is the fork of a new printer thread for an
//! ASCII digit key, with the digit as the thread's argument.

use vstd::prelude::*;

use crate::threads::{spec_initial_regs, TQueue};
use crate::tstack::{StackPool, MAX_THREADS, STACK_BASE, STACK_SIZE};

verus! {

/// Entry address of the demo thread that prints a face `i` times. On a real
/// board this is the function's address at link time; the model names it.
pub const THREAD_C_ENTRY: u32 = 0x0000_8000;

/// Spawns the printer thread for the ASCII digit `c`, with the digit's value
/// as its argument. A digit is required: any other key is never handed here.
/// Exhaustion of the stack pool leaves everything unchanged.
pub fn spawn(q: &mut TQueue, pool: &mut StackPool, c: char) -> (r: Option<(usize, usize)>)
    requires
        old(q).wf(),
        old(q).owns(*old(pool)),
        old(q).next_tid < usize::MAX,
        48 <= c as u32 <= 57,
    ensures
        final(q).wf(),
        final(q).owns(*final(pool)),
        final(q).current_thread == old(q).current_thread,
        match r {
            None => {
                &&& forall|j: int| 0 <= j < old(pool).capacity() ==> !old(pool).slot_free(j)
                &&& *final(q) == *old(q)
                &&& *final(pool) == *old(pool)
            },
            Some((tid, sid)) => {
                &&& tid == old(q).next_tid
                &&& final(q).next_tid == old(q).next_tid + 1
                &&& sid < MAX_THREADS
                &&& old(pool).slot_free(sid as int)
                &&& final(pool).free@ == old(pool).free@.update(sid as int, false)
                &&& final(q).queue@.len() == old(q).queue@.len() + 1
                &&& final(q).queue@.subrange(0, old(q).queue@.len() as int) == old(q).queue@
                &&& final(q).queue@.last().tid == tid
                &&& final(q).queue@.last().regs@ == spec_initial_regs(
                    THREAD_C_ENTRY,
                    (c as u32 - 48) as u32,
                    (STACK_BASE + (sid + 1) * STACK_SIZE) as u32,
                )
            },
        },
        forall|t: usize| old(q).retired(t) ==> final(q).retired(t),
{
    let d = (c as u32) - 48;
    q.fork(pool, THREAD_C_ENTRY, d)
}

} // verus!
