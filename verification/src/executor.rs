//! Work pinned to one core of the thread-affine executor.
use vstd::prelude::*;

verus! {

/// A future together with the core that it is to run on.
pub struct CoreFuture<F> {
    core_id: usize,
    future: F,
}

impl<F> CoreFuture<F> {
    pub closed spec fn spec_core_id(&self) -> usize {
        self.core_id
    }

    pub closed spec fn spec_future(&self) -> F {
        self.future
    }

    /// Pair a future with the core that it is to run on.
    pub fn new(core_id: usize, future: F) -> (f: Self)
        ensures
            f.spec_core_id() == core_id,
            f.spec_future() == future,
    {
        Self { core_id, future }
    }

    /// The core that this future runs on.
    pub fn core_id(&self) -> (c: usize)
        ensures
            c == self.spec_core_id(),
    {
        self.core_id
    }

    /// The wrapped future.
    pub fn into_inner(self) -> (f: F)
        ensures
            f == self.spec_future(),
    {
        self.future
    }
}

/// The thread that a task spawned on any thread goes to, and the spawn
/// counter after it: tasks go round the `threads` threads in turn, by the
/// counter modulo their number; the counter wraps at `usize::MAX`.
pub fn pick_any_thread(counter: usize, threads: usize) -> (r: (usize, usize))
    requires
        threads > 0,
    ensures
        r.0 == counter % threads,
        r.0 < threads,
        r.1 == (if counter == usize::MAX { 0 } else { counter + 1 }),
{
    (counter % threads, counter.wrapping_add(1))
}

/// Spawning in turn goes round the threads: unless the counter wraps, the
/// next task goes to the thread after the last one, and after the last thread
/// back to the first.
pub proof fn lemma_round_robin(counter: usize, threads: usize)
    requires
        threads > 0,
        counter < usize::MAX,
    ensures
        (counter + 1) % (threads as int) == if counter % threads + 1 == threads {
            0
        } else {
            counter % threads + 1
        },
{
    vstd::arithmetic::div_mod::lemma_add_mod_noop(counter as int, 1, threads as int);
    if threads > 1 {
        vstd::arithmetic::div_mod::lemma_small_mod(1, threads as nat);
    }
    vstd::arithmetic::div_mod::lemma_mod_bound(counter as int, threads as int);
    if counter % threads + 1 == threads {
        vstd::arithmetic::div_mod::lemma_mod_self_0(threads as int);
    } else {
        vstd::arithmetic::div_mod::lemma_small_mod((counter % threads + 1) as nat, threads as nat);
    }
}

} // verus!
