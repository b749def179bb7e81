//! The source of randomness handed into the engine. A source either draws
//! from the process-wide generator or replays a queue of given values, so
//! tests can pin every placement down.

use vstd::prelude::*;

verus! {

/// Draws numbers below a requested bound. `system()` draws fresh random
/// values; `fixed(values)` replays the given values first (each reduced
/// modulo the bound) and falls back to fresh draws once they run out.
pub struct RandomSource {
    queued: Vec<usize>,
}

/// Relies on rand::random_range over `0..n`: the draw lies in that range,
/// which is not empty.
#[verifier::external_body]
fn system_below(n: usize) -> (r: usize)
    requires
        n >= 1,
    ensures
        r < n,
{
    rand::random_range(0..n)
}

impl RandomSource {
    /// The values still queued for replay.
    pub closed spec fn queued(self) -> Seq<usize> {
        self.queued@
    }

    /// A source backed by the process-wide random generator.
    pub fn system() -> (r: RandomSource)
        ensures
            r.queued() == Seq::<usize>::empty(),
    {
        RandomSource { queued: Vec::new() }
    }

    /// A source that replays the given values in order before falling
    /// back to the process-wide generator.
    pub fn fixed(values: Vec<usize>) -> (r: RandomSource)
        ensures
            r.queued() == values@,
    {
        RandomSource { queued: values }
    }

    /// One draw strictly below `n`: the front queued value reduced modulo
    /// `n`, or a fresh random value when the queue is empty.
    pub fn below(&mut self, n: usize) -> (r: usize)
        requires
            n >= 1,
        ensures
            r < n,
            old(self).queued().len() > 0 ==> {
                &&& r == old(self).queued()[0] as int % n as int
                &&& final(self).queued() == old(self).queued().drop_first()
            },
            old(self).queued().len() == 0 ==> final(self).queued() == old(self).queued(),
    {
        if self.queued.len() > 0 {
            let v = self.queued.remove(0);
            assert(self.queued@ == old(self).queued().drop_first());
            v % n
        } else {
            system_below(n)
        }
    }
}

} // verus!
