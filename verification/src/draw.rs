//! The scheduler's only source of nondeterminism: uniform integer draws.
//!
//! Everything random flows through [`DrawSource`], so a seeded or fully
//! scripted source can stand in for the thread-local generator in tests.

use vstd::prelude::*;

verus! {

/// Draws integers uniformly from half-open ranges `[0, n)`.
pub trait DrawSource {
    /// Draw an integer in `[0, n)`.
    fn draw(&mut self, n: usize) -> (r: usize)
        requires
            n > 0,
        ensures
            r < n,
    ;
}

/// Draw source backed by the thread-local random generator.
pub struct RandomDraw;

impl RandomDraw {
    pub fn new() -> RandomDraw {
        RandomDraw
    }
}

/// Relies on rand's `RngExt::random_range` over `0..n`: the result lies in
/// the range, and `n > 0` keeps the range non-empty so the call cannot panic.
#[verifier::external_body]
fn random_below(n: usize) -> (r: usize)
    requires
        n > 0,
    ensures
        r < n,
{
    rand::RngExt::random_range(&mut rand::rng(), 0..n)
}

impl DrawSource for RandomDraw {
    fn draw(&mut self, n: usize) -> (r: usize) {
        random_below(n)
    }
}

/// Draw source that replays a fixed script.
///
/// Each scripted value is clamped into the requested range; once the script
/// is exhausted every draw yields 0.
pub struct ScriptedDraw {
    script: Vec<usize>,
    next: usize,
}

impl ScriptedDraw {
    /// The values this source has not yet replayed.
    pub closed spec fn spec_remaining(self) -> Seq<usize> {
        if self.next <= self.script@.len() {
            self.script@.skip(self.next as int)
        } else {
            Seq::empty()
        }
    }

    pub fn new(script: Vec<usize>) -> (s: ScriptedDraw)
        ensures
            s.spec_remaining() == script@,
    {
        ScriptedDraw { script, next: 0 }
    }
}

impl DrawSource for ScriptedDraw {
    fn draw(&mut self, n: usize) -> (r: usize)
        ensures
            old(self).spec_remaining().len() > 0 ==> {
                &&& final(self).spec_remaining() == old(self).spec_remaining().skip(1)
                &&& r == (if old(self).spec_remaining()[0] < n {
                    old(self).spec_remaining()[0]
                } else {
                    (n - 1) as usize
                })
            },
            old(self).spec_remaining().len() == 0 ==> {
                &&& final(self).spec_remaining() == old(self).spec_remaining()
                &&& r == 0
            },
    {
        let v: usize = if self.next < self.script.len() {
            let x = self.script[self.next];
            self.next = self.next + 1;
            x
        } else {
            0
        };
        if v < n {
            v
        } else {
            n - 1
        }
    }
}

} // verus!
