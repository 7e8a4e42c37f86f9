//! Two dice (a d4 and a d6) rolled together.  The sum drives movement, the
//! difference drives attack damage.  A `Dice` instance draws from a scripted
//! list of rolls first (for deterministic play) and falls back to the
//! process-wide random number generator once the script is exhausted.

use vstd::prelude::*;
use rand::Rng;
use crate::contains_num;

verus! {

/// One roll of both dice.
#[derive(Debug, Clone, Copy, PartialEq, Eq, Structural)]
pub struct Roll {
    pub d4: u8,
    pub d6: u8,
}

impl Roll {
    /// A roll the dice can physically produce.
    pub open spec fn valid(self) -> bool {
        1 <= self.d4 <= 4 && 1 <= self.d6 <= 6
    }

    pub open spec fn spec_sum(self) -> usize {
        (self.d4 + self.d6) as usize
    }

    pub open spec fn spec_diff(self) -> usize {
        if self.d4 >= self.d6 {
            (self.d4 - self.d6) as usize
        } else {
            (self.d6 - self.d4) as usize
        }
    }

    /// Movement value: the two dice added, between 2 and 10.
    pub fn sum(&self) -> (r: usize)
        requires
            self.valid(),
        ensures
            r == self.spec_sum(),
            2 <= r <= 10,
    {
        (self.d4 + self.d6) as usize
    }

    /// Attack damage: the absolute difference of the dice, between 0 and 5.
    pub fn diff(&self) -> (r: usize)
        requires
            self.valid(),
        ensures
            r == self.spec_diff(),
            r <= 5,
    {
        if self.d4 >= self.d6 {
            (self.d4 - self.d6) as usize
        } else {
            (self.d6 - self.d4) as usize
        }
    }
}

/// Relies on rand::Rng::gen_range over an inclusive range, drawn from the
/// thread-local generator: returns a value inside the range, and panics only
/// when the range is empty.
#[verifier::external_body]
fn random_die(lo: u8, hi: u8) -> (r: u8)
    requires
        lo <= hi,
    ensures
        lo <= r <= hi,
{
    rand::thread_rng().gen_range(lo..=hi)
}

/// The dice the engine rolls.  `script` holds rolls to hand out first, in
/// order; when it is empty every roll is random.
#[derive(Debug)]
pub struct Dice {
    pub script: Vec<Roll>,
}

impl Dice {
    /// Every scripted roll is one the dice could produce.
    pub open spec fn wf(self) -> bool {
        forall|i: int| 0 <= i < self.script@.len() ==> (#[trigger] self.script@[i]).valid()
    }

    /// Dice backed by the random number generator alone.
    pub fn new() -> (r: Dice)
        ensures
            r.wf(),
            r.script@.len() == 0,
    {
        Dice { script: Vec::new() }
    }

    /// Dice that hand out `rolls` in order before falling back to the random
    /// number generator; lets a game be replayed deterministically.
    pub fn from_script(rolls: Vec<Roll>) -> (r: Dice)
        requires
            forall|i: int| 0 <= i < rolls@.len() ==> (#[trigger] rolls@[i]).valid(),
        ensures
            r.wf(),
            r.script@ == rolls@,
    {
        Dice { script: rolls }
    }

    /// One roll of both dice: the next scripted roll if any, else random.
    pub fn roll(&mut self) -> (r: Roll)
        requires
            old(self).wf(),
        ensures
            final(self).wf(),
            r.valid(),
            old(self).script@.len() > 0 ==> r == old(self).script@[0]
                && final(self).script@ == old(self).script@.drop_first(),
            old(self).script@.len() == 0 ==> final(self).script@ == old(self).script@,
    {
        if self.script.len() > 0 {
            let r = self.script.remove(0);
            proof {
                assert(self.script@ =~= old(self).script@.drop_first());
            }
            r
        } else {
            let d4 = random_die(1, 4);
            let d6 = random_die(1, 6);
            Roll { d4, d6 }
        }
    }

    /// Roll until the sum is none of `excluded`.  Random rolls are retried a
    /// bounded number of times; if every retry lands in `excluded`, the first
    /// admissible sum is taken outright, so the result is always admissible.
    pub fn roll_avoiding(&mut self, excluded: &Vec<usize>) -> (r: Roll)
        requires
            old(self).wf(),
            exists|s: usize| 2 <= s <= 10 && !excluded@.contains(s),
        ensures
            final(self).wf(),
            r.valid(),
            !excluded@.contains(r.spec_sum()),
    {
        let mut tries: usize = 0;
        while tries < 64
            invariant
                self.wf(),
            decreases 64 - tries,
        {
            let r = self.roll();
            if !contains_num(excluded, r.sum()) {
                return r;
            }
            tries = tries + 1;
        }
        let mut s: usize = 2;
        while s <= 10
            invariant
                self.wf(),
                2 <= s <= 11,
                forall|t: usize| 2 <= t < s ==> excluded@.contains(t),
            decreases 11 - s,
        {
            if !contains_num(excluded, s) {
                return roll_for_sum(s);
            }
            s = s + 1;
        }
        proof {
            assert(forall|t: usize| 2 <= t <= 10 ==> excluded@.contains(t));
        }
        unreached()
    }
}

/// A fixed roll whose sum is `s`.
fn roll_for_sum(s: usize) -> (r: Roll)
    requires
        2 <= s <= 10,
    ensures
        r.valid(),
        r.spec_sum() == s,
{
    let d4: u8 = if s <= 7 { 1 } else { (s - 6) as u8 };
    let d6: u8 = (s as u8) - d4;
    Roll { d4, d6 }
}

} // verus!
