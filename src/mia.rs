//! Throws of two dice and how they rank in a game of Mia.
use vstd::prelude::*;

verus! {

/// A throw of two dice; each die counts from 0 to 5 once reduced.
#[derive(Clone, Copy, Debug, PartialEq, Eq, Structural)]
pub struct DiceThrow {
    pub d1: u8,
    pub d2: u8,
}

impl DiceThrow {
    /// The throw is (0, 1) in either order.
    pub open spec fn spec_is_mia(self) -> bool {
        (self.d1 == 0 && self.d2 == 1) || (self.d2 == 0 && self.d1 == 1)
    }

    /// The throw is (0, 2) in either order.
    pub open spec fn spec_is_little_mia(self) -> bool {
        (self.d1 == 0 && self.d2 == 2) || (self.d2 == 0 && self.d1 == 2)
    }

    /// Either die shows `face`.
    pub open spec fn shows(self, face: u8) -> bool {
        self.d1 == face || self.d2 == face
    }

    /// The score of a throw: Mia above all, then Little Mia, then the pairs from
    /// (5, 5) down to (0, 0), then the other throws by their higher and lower die.
    pub open spec fn score(self) -> int {
        (if self.spec_is_mia() { 128int } else { 0 }) + (if self.spec_is_little_mia() {
            64int
        } else {
            0
        }) + (if self.d1 == self.d2 { 32int } else { 0 }) + (if self.shows(5) { 16int } else { 0 })
            + (if self.shows(4) { 8int } else { 0 }) + (if self.shows(3) { 4int } else { 0 }) + (
        if self.shows(2) {
            2int
        } else {
            0
        }) + (if self.shows(1) { 1int } else { 0 })
    }

    /// A throw of `d1` and `d2`.
    pub fn new(d1: u8, d2: u8) -> (r: DiceThrow)
        ensures
            r.d1 == d1 && r.d2 == d2,
    {
        DiceThrow { d1, d2 }
    }

    /// The throw with each die reduced to a face between 0 and 5.
    pub fn reduce(&self) -> (r: DiceThrow)
        ensures
            r.d1 == self.d1 % 6,
            r.d2 == self.d2 % 6,
    {
        DiceThrow { d1: self.d1 % 6, d2: self.d2 % 6 }
    }

    /// Whether this throw scores at least as well as `actual`.
    pub fn better_than_or_equal(self, actual: DiceThrow) -> (r: bool)
        ensures
            r == (self.score() >= actual.score()),
    {
        self.get_throw_score() >= actual.get_throw_score()
    }

    /// Whether the throw is Mia, (0, 1) or (1, 0).
    pub fn is_mia(self) -> (r: bool)
        ensures
            r == self.spec_is_mia(),
    {
        (self.d1 == 0 && self.d2 == 1) || (self.d2 == 0 && self.d1 == 1)
    }

    /// Whether the throw is Little Mia, (0, 2) or (2, 0).
    pub fn is_little_mia(self) -> (r: bool)
        ensures
            r == self.spec_is_little_mia(),
    {
        (self.d1 == 0 && self.d2 == 2) || (self.d2 == 0 && self.d1 == 2)
    }

    /// Whether both dice show the same face.
    pub fn is_pair(self) -> (r: bool)
        ensures
            r == (self.d1 == self.d2),
    {
        self.d1 == self.d2
    }

    /// The score of the throw.
    pub fn get_throw_score(self) -> (r: u8)
        ensures
            r == self.score(),
    {
        let mut value: u8 = 0;
        if self.is_mia() {
            value += 128;
        }
        if self.is_little_mia() {
            value += 64;
        }
        if self.is_pair() {
            value += 32;
        }
        if (self.d1 == 5) || (self.d2 == 5) {
            value += 16;
        }
        if (self.d1 == 4) || (self.d2 == 4) {
            value += 8;
        }
        if (self.d1 == 3) || (self.d2 == 3) {
            value += 4;
        }
        if (self.d1 == 2) || (self.d2 == 2) {
            value += 2;
        }
        if (self.d1 == 1) || (self.d2 == 1) {
            value += 1;
        }
        value
    }
}

/// Mia scores above every other throw of reduced dice.
pub proof fn lemma_mia_beats_all(mia: DiceThrow, other: DiceThrow)
    requires
        mia.spec_is_mia(),
        !other.spec_is_mia(),
        other.d1 < 6,
        other.d2 < 6,
    ensures
        mia.score() > other.score(),
{
}

} // verus!
