//! The parity of a position in a word list encoding: even positions take words of
//! the even list, odd positions words of the odd list.

use vstd::prelude::*;

verus! {

/// Which of the two word lists a position uses.
#[derive(Copy, Clone, Debug, PartialEq, Eq, Structural)]
pub enum Parity {
    Even,
    Odd,
}

/// The other parity.
pub open spec fn opposite(p: Parity) -> Parity {
    match p {
        Parity::Even => Parity::Odd,
        Parity::Odd => Parity::Even,
    }
}

/// The parity of position `pos` (counted from 0) in an encoding that starts even.
pub open spec fn parity_at(pos: int) -> Parity {
    if pos % 2 == 0 {
        Parity::Even
    } else {
        Parity::Odd
    }
}

impl Parity {
    /// The other parity.
    pub fn other(self) -> (r: Parity)
        ensures
            r == opposite(self),
    {
        match self {
            Self::Even => Self::Odd,
            Self::Odd => Self::Even,
        }
    }

    /// The name of the parity: "even" or "odd".
    pub fn name(self) -> (s: &'static str)
        ensures
            s@ == parity_name(self),
    {
        match self {
            Self::Even => "even",
            Self::Odd => "odd",
        }
    }
}

/// The name of a parity.
pub open spec fn parity_name(p: Parity) -> Seq<char> {
    match p {
        Parity::Even => "even"@,
        Parity::Odd => "odd"@,
    }
}

/// A parity that flips each time it is read.
#[derive(Copy, Clone, Debug, PartialEq, Eq, Structural)]
pub struct SwappingParity {
    pub parity: Parity,
}

impl SwappingParity {
    /// A swapping parity that starts at `initial`.
    pub fn new(initial: Parity) -> (s: Self)
        ensures
            s.parity == initial,
    {
        Self { parity: initial }
    }

    /// Returns the current parity and flips to the other one.
    pub fn current_value_with_swap_side_effect(&mut self) -> (current: Parity)
        ensures
            current == old(self).parity,
            final(self).parity == opposite(old(self).parity),
    {
        let current = self.parity;
        self.parity = self.parity.other();
        current
    }

    /// The parity other than the current one.
    pub fn other(self) -> (r: Parity)
        ensures
            r == opposite(self.parity),
    {
        self.parity.other()
    }
}

/// Taking the other parity twice gives back the parity: reading a swapping parity twice
/// brings it back to where it was.
pub proof fn lemma_opposite_involution(p: Parity)
    ensures
        opposite(opposite(p)) == p,
        opposite(p) != p,
{
}

/// The parity of each position is the other parity of the position before it.
pub proof fn lemma_parity_alternates(pos: int)
    requires
        pos >= 0,
    ensures
        parity_at(pos + 1) == opposite(parity_at(pos)),
        parity_at(0) == Parity::Even,
{
}

} // verus!
