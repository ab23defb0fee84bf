use vstd::prelude::*;

verus! {

/// The kinds of block a world cell can hold.
#[derive(Debug, Clone, Copy, PartialEq, Eq, Structural)]
pub enum Blocks {
    Air,
    Dirt,
    Grass,
}

impl Blocks {
    /// How long the block takes to break, in milliseconds.
    pub open spec fn spec_hardness_ms(self) -> nat {
        match self {
            Blocks::Air => 0,
            Blocks::Dirt => 400,
            Blocks::Grass => 600,
        }
    }

    /// Time in milliseconds needed to break this block (air breaks at once).
    pub fn hardness_ms(&self) -> (ms: u32)
        ensures
            ms == self.spec_hardness_ms(),
    {
        match self {
            Blocks::Air => 0,
            Blocks::Dirt => 400,
            Blocks::Grass => 600,
        }
    }
}

} // verus!
