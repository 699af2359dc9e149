use vstd::prelude::*;

verus! {

/// Number of levels laid out side by side in the level strip.
pub const LEVELS_LEN: usize = 3;

/// The left and right neighbours of a level in the strip.
#[derive(Copy, Clone, Debug, PartialEq, Eq, Structural)]
pub struct LevelNeighbors {
    pub left: Option<usize>,
    pub right: Option<usize>,
}

impl LevelNeighbors {
    /// Neighbours of `index` in a strip of `LEVELS_LEN` levels; an index
    /// outside the strip has none.
    pub fn for_level(index: usize) -> (r: Self)
        ensures
            r.left == (if index < LEVELS_LEN && index > 0 { Some((index - 1) as usize) } else { None::<usize> }),
            r.right == (if index + 1 < LEVELS_LEN { Some((index + 1) as usize) } else { None::<usize> }),
    {
        if index >= LEVELS_LEN {
            return Self { left: None, right: None };
        }
        let left = if index == 0 { None } else { Some(index - 1) };
        let right = if index + 1 < LEVELS_LEN { Some(index + 1) } else { None };
        Self { left, right }
    }
}

} // verus!
