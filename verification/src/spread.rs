//! Spreads: named layouts of positions on which cards are laid out.

use vstd::prelude::*;

verus! {

/// One named place of a spread.
#[derive(Debug)]
pub struct Position {
    pub name: String,
}

/// A named layout of positions.
#[derive(Debug)]
pub struct Spread {
    pub name: String,
    pub positions: Vec<Position>,
}

} // verus!
