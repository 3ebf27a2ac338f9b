use vstd::prelude::*;

verus! {

/// What a playable tile currently shows.
#[derive(Clone, Copy, Debug, PartialEq, Eq, Structural)]
pub enum TileState {
    Empty,
    Cross,
    Circle,
}

/// The state that follows `s` when its tile is clicked:
/// `Empty -> Cross -> Circle -> Empty`.
pub open spec fn next_state(s: TileState) -> TileState {
    match s {
        TileState::Empty => TileState::Cross,
        TileState::Cross => TileState::Circle,
        TileState::Circle => TileState::Empty,
    }
}

/// Advances a tile state by one click.
pub fn cycle(s: TileState) -> (r: TileState)
    ensures
        r == next_state(s),
{
    match s {
        TileState::Empty => TileState::Cross,
        TileState::Cross => TileState::Circle,
        TileState::Circle => TileState::Empty,
    }
}

/// Cycling is a permutation of period three: three clicks bring every
/// state back to itself, and no state is fixed by a single click.
pub proof fn lemma_cycle_period(s: TileState)
    ensures
        next_state(next_state(next_state(s))) == s,
        next_state(s) != s,
        next_state(next_state(s)) != s,
{
}

/// A playable tile of a leaf board; it owns its own state.
#[derive(Clone, Copy, Debug, PartialEq, Eq, Structural)]
pub struct Tile {
    pub state: TileState,
}

impl Tile {
    /// A fresh tile, showing nothing.
    pub fn new() -> (r: Tile)
        ensures
            r.state == TileState::Empty,
    {
        Tile { state: TileState::Empty }
    }

    /// The tile's current state.
    pub fn state(&self) -> (r: TileState)
        ensures
            r == self.state,
    {
        self.state
    }

    /// Reacts to a click on this tile by advancing its state.
    pub fn click(&mut self)
        ensures
            final(self).state == next_state(old(self).state),
    {
        self.state = cycle(self.state);
    }
}

} // verus!
