use vstd::prelude::*;
use crate::tile::TileState;

verus! {

/// The four fixed images the game displays.
#[derive(Clone, Copy, Debug, PartialEq, Eq, Structural)]
pub enum Sprite {
    BoardBorder,
    Empty,
    Cross,
    Circle,
}

/// The image a tile in state `s` displays.
pub open spec fn tile_sprite(s: TileState) -> Sprite {
    match s {
        TileState::Empty => Sprite::Empty,
        TileState::Cross => Sprite::Cross,
        TileState::Circle => Sprite::Circle,
    }
}

/// Selects the image for a tile; it depends on the tile's state alone.
pub fn sprite_of(s: TileState) -> (r: Sprite)
    ensures
        r == tile_sprite(s),
        r != Sprite::BoardBorder,
{
    match s {
        TileState::Empty => Sprite::Empty,
        TileState::Cross => Sprite::Cross,
        TileState::Circle => Sprite::Circle,
    }
}

/// One loaded image handle for each of the four sprites.
pub struct BoardSprites<H> {
    pub board_border: H,
    pub empty: H,
    pub cross: H,
    pub circle: H,
}

impl<H> BoardSprites<H> {
    /// The handle that stands for `s`.
    pub open spec fn handle(&self, s: Sprite) -> H {
        match s {
            Sprite::BoardBorder => self.board_border,
            Sprite::Empty => self.empty,
            Sprite::Cross => self.cross,
            Sprite::Circle => self.circle,
        }
    }

    pub fn new(board_border: H, empty: H, cross: H, circle: H) -> (r: Self)
        ensures
            r.board_border == board_border,
            r.empty == empty,
            r.cross == cross,
            r.circle == circle,
    {
        BoardSprites { board_border, empty, cross, circle }
    }

    /// The handle of sprite `s`.
    pub fn image(&self, s: Sprite) -> (r: &H)
        ensures
            *r == self.handle(s),
    {
        match s {
            Sprite::BoardBorder => &self.board_border,
            Sprite::Empty => &self.empty,
            Sprite::Cross => &self.cross,
            Sprite::Circle => &self.circle,
        }
    }

    /// The handle a tile in state `s` is drawn with.
    pub fn tile_image(&self, s: TileState) -> (r: &H)
        ensures
            *r == self.handle(tile_sprite(s)),
    {
        self.image(sprite_of(s))
    }
}

} // verus!
