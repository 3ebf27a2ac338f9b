use vstd::prelude::*;
use crate::layout::BOARD_CELLS;
use crate::sprites::{sprite_of, tile_sprite, Sprite};
use crate::tile::{next_state, Tile, TileState};

verus! {

/// Level of the deepest boards: a board at this level holds tiles, a
/// board above it holds nine smaller boards.
pub const MAX_LEVEL: u8 = 0;

/// What goes wrong when building or clicking a board.
#[derive(Clone, Copy, Debug, PartialEq, Eq, Structural)]
pub enum BoardError {
    /// A board was asked for below the deepest level.
    InvalidRecursionLevel,
    /// No tile stands at the given path and index.
    TileNotFound,
}

/// The two shapes of a board: nine child boards, or nine tiles.
pub enum BoardKind {
    Parent(Vec<Board>),
    Leaf(Vec<Tile>),
}

/// A board of the recursive game. Its children are stored in the order
/// of `crate::layout::cell_of`.
pub struct Board {
    pub level: u8,
    pub kind: BoardKind,
}

/// The state after one click on a tile that shows `o`; no tile stays no tile.
pub open spec fn advance(o: Option<TileState>) -> Option<TileState> {
    match o {
        Some(s) => Some(next_state(s)),
        None => None,
    }
}

impl Board {
    /// Every parent has nine children one level deeper, every leaf has
    /// nine tiles, and leaves sit exactly at `MAX_LEVEL`.
    pub open spec fn wf(self) -> bool
        decreases self,
    {
        self.level <= MAX_LEVEL && match self.kind {
            BoardKind::Leaf(tiles) => self.level == MAX_LEVEL && tiles@.len() == BOARD_CELLS,
            BoardKind::Parent(children) => {
                &&& self.level < MAX_LEVEL
                &&& children@.len() == BOARD_CELLS
                &&& forall|i: int|
                    0 <= i < children@.len() ==> (#[trigger] children@[i]).level == self.level + 1
                        && children@[i].wf()
            },
        }
    }

    /// The state of the tile reached by following the child indices of
    /// `path` from this board down to a leaf, and taking tile `t` there.
    pub open spec fn tile_at(self, path: Seq<usize>, t: int) -> Option<TileState>
        decreases self,
    {
        match self.kind {
            BoardKind::Leaf(tiles) => if path.len() == 0 && 0 <= t < tiles@.len() {
                Some(tiles@[t].state)
            } else {
                None
            },
            BoardKind::Parent(children) => if path.len() > 0 && path[0] < children@.len() {
                children@[path[0] as int].tile_at(path.drop_first(), t)
            } else {
                None
            },
        }
    }

    /// Every tile of the board is empty.
    pub open spec fn all_empty(self) -> bool {
        forall|p: Seq<usize>, t: int|
            #[trigger] self.tile_at(p, t) is None || self.tile_at(p, t) == Some(TileState::Empty)
    }
}

impl Board {
    /// The state of the tile at `path[from..]` and `tile`, if there is one.
    fn tile_state_from(&self, path: &[usize], from: usize, tile: usize) -> (r: Option<TileState>)
        requires
            from <= path@.len(),
        ensures
            r == self.tile_at(path@.subrange(from as int, path@.len() as int), tile as int),
        decreases path@.len() - from,
    {
        let ghost rest = path@.subrange(from as int, path@.len() as int);
        match &self.kind {
            BoardKind::Leaf(tiles) => {
                if from == path.len() && tile < tiles.len() {
                    Some(tiles[tile].state)
                } else {
                    None
                }
            },
            BoardKind::Parent(children) => {
                if from < path.len() && path[from] < children.len() {
                    assert(rest.drop_first() =~= path@.subrange(from + 1, path@.len() as int));
                    children[path[from]].tile_state_from(path, from + 1, tile)
                } else {
                    None
                }
            },
        }
    }

    /// The state of the tile reached through the child indices of `path`
    /// and the tile index `tile`, or `None` where no tile stands there.
    pub fn tile_state(&self, path: &[usize], tile: usize) -> (r: Option<TileState>)
        ensures
            r == self.tile_at(path@, tile as int),
    {
        assert(path@.subrange(0, path@.len() as int) =~= path@);
        self.tile_state_from(path, 0, tile)
    }

    /// Clicks the tile at `path[from..]` and `tile`, if there is one.
    fn click_from(&mut self, path: &[usize], from: usize, tile: usize) -> (r: Result<(), BoardError>)
        requires
            from <= path@.len(),
        ensures
            old(self).wf() ==> final(self).wf(),
            final(self).level == old(self).level,
            r is Ok <==> old(self).tile_at(path@.subrange(from as int, path@.len() as int), tile as int) is Some,
            r is Err ==> r == Err::<(), BoardError>(BoardError::TileNotFound),
            forall|p: Seq<usize>, t: int|
                #[trigger] final(self).tile_at(p, t) == if p == path@.subrange(
                    from as int,
                    path@.len() as int,
                ) && t == tile as int {
                    advance(old(self).tile_at(p, t))
                } else {
                    old(self).tile_at(p, t)
                },
        decreases path@.len() - from,
    {
        let ghost rest = path@.subrange(from as int, path@.len() as int);
        let ghost before = *self;
        let r = match &mut self.kind {
            BoardKind::Leaf(tiles) => {
                if from == path.len() && tile < tiles.len() {
                    tiles[tile].click();
                    Ok(())
                } else {
                    Err(BoardError::TileNotFound)
                }
            },
            BoardKind::Parent(children) => {
                if from < path.len() && path[from] < children.len() {
                    let i = path[from];
                    assert(rest.drop_first() =~= path@.subrange(from + 1, path@.len() as int));
                    children[i].click_from(path, from + 1, tile)
                } else {
                    Err(BoardError::TileNotFound)
                }
            },
        };
        proof {
            assert forall|p: Seq<usize>, t: int|
                #[trigger] self.tile_at(p, t) == if p == rest && t == tile as int {
                    advance(before.tile_at(p, t))
                } else {
                    before.tile_at(p, t)
                } by {
                if p.len() == 0 && rest.len() == 0 {
                    assert(p =~= rest);
                }
                if p.len() > 0 && rest.len() > 0 && p[0] == rest[0] && p.drop_first()
                    == rest.drop_first() {
                    assert(p.drop_first().len() == rest.drop_first().len());
                    assert(p.len() == rest.len());
                    assert forall|k: int| 0 <= k < p.len() implies p[k] == rest[k] by {
                        if k > 0 {
                            assert(p[k] == p.drop_first()[k - 1]);
                            assert(rest[k] == rest.drop_first()[k - 1]);
                        }
                    }
                    assert(p =~= rest);
                }
                if p == rest && p.len() > 0 {
                    assert(p.drop_first() == rest.drop_first());
                }
                match (before.kind, self.kind) {
                    (BoardKind::Parent(oc), BoardKind::Parent(nc)) => {
                        assert(nc@.len() == oc@.len());
                        if p.len() > 0 && p[0] < oc@.len() {
                            let j = p[0] as int;
                            if rest.len() > 0 && j == rest[0] as int {
                                assert(nc@[j].tile_at(p.drop_first(), t) == if p.drop_first()
                                    == rest.drop_first() && t == tile as int {
                                    advance(oc@[j].tile_at(p.drop_first(), t))
                                } else {
                                    oc@[j].tile_at(p.drop_first(), t)
                                });
                            } else {
                                assert(nc@[j] == oc@[j]);
                            }
                        }
                    },
                    _ => {},
                }
            }
        }
        r
    }
}

impl Board {
    /// Clicks the tile reached through the child indices of `path` and the
    /// tile index `tile`: that tile advances one state and every other tile
    /// keeps its state. Fails, changing nothing, where no tile stands there.
    pub fn click(&mut self, path: &[usize], tile: usize) -> (r: Result<(), BoardError>)
        ensures
            old(self).wf() ==> final(self).wf(),
            final(self).level == old(self).level,
            r is Ok <==> old(self).tile_at(path@, tile as int) is Some,
            r is Err ==> r == Err::<(), BoardError>(BoardError::TileNotFound),
            forall|p: Seq<usize>, t: int|
                #[trigger] final(self).tile_at(p, t) == if p == path@ && t == tile as int {
                    advance(old(self).tile_at(p, t))
                } else {
                    old(self).tile_at(p, t)
                },
    {
        assert(path@.subrange(0, path@.len() as int) =~= path@);
        self.click_from(path, 0, tile)
    }
}

/// The whole game: a root board of nine boards at level 0.
pub struct FullBoard {
    pub boards: Vec<Board>,
}

impl FullBoard {
    /// Nine well-formed boards, each at level 0.
    pub open spec fn wf(self) -> bool {
        &&& self.boards@.len() == BOARD_CELLS
        &&& forall|i: int|
            0 <= i < self.boards@.len() ==> (#[trigger] self.boards@[i]).level == 0
                && self.boards@[i].wf()
    }

    /// The state of the tile reached through the child indices of `path`,
    /// starting with the index of a board of the root, and tile `t`.
    pub open spec fn tile_at(self, path: Seq<usize>, t: int) -> Option<TileState> {
        if path.len() > 0 && path[0] < self.boards@.len() {
            self.boards@[path[0] as int].tile_at(path.drop_first(), t)
        } else {
            None
        }
    }

    /// Every tile of the game is empty.
    pub open spec fn all_empty(self) -> bool {
        forall|p: Seq<usize>, t: int|
            #[trigger] self.tile_at(p, t) is None || self.tile_at(p, t) == Some(TileState::Empty)
    }

    /// The state of the tile at `path` and `tile`, or `None` where no tile
    /// stands there.
    pub fn tile_state(&self, path: &[usize], tile: usize) -> (r: Option<TileState>)
        ensures
            r == self.tile_at(path@, tile as int),
    {
        if path.len() > 0 && path[0] < self.boards.len() {
            assert(path@.subrange(1, path@.len() as int) =~= path@.drop_first());
            self.boards[path[0]].tile_state_from(path, 1, tile)
        } else {
            None
        }
    }

    /// The image the tile at `path` and `tile` is drawn with; it depends on
    /// that tile's current state alone.
    pub fn tile_sprite(&self, path: &[usize], tile: usize) -> (r: Option<Sprite>)
        ensures
            r == match self.tile_at(path@, tile as int) {
                Some(s) => Some(tile_sprite(s)),
                None => None::<Sprite>,
            },
    {
        match self.tile_state(path, tile) {
            Some(s) => Some(sprite_of(s)),
            None => None,
        }
    }

    /// Clicks the tile at `path` and `tile`: that tile advances one state
    /// and every other tile of every board keeps its state. Fails, changing
    /// nothing, where no tile stands there.
    pub fn click(&mut self, path: &[usize], tile: usize) -> (r: Result<(), BoardError>)
        ensures
            old(self).wf() ==> final(self).wf(),
            r is Ok <==> old(self).tile_at(path@, tile as int) is Some,
            r is Err ==> r == Err::<(), BoardError>(BoardError::TileNotFound),
            forall|p: Seq<usize>, t: int|
                #[trigger] final(self).tile_at(p, t) == if p == path@ && t == tile as int {
                    advance(old(self).tile_at(p, t))
                } else {
                    old(self).tile_at(p, t)
                },
    {
        let ghost before = *self;
        let r = if path.len() > 0 && path[0] < self.boards.len() {
            assert(path@.subrange(1, path@.len() as int) =~= path@.drop_first());
            let i = path[0];
            self.boards[i].click_from(path, 1, tile)
        } else {
            Err(BoardError::TileNotFound)
        };
        proof {
            assert forall|p: Seq<usize>, t: int|
                #[trigger] self.tile_at(p, t) == if p == path@ && t == tile as int {
                    advance(before.tile_at(p, t))
                } else {
                    before.tile_at(p, t)
                } by {
                if p.len() > 0 && path@.len() > 0 && p[0] == path@[0] && p.drop_first()
                    == path@.drop_first() {
                    assert(p.drop_first().len() == path@.drop_first().len());
                    assert forall|k: int| 0 <= k < p.len() implies p[k] == path@[k] by {
                        if k > 0 {
                            assert(p[k] == p.drop_first()[k - 1]);
                            assert(path@[k] == path@.drop_first()[k - 1]);
                        }
                    }
                    assert(p =~= path@);
                }
                if p == path@ && p.len() > 0 {
                    assert(p.drop_first() == path@.drop_first());
                }
            }
            if before.wf() {
                assert forall|i: int|
                    0 <= i < self.boards@.len() implies (#[trigger] self.boards@[i]).level == 0
                    && self.boards@[i].wf() by {
                    assert(before.boards@[i].wf());
                }
            }
        }
        r
    }
}

/// Builds the whole game: a root holding nine fresh boards of level 0.
pub fn spawn_full_board() -> (r: FullBoard)
    ensures
        r.wf(),
        r.all_empty(),
        forall|i: int|
            0 <= i < r.boards@.len() ==> match (#[trigger] r.boards@[i]).kind {
                BoardKind::Leaf(tiles) => tiles@.len() == BOARD_CELLS && forall|j: int|
                    0 <= j < tiles@.len() ==> (#[trigger] tiles@[j]).state == TileState::Empty,
                BoardKind::Parent(_) => false,
            },
{
    let mut boards: Vec<Board> = Vec::new();
    let mut i: usize = 0;
    while i < BOARD_CELLS
        invariant
            i <= BOARD_CELLS,
            boards@.len() == i,
            forall|j: int|
                0 <= j < i ==> (#[trigger] boards@[j]).level == 0 && boards@[j].wf()
                    && boards@[j].all_empty(),
        decreases BOARD_CELLS - i,
    {
        boards.push(spawn_board(0));
        i += 1;
    }
    let r = FullBoard { boards };
    assert forall|p: Seq<usize>, t: int|
        #[trigger] r.tile_at(p, t) is None || r.tile_at(p, t) == Some(TileState::Empty) by {
        if p.len() > 0 && p[0] < boards@.len() {
            let c = boards@[p[0] as int];
            assert(c.all_empty());
            assert(c.tile_at(p.drop_first(), t) is None || c.tile_at(p.drop_first(), t) == Some(
                TileState::Empty,
            ));
        }
    }
    assert forall|i: int| 0 <= i < r.boards@.len() implies match (#[trigger] r.boards@[i]).kind {
        BoardKind::Leaf(tiles) => tiles@.len() == BOARD_CELLS && forall|j: int|
            0 <= j < tiles@.len() ==> (#[trigger] tiles@[j]).state == TileState::Empty,
        BoardKind::Parent(_) => false,
    } by {
        let b = r.boards@[i];
        assert(b.wf() && b.all_empty());
        if let BoardKind::Leaf(tiles) = b.kind {
            assert forall|j: int| 0 <= j < tiles@.len() implies (#[trigger] tiles@[j]).state
                == TileState::Empty by {
                assert(b.tile_at(Seq::empty(), j) == Some(tiles@[j].state));
            }
        }
    }
    r
}

/// Builds a fresh board at `level`: a leaf of nine empty tiles at
/// `MAX_LEVEL`, otherwise nine fresh boards of the next level.
pub fn spawn_board(level: u8) -> (r: Board)
    requires
        level <= MAX_LEVEL,
    ensures
        r.wf(),
        r.level == level,
        r.all_empty(),
    decreases MAX_LEVEL - level,
{
    if level == MAX_LEVEL {
        let mut tiles: Vec<Tile> = Vec::new();
        let mut i: usize = 0;
        while i < BOARD_CELLS
            invariant
                i <= BOARD_CELLS,
                tiles@.len() == i,
                forall|j: int| 0 <= j < i ==> (#[trigger] tiles@[j]).state == TileState::Empty,
            decreases BOARD_CELLS - i,
        {
            tiles.push(Tile::new());
            i += 1;
        }
        let r = Board { level, kind: BoardKind::Leaf(tiles) };
        assert forall|p: Seq<usize>, t: int|
            #[trigger] r.tile_at(p, t) is None || r.tile_at(p, t) == Some(TileState::Empty) by {}
        r
    } else {
        let mut children: Vec<Board> = Vec::new();
        let mut i: usize = 0;
        while i < BOARD_CELLS
            invariant
                level < MAX_LEVEL,
                i <= BOARD_CELLS,
                children@.len() == i,
                forall|j: int|
                    0 <= j < i ==> (#[trigger] children@[j]).level == level + 1
                        && children@[j].wf() && children@[j].all_empty(),
            decreases BOARD_CELLS - i,
        {
            children.push(spawn_board(level + 1));
            i += 1;
        }
        let r = Board { level, kind: BoardKind::Parent(children) };
        assert forall|p: Seq<usize>, t: int|
            #[trigger] r.tile_at(p, t) is None || r.tile_at(p, t) == Some(TileState::Empty) by {
            if p.len() > 0 && p[0] < children@.len() {
                let c = children@[p[0] as int];
                assert(c.all_empty());
                assert(c.tile_at(p.drop_first(), t) is None || c.tile_at(p.drop_first(), t) == Some(
                    TileState::Empty,
                ));
            }
        }
        r
    }
}

/// Like `spawn_board`, but refuses a level below the deepest one
/// instead of requiring the caller to rule it out.
pub fn try_spawn_board(level: u8) -> (r: Result<Board, BoardError>)
    ensures
        r is Err <==> level > MAX_LEVEL,
        r is Err ==> r == Err::<Board, BoardError>(BoardError::InvalidRecursionLevel),
        r matches Ok(b) ==> b.wf() && b.level == level && b.all_empty(),
{
    if level > MAX_LEVEL {
        Err(BoardError::InvalidRecursionLevel)
    } else {
        Ok(spawn_board(level))
    }
}

} // verus!
