use recursive_tictactoe::board::{
    spawn_board, spawn_full_board, try_spawn_board, BoardError, BoardKind, FullBoard, MAX_LEVEL,
};
use recursive_tictactoe::layout::{cell_of, BOARD_CELLS};
use recursive_tictactoe::sprites::{sprite_of, BoardSprites, Sprite};
use recursive_tictactoe::tile::{cycle, Tile, TileState};

fn all_states(board: &FullBoard) -> Vec<TileState> {
    let mut out = Vec::new();
    for b in 0..BOARD_CELLS {
        for t in 0..BOARD_CELLS {
            out.push(board.tile_state(&[b], t).expect("tile exists"));
        }
    }
    out
}

#[test]
fn full_board_has_nine_leaf_boards_of_nine_empty_tiles() {
    let board = spawn_full_board();
    assert_eq!(board.boards.len(), 9);
    for b in &board.boards {
        assert_eq!(b.level, 0);
        match &b.kind {
            BoardKind::Leaf(tiles) => {
                assert_eq!(tiles.len(), 9);
                assert!(tiles.iter().all(|t| t.state() == TileState::Empty));
            }
            BoardKind::Parent(_) => panic!("a board at the deepest level must be a leaf"),
        }
    }
}

#[test]
fn fresh_board_is_empty_and_renders_empty_everywhere() {
    let board = spawn_full_board();
    let states = all_states(&board);
    assert_eq!(states.len(), 81);
    assert!(states.iter().all(|s| *s == TileState::Empty));
    for b in 0..BOARD_CELLS {
        for t in 0..BOARD_CELLS {
            assert_eq!(board.tile_sprite(&[b], t), Some(Sprite::Empty));
        }
    }
}

#[test]
fn clicking_one_tile_three_times_cycles_it_back() {
    let mut board = spawn_full_board();
    let expected = [TileState::Cross, TileState::Circle, TileState::Empty];
    for want in expected {
        assert_eq!(board.click(&[0], 4), Ok(()));
        assert_eq!(board.tile_state(&[0], 4), Some(want));
        for b in 0..BOARD_CELLS {
            for t in 0..BOARD_CELLS {
                if (b, t) != (0, 4) {
                    assert_eq!(board.tile_state(&[b], t), Some(TileState::Empty));
                }
            }
        }
    }
}

#[test]
fn click_changes_only_the_clicked_tile() {
    let mut board = spawn_full_board();
    assert_eq!(board.click(&[3], 7), Ok(()));
    assert_eq!(board.click(&[5], 0), Ok(()));
    assert_eq!(board.click(&[5], 0), Ok(()));
    let before = all_states(&board);
    assert_eq!(board.click(&[3], 7), Ok(()));
    let after = all_states(&board);
    for i in 0..81 {
        if i == 3 * 9 + 7 {
            assert_eq!(before[i], TileState::Cross);
            assert_eq!(after[i], TileState::Circle);
        } else {
            assert_eq!(before[i], after[i]);
        }
    }
    assert_eq!(board.tile_state(&[5], 0), Some(TileState::Circle));
    assert_eq!(board.tile_sprite(&[5], 0), Some(Sprite::Circle));
    assert_eq!(board.tile_sprite(&[3], 7), Some(Sprite::Circle));
}

#[test]
fn click_on_a_missing_tile_is_refused_and_changes_nothing() {
    let mut board = spawn_full_board();
    let before = all_states(&board);
    assert_eq!(board.click(&[0], 9), Err(BoardError::TileNotFound));
    assert_eq!(board.click(&[9], 0), Err(BoardError::TileNotFound));
    assert_eq!(board.click(&[], 0), Err(BoardError::TileNotFound));
    assert_eq!(board.click(&[0, 0], 0), Err(BoardError::TileNotFound));
    assert_eq!(all_states(&board), before);
    assert_eq!(board.tile_state(&[0], 9), None);
    assert_eq!(board.tile_state(&[], 0), None);
    assert_eq!(board.tile_sprite(&[0, 1], 1), None);
}

#[test]
fn building_below_the_deepest_level_fails() {
    assert!(matches!(
        try_spawn_board(MAX_LEVEL + 1),
        Err(BoardError::InvalidRecursionLevel)
    ));
    assert!(matches!(try_spawn_board(u8::MAX), Err(BoardError::InvalidRecursionLevel)));
    let b = try_spawn_board(MAX_LEVEL).expect("the deepest level is allowed");
    assert_eq!(b.level, MAX_LEVEL);
}

#[test]
fn spawned_leaf_board_clicks_directly() {
    let mut b = spawn_board(0);
    assert_eq!(b.level, 0);
    for t in 0..BOARD_CELLS {
        assert_eq!(b.tile_state(&[], t), Some(TileState::Empty));
    }
    assert_eq!(b.click(&[], 8), Ok(()));
    assert_eq!(b.tile_state(&[], 8), Some(TileState::Cross));
    assert_eq!(b.tile_state(&[], 7), Some(TileState::Empty));
    assert_eq!(b.click(&[1], 8), Err(BoardError::TileNotFound));
    assert_eq!(b.tile_state(&[], 9), None);
}

#[test]
fn cycle_has_period_three() {
    assert_eq!(cycle(TileState::Empty), TileState::Cross);
    assert_eq!(cycle(TileState::Cross), TileState::Circle);
    assert_eq!(cycle(TileState::Circle), TileState::Empty);
    for s in [TileState::Empty, TileState::Cross, TileState::Circle] {
        assert_eq!(cycle(cycle(cycle(s))), s);
        assert_ne!(cycle(s), s);
    }
}

#[test]
fn tile_click_advances_its_own_state() {
    let mut t = Tile::new();
    assert_eq!(t.state(), TileState::Empty);
    t.click();
    assert_eq!(t.state(), TileState::Cross);
    t.click();
    assert_eq!(t.state(), TileState::Circle);
    t.click();
    assert_eq!(t.state(), TileState::Empty);
}

#[test]
fn sprite_depends_on_state_alone() {
    assert_eq!(sprite_of(TileState::Empty), Sprite::Empty);
    assert_eq!(sprite_of(TileState::Cross), Sprite::Cross);
    assert_eq!(sprite_of(TileState::Circle), Sprite::Circle);
    let sprites = BoardSprites::new("board-border.png", "empty.png", "cross.png", "circle.png");
    assert_eq!(*sprites.image(Sprite::BoardBorder), "board-border.png");
    assert_eq!(*sprites.tile_image(TileState::Empty), "empty.png");
    assert_eq!(*sprites.tile_image(TileState::Cross), "cross.png");
    assert_eq!(*sprites.tile_image(TileState::Circle), "circle.png");
    assert_eq!(*sprites.tile_image(TileState::Cross), "cross.png");
}

#[test]
fn cells_are_stored_column_by_column() {
    assert_eq!(cell_of(0), (-1, -1));
    assert_eq!(cell_of(1), (-1, 0));
    assert_eq!(cell_of(2), (-1, 1));
    assert_eq!(cell_of(3), (0, -1));
    assert_eq!(cell_of(4), (0, 0));
    assert_eq!(cell_of(5), (0, 1));
    assert_eq!(cell_of(8), (1, 1));
}
