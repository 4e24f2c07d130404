//! The placement controller: it owns the board state and the turn tracker,
//! and decides what a click does to them.

use crate::board::{
    empty_grid, grid_wf, grid_with_stone, lemma_empty_grid, lemma_stone_added, on_board,
    setup_board, stone_count, BoardState, Grid,
};
use crate::coords::{
    cell_to_world, spec_cell_to_world, spec_world_to_cell, world_to_cell, BOARD_OFFSET, GRID_SIZE,
};
use crate::piece::{color_to_move, setup_player, CurrentPlayer, Piece, PieceColor};
use vstd::prelude::*;

verus! {

/// The marker of a stone of the given colour on the cell `(col, row)`: it
/// stands at the world position of the cell.
pub open spec fn spec_piece_at(color: PieceColor, col: int, row: int) -> Piece {
    Piece {
        color,
        x: spec_cell_to_world(col, row).0 as i64,
        y: spec_cell_to_world(col, row).1 as i64,
    }
}

/// A game as a mathematical value: what the board holds and whose turn it is.
pub struct GameModel {
    pub board: Grid,
    pub turn: PieceColor,
}

impl GameModel {
    /// The game before the first stone: an empty board, Black to move.
    pub open spec fn initial() -> GameModel {
        GameModel { board: empty_grid(), turn: PieceColor::Black }
    }

    /// Whether a stone may be placed at `(col, row)`: the cell is on the
    /// board and empty.
    pub open spec fn can_place(self, col: int, row: int) -> bool {
        on_board(col, row) && self.board[col][row] is None
    }

    /// The game after an attempt to place a stone at `(col, row)`. Where the
    /// stone may be placed, the cell holds a stone of the colour whose turn it
    /// was and the turn passes to the other colour; where it may not, nothing
    /// changes.
    pub open spec fn place(self, col: int, row: int) -> GameModel {
        if self.can_place(col, row) {
            GameModel {
                board: grid_with_stone(self.board, col, row, self.turn),
                turn: self.turn.spec_opponent(),
            }
        } else {
            self
        }
    }

    /// The marker to show for an attempt to place a stone at `(col, row)`:
    /// one of the colour whose turn it is, at the world position of the cell,
    /// where the stone may be placed; none where it may not.
    pub open spec fn piece(self, col: int, row: int) -> Option<Piece> {
        if self.can_place(col, row) {
            Some(spec_piece_at(self.turn, col, row))
        } else {
            None
        }
    }

    /// The cell that a click is aimed at: the one nearest to the pointer, or
    /// none where the pointer's position is not known.
    pub open spec fn target(pointer: Option<(i64, i64)>) -> Option<(int, int)> {
        match pointer {
            Some((x, y)) => Some(spec_world_to_cell(x as int, y as int)),
            None => None,
        }
    }

    /// The game after a click: an attempt to place a stone at the cell that
    /// the click is aimed at, or no change where it is aimed at none.
    pub open spec fn click(self, pointer: Option<(i64, i64)>) -> GameModel {
        match Self::target(pointer) {
            Some((col, row)) => self.place(col, row),
            None => self,
        }
    }

    /// The marker to show for a click.
    pub open spec fn clicked_piece(self, pointer: Option<(i64, i64)>) -> Option<Piece> {
        match Self::target(pointer) {
            Some((col, row)) => self.piece(col, row),
            None => None,
        }
    }

    /// The invariant of a game: the board has its dimensions, and the turn
    /// is the one that the number of stones on the board calls for.
    pub open spec fn wf(self) -> bool {
        &&& grid_wf(self.board)
        &&& self.turn == color_to_move(stone_count(self.board))
    }
}

/// A game in progress: the board state and the turn tracker.
#[derive(Clone, Debug, PartialEq, Eq)]
pub struct Game {
    board: BoardState,
    player: CurrentPlayer,
}

impl View for Game {
    type V = GameModel;

    closed spec fn view(&self) -> GameModel {
        GameModel { board: self.board@, turn: self.player.0 }
    }
}

impl Game {
    /// Whether the game is in a state that placements lead to.
    pub open spec fn wf(&self) -> bool {
        self@.wf()
    }

    /// A new game: the board is empty and Black moves first.
    pub fn new() -> (game: Game)
        ensures
            game@ == GameModel::initial(),
            game.wf(),
    {
        proof {
            lemma_empty_grid();
        }
        Game { board: setup_board(), player: setup_player() }
    }

    /// The board state.
    pub fn board(&self) -> (board: &BoardState)
        ensures
            board@ == self@.board,
    {
        &self.board
    }

    /// The colour that places the next stone.
    pub fn current_player(&self) -> (player: CurrentPlayer)
        ensures
            player.0 == self@.turn,
    {
        self.player
    }

    /// Whether a stone may be placed at `(col, row)`: the cell is on the
    /// board and empty.
    pub fn can_place(&self, col: i64, row: i64) -> (allowed: bool)
        ensures
            allowed == self@.can_place(col as int, row as int),
    {
        self.board.is_vacant(col, row)
    }

    /// Attempts to place a stone at `(col, row)` for the colour whose turn it
    /// is. Where the cell is on the board and empty, the stone is placed, the
    /// turn passes to the other colour, and the marker to show is returned.
    /// Anywhere else nothing changes and nothing is returned.
    pub fn place(&mut self, col: i64, row: i64) -> (piece: Option<Piece>)
        ensures
            final(self)@ == old(self)@.place(col as int, row as int),
            piece == old(self)@.piece(col as int, row as int),
            piece is Some <==> old(self)@.can_place(col as int, row as int),
            !on_board(col as int, row as int) ==> piece is None && *final(self) == *old(self),
            on_board(col as int, row as int) && old(self)@.board[col as int][row as int] is Some
                ==> piece is None && *final(self) == *old(self),
            old(self).wf() ==> final(self).wf(),
    {
        let color = self.player.0;
        if self.board.put(col, row, color) {
            self.player.toggle();
            proof {
                old(self).board.lemma_dimensions();
                lemma_stone_added(old(self)@.board, col as int, row as int, color);
            }
            let (x, y) = cell_to_world(col, row);
            Some(Piece { color, x, y })
        } else {
            None
        }
    }

    /// Handles a press of the pointer button, given the pointer's position
    /// in the world if it has one: attempts to place a stone at the nearest
    /// cell. Without a position nothing changes and nothing is returned.
    pub fn handle_click(&mut self, pointer: Option<(i64, i64)>) -> (piece: Option<Piece>)
        ensures
            final(self)@ == old(self)@.click(pointer),
            piece == old(self)@.clicked_piece(pointer),
            pointer is None ==> *final(self) == *old(self) && piece is None,
            piece is None ==> *final(self) == *old(self),
            old(self).wf() ==> final(self).wf(),
    {
        match pointer {
            Some((x, y)) => {
                let (col, row) = world_to_cell(x, y);
                self.place(col, row)
            },
            None => None,
        }
    }
}

/// The game after attempts to place a stone at each of `cells` in turn,
/// starting from a new game.
pub open spec fn after_placements(cells: Seq<(int, int)>) -> GameModel
    decreases cells.len(),
{
    if cells.len() == 0 {
        GameModel::initial()
    } else {
        after_placements(cells.drop_last()).place(cells.last().0, cells.last().1)
    }
}

/// How many of the attempts to place a stone at each of `cells` in turn,
/// starting from a new game, are accepted.
pub open spec fn accepted_placements(cells: Seq<(int, int)>) -> nat
    decreases cells.len(),
{
    if cells.len() == 0 {
        0
    } else if after_placements(cells.drop_last()).can_place(cells.last().0, cells.last().1) {
        accepted_placements(cells.drop_last()) + 1
    } else {
        accepted_placements(cells.drop_last())
    }
}

/// An attempt to place a stone where none may be placed changes neither the
/// board nor the turn, and asks for no marker: so it is off the board, and
/// so it is on a cell that holds a stone.
pub proof fn lemma_rejected_placement(game: GameModel, col: int, row: int)
    requires
        !on_board(col, row) || game.board[col][row] is Some,
    ensures
        !game.can_place(col, row),
        game.place(col, row) == game,
        game.piece(col, row) is None,
{
}

/// An accepted placement puts one stone of the colour to move on the cell,
/// leaves every other cell as it was, and passes the turn.
pub proof fn lemma_accepted_placement(game: GameModel, col: int, row: int)
    requires
        grid_wf(game.board),
        game.can_place(col, row),
    ensures
        game.place(col, row).board[col][row] == Some(game.turn),
        forall|c: int, r: int|
            on_board(c, r) && (c, r) != (col, row) ==> #[trigger] game.place(col, row).board[c][r]
                == game.board[c][r],
        game.place(col, row).turn == game.turn.spec_opponent(),
        game.place(col, row).turn != game.turn,
        stone_count(game.place(col, row).board) == stone_count(game.board) + 1,
        game.piece(col, row) == Some(spec_piece_at(game.turn, col, row)),
        spec_piece_at(game.turn, col, row).color == game.turn,
        spec_piece_at(game.turn, col, row).x == BOARD_OFFSET + col * GRID_SIZE,
        spec_piece_at(game.turn, col, row).y == BOARD_OFFSET + row * GRID_SIZE,
{
    lemma_stone_added(game.board, col, row, game.turn);
}

/// A second attempt at the same cell changes nothing, whatever the first
/// did: the stone that a cell holds is never replaced.
pub proof fn lemma_place_twice(game: GameModel, col: int, row: int)
    requires
        grid_wf(game.board),
    ensures
        game.place(col, row).place(col, row) == game.place(col, row),
        game.place(col, row).piece(col, row) is None,
{
    if game.can_place(col, row) {
        lemma_stone_added(game.board, col, row, game.turn);
    }
}

/// Every attempt to place a stone keeps the invariant of a game.
pub proof fn lemma_place_keeps_wf(game: GameModel, col: int, row: int)
    requires
        game.wf(),
    ensures
        game.place(col, row).wf(),
{
    if game.can_place(col, row) {
        lemma_stone_added(game.board, col, row, game.turn);
    }
}

/// After any run of attempts from a new game, the turn is Black's if an even
/// number of them were accepted and White's if an odd number were; the board
/// holds one stone for each accepted attempt.
pub proof fn lemma_turn_alternates(cells: Seq<(int, int)>)
    ensures
        after_placements(cells).turn == color_to_move(accepted_placements(cells)),
        accepted_placements(cells) % 2 == 0 ==> after_placements(cells).turn == PieceColor::Black,
        accepted_placements(cells) % 2 == 1 ==> after_placements(cells).turn == PieceColor::White,
        stone_count(after_placements(cells).board) == accepted_placements(cells),
        after_placements(cells).wf(),
    decreases cells.len(),
{
    if cells.len() == 0 {
        lemma_empty_grid();
    } else {
        let before = after_placements(cells.drop_last());
        lemma_turn_alternates(cells.drop_last());
        if before.can_place(cells.last().0, cells.last().1) {
            lemma_stone_added(before.board, cells.last().0, cells.last().1, before.turn);
        }
    }
}

} // verus!
