//! Stone colours and the turn tracker.

use vstd::prelude::*;

verus! {

/// The colour of a stone, and of the player who places it.
#[derive(Clone, Copy, Debug, PartialEq, Eq, Structural)]
pub enum PieceColor {
    Black,
    White,
}

impl PieceColor {
    /// The other colour.
    pub open spec fn spec_opponent(self) -> PieceColor {
        match self {
            PieceColor::Black => PieceColor::White,
            PieceColor::White => PieceColor::Black,
        }
    }

    /// The other colour.
    #[verifier::when_used_as_spec(spec_opponent)]
    pub fn opponent(self) -> (other: PieceColor)
        ensures
            other == self.spec_opponent(),
    {
        match self {
            PieceColor::Black => PieceColor::White,
            PieceColor::White => PieceColor::Black,
        }
    }
}

/// The colour that moves once `placements` stones have been placed in turn,
/// Black moving first.
pub open spec fn color_to_move(placements: nat) -> PieceColor {
    if placements % 2 == 0 {
        PieceColor::Black
    } else {
        PieceColor::White
    }
}

/// The turn tracker: the colour that places the next stone.
#[derive(Clone, Copy, Debug, PartialEq, Eq, Structural)]
pub struct CurrentPlayer(pub PieceColor);

impl CurrentPlayer {
    /// Hands the turn to the other colour.
    pub fn toggle(&mut self)
        ensures
            final(self).0 == old(self).0.spec_opponent(),
    {
        self.0 = self.0.opponent();
    }
}

/// The turn tracker at the start of a game: Black moves first.
pub fn setup_player() -> (player: CurrentPlayer)
    ensures
        player.0 == PieceColor::Black,
        player.0 == color_to_move(0),
{
    CurrentPlayer(PieceColor::Black)
}

/// A placed stone as it is shown: its colour and the world position of its
/// marker.
#[derive(Clone, Copy, Debug, PartialEq, Eq, Structural)]
pub struct Piece {
    pub color: PieceColor,
    pub x: i64,
    pub y: i64,
}

/// Both colours are each other's opponent, and neither is its own.
pub proof fn lemma_opponent_involution(color: PieceColor)
    ensures
        color.spec_opponent() != color,
        color.spec_opponent().spec_opponent() == color,
{
}

/// Each placement hands the turn to the other colour.
pub proof fn lemma_color_to_move_alternates(placements: nat)
    ensures
        color_to_move(placements + 1) == color_to_move(placements).spec_opponent(),
{
}

} // verus!
