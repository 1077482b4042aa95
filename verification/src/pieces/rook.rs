use vstd::prelude::*;
use crate::game::{Chess, ChessView};
use crate::tile::{Direction, Tile};

verus! {

/// The directions in which a rook slides: along files and ranks.
pub open spec fn rook_directions() -> Seq<Direction> {
    seq![Tile::UP, Tile::DOWN, Tile::RIGHT, Tile::LEFT]
}

impl ChessView {
    /// Where the rook on `pos` may go: along each of its directions up to the
    /// edge of the board or the first piece, that piece's square included
    /// where it belongs to the other side.
    pub open spec fn rook_moves(self, pos: Tile) -> Seq<Tile>
        recommends
            self.at(pos) is Some,
    {
        self.slides(pos, self.at(pos)->0.color, rook_directions())
    }
}

/// The squares that the rook on `pos` controls: those it may move to.
pub fn get_tiles_control_rook(board: &Chess, pos: Tile) -> (tiles: Vec<Tile>)
    requires
        board@.at(pos) is Some,
    ensures
        tiles@ == board@.rook_moves(pos),
{
    get_moves_rook(board, pos)
}

/// The squares that the rook on `pos` may move to.
pub fn get_moves_rook(board: &Chess, pos: Tile) -> (tiles: Vec<Tile>)
    requires
        board@.at(pos) is Some,
    ensures
        tiles@ == board@.rook_moves(pos),
{
    let this = board.peek(pos).unwrap();
    let dirs: Vec<Direction> = vec![Tile::UP, Tile::DOWN, Tile::RIGHT, Tile::LEFT];
    assert(dirs@ =~= rook_directions());
    crate::pieces::slide_moves(board, pos, this.color, &dirs)
}

} // verus!
