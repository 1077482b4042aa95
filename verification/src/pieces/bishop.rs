use vstd::prelude::*;
use crate::game::{Chess, ChessView};
use crate::tile::{Direction, Tile};

verus! {

/// The directions in which a bishop slides: the four diagonals.
pub open spec fn bishop_directions() -> Seq<Direction> {
    seq![Tile::UPLEFT, Tile::DOWNLEFT, Tile::UPRIGHT, Tile::DOWNRIGHT]
}

impl ChessView {
    /// Where the bishop on `pos` may go: along each of its directions up to the
    /// edge of the board or the first piece, that piece's square included
    /// where it belongs to the other side.
    pub open spec fn bishop_moves(self, pos: Tile) -> Seq<Tile>
        recommends
            self.at(pos) is Some,
    {
        self.slides(pos, self.at(pos)->0.color, bishop_directions())
    }
}

/// The squares that the bishop on `pos` controls: those it may move to.
pub fn get_tiles_control_bishop(board: &Chess, pos: Tile) -> (tiles: Vec<Tile>)
    requires
        board@.at(pos) is Some,
    ensures
        tiles@ == board@.bishop_moves(pos),
{
    get_moves_bishop(board, pos)
}

/// The squares that the bishop on `pos` may move to.
pub fn get_moves_bishop(board: &Chess, pos: Tile) -> (tiles: Vec<Tile>)
    requires
        board@.at(pos) is Some,
    ensures
        tiles@ == board@.bishop_moves(pos),
{
    let this = board.peek(pos).unwrap();
    let dirs: Vec<Direction> = vec![Tile::UPLEFT, Tile::DOWNLEFT, Tile::UPRIGHT, Tile::DOWNRIGHT];
    assert(dirs@ =~= bishop_directions());
    crate::pieces::slide_moves(board, pos, this.color, &dirs)
}

} // verus!
