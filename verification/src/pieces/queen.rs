use vstd::prelude::*;
use crate::game::{Chess, ChessView};
use crate::tile::{Direction, Tile};

verus! {

/// The directions in which a queen slides: along files, ranks and diagonals.
pub open spec fn queen_directions() -> Seq<Direction> {
    seq![
        Tile::UP,
        Tile::DOWN,
        Tile::RIGHT,
        Tile::LEFT,
        Tile::UPLEFT,
        Tile::DOWNLEFT,
        Tile::UPRIGHT,
        Tile::DOWNRIGHT,
    ]
}

impl ChessView {
    /// Where the queen on `pos` may go: along each of its directions up to the
    /// edge of the board or the first piece, that piece's square included
    /// where it belongs to the other side.
    pub open spec fn queen_moves(self, pos: Tile) -> Seq<Tile>
        recommends
            self.at(pos) is Some,
    {
        self.slides(pos, self.at(pos)->0.color, queen_directions())
    }
}

/// The squares that the queen on `pos` controls: those it may move to.
pub fn get_tiles_control_queen(board: &Chess, pos: Tile) -> (tiles: Vec<Tile>)
    requires
        board@.at(pos) is Some,
    ensures
        tiles@ == board@.queen_moves(pos),
{
    get_moves_queen(board, pos)
}

/// The squares that the queen on `pos` may move to.
pub fn get_moves_queen(board: &Chess, pos: Tile) -> (tiles: Vec<Tile>)
    requires
        board@.at(pos) is Some,
    ensures
        tiles@ == board@.queen_moves(pos),
{
    let this = board.peek(pos).unwrap();
    let dirs: Vec<Direction> = vec![
        Tile::UP,
        Tile::DOWN,
        Tile::RIGHT,
        Tile::LEFT,
        Tile::UPLEFT,
        Tile::DOWNLEFT,
        Tile::UPRIGHT,
        Tile::DOWNRIGHT,
    ];
    assert(dirs@ =~= queen_directions());
    crate::pieces::slide_moves(board, pos, this.color, &dirs)
}

} // verus!
