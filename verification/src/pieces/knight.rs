use vstd::prelude::*;
use crate::game::{Chess, ChessView};
use crate::tile::{Direction, Tile};

verus! {

/// The eight jumps of a knight.
pub open spec fn knight_jumps() -> Seq<Direction> {
    seq![
        (2i8, 1i8),
        (2i8, -1i8),
        (-2i8, 1i8),
        (-2i8, -1i8),
        (1i8, 2i8),
        (1i8, -2i8),
        (-1i8, 2i8),
        (-1i8, -2i8),
    ]
}

impl ChessView {
    /// Where the knight on `pos` may go: each of its jumps that stays on
    /// the board and does not land on a piece of its own side.
    pub open spec fn knight_moves(self, pos: Tile) -> Seq<Tile>
        recommends
            self.at(pos) is Some,
    {
        self.hops(pos, self.at(pos)->0.color, knight_jumps())
    }
}

/// The squares that the knight on `pos` controls: those it may move to.
pub fn get_tiles_control_knight(board: &Chess, pos: Tile) -> (tiles: Vec<Tile>)
    requires
        board@.at(pos) is Some,
    ensures
        tiles@ == board@.knight_moves(pos),
{
    get_moves_knight(board, pos)
}

/// The squares that the knight on `pos` may move to.
pub fn get_moves_knight(board: &Chess, pos: Tile) -> (tiles: Vec<Tile>)
    requires
        board@.at(pos) is Some,
    ensures
        tiles@ == board@.knight_moves(pos),
{
    let this = board.peek(pos).unwrap();
    let dirs: Vec<Direction> = vec![
        (2i8, 1i8),
        (2i8, -1i8),
        (-2i8, 1i8),
        (-2i8, -1i8),
        (1i8, 2i8),
        (1i8, -2i8),
        (-1i8, 2i8),
        (-1i8, -2i8),
    ];
    assert(dirs@ =~= knight_jumps());
    crate::pieces::hop_moves(board, pos, this.color, &dirs)
}

} // verus!
