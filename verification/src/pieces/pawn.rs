use vstd::prelude::*;
use crate::color::Color;
use crate::game::{Chess, ChessView};
use crate::pieces::{holds_color, Piece};
use crate::tile::{Direction, Tile};

verus! {

/// The direction in which the pawns of `color` advance: up for White, down
/// for Black.
pub open spec fn forward(color: Color) -> int {
    match color {
        Color::White => 1,
        Color::Black => -1,
    }
}

/// The row on which the pawns of `color` start: rank 2 for White, rank 7
/// for Black.
pub open spec fn pawn_start_row(color: Color) -> int {
    match color {
        Color::White => 1,
        Color::Black => 6,
    }
}

impl ChessView {
    /// The advances of the pawn `pawn` on `pos`: one square forward where
    /// that square is empty, and two where the pawn stands on its starting
    /// rank, has never moved, and both squares are empty.
    pub open spec fn pawn_advances(self, pos: Tile, pawn: Piece) -> Seq<Tile> {
        let dy = forward(pawn.color);
        match pos.shifted(0, dy) {
            Some(one) => if self.at(one) is Some {
                Seq::empty()
            } else {
                seq![one] + (match one.shifted(0, dy) {
                    Some(two) => if pos.row() == pawn_start_row(pawn.color) && pawn.move_count
                        == 0 && self.at(two) is None {
                        seq![two]
                    } else {
                        Seq::empty()
                    },
                    None => Seq::empty(),
                })
            },
            None => Seq::empty(),
        }
    }

    /// The square diagonally ahead of a pawn of `color` on `pos`, `dx`
    /// files aside.
    pub open spec fn pawn_diagonal(pos: Tile, color: Color, dx: int) -> Seq<Tile> {
        match pos.shifted(dx, forward(color)) {
            Some(t) => seq![t],
            None => Seq::empty(),
        }
    }

    /// The capture of a pawn of `color` on `pos` towards the file `dx`
    /// aside: the square diagonally ahead, where a piece of the other side
    /// stands on it or it is the en-passant square.
    pub open spec fn pawn_capture(self, pos: Tile, color: Color, dx: int) -> Seq<Tile> {
        match pos.shifted(dx, forward(color)) {
            Some(t) => if self.holds_color(t, color.flipped()) || self.en_passant == Some(t) {
                seq![t]
            } else {
                Seq::empty()
            },
            None => Seq::empty(),
        }
    }

    /// Where the pawn on `pos` may go: its advances, then its captures to
    /// the left and to the right.
    pub open spec fn pawn_moves(self, pos: Tile) -> Seq<Tile>
        recommends
            self.at(pos) is Some,
    {
        let pawn = self.at(pos)->0;
        self.pawn_advances(pos, pawn) + self.pawn_capture(pos, pawn.color, -1)
            + self.pawn_capture(pos, pawn.color, 1)
    }

    /// The squares that the pawn on `pos` controls: the two diagonally
    /// ahead of it, whatever they hold.
    pub open spec fn pawn_control(self, pos: Tile) -> Seq<Tile>
        recommends
            self.at(pos) is Some,
    {
        let color = self.at(pos)->0.color;
        ChessView::pawn_diagonal(pos, color, -1) + ChessView::pawn_diagonal(pos, color, 1)
    }

    /// A pawn that has moved before never advances two squares at once,
    /// wherever it stands: each of its destinations lies exactly one rank
    /// ahead of it.
    pub proof fn lemma_moved_pawn_single_step(self, pos: Tile)
        requires
            self.wf(),
            pos.wf(),
            self.at(pos) matches Some(p) && p.move_count > 0,
        ensures
            forall|i: int|
                0 <= i < self.pawn_moves(pos).len() ==> (#[trigger] self.pawn_moves(pos)[i]).row()
                    == pos.row() + forward(self.at(pos)->0.color),
    {
        let pawn = self.at(pos)->0;
        let dy = forward(pawn.color);
        pos.lemma_coords();
        if Tile::on_board(pos.col(), pos.row() + dy) {
            Tile::lemma_at(pos.col(), pos.row() + dy);
        }
        if Tile::on_board(pos.col() - 1, pos.row() + dy) {
            Tile::lemma_at(pos.col() - 1, pos.row() + dy);
        }
        if Tile::on_board(pos.col() + 1, pos.row() + dy) {
            Tile::lemma_at(pos.col() + 1, pos.row() + dy);
        }
    }
}

/// The step of one rank forward for `color`, `dx` files aside.
fn pawn_step(color: Color, dx: i8) -> (d: Direction)
    requires
        -1 <= dx <= 1,
    ensures
        d.0 == dx,
        d.1 as int == forward(color),
{
    match color {
        Color::White => (dx, 1),
        Color::Black => (dx, -1),
    }
}

/// The squares that the pawn on `pos` controls.
pub fn get_tiles_control_pawn(board: &Chess, pos: Tile) -> (tiles: Vec<Tile>)
    requires
        board@.at(pos) is Some,
    ensures
        tiles@ == board@.pawn_control(pos),
{
    let this = board.peek(pos).unwrap();
    let mut tiles: Vec<Tile> = Vec::new();
    if let Some(t) = pos.offset(pawn_step(this.color, -1)) {
        tiles.push(t);
    }
    assert(tiles@ =~= ChessView::pawn_diagonal(pos, this.color, -1));
    let ghost left = tiles@;
    if let Some(t) = pos.offset(pawn_step(this.color, 1)) {
        tiles.push(t);
    }
    assert(tiles@ =~= left + ChessView::pawn_diagonal(pos, this.color, 1));
    tiles
}

/// Adds to `tiles` the capture of the pawn of `color` on `pos` towards the
/// file `dx` aside, if it has one.
fn push_pawn_capture(board: &Chess, pos: Tile, color: Color, dx: i8, tiles: &mut Vec<Tile>)
    requires
        -1 <= dx <= 1,
    ensures
        final(tiles)@ == old(tiles)@ + board@.pawn_capture(pos, color, dx as int),
{
    if let Some(t) = pos.offset(pawn_step(color, dx)) {
        let in_passing = match board.en_passant() {
            Some(e) => e == t,
            None => false,
        };
        if holds_color(board, t, color.flip()) || in_passing {
            tiles.push(t);
            assert(tiles@ =~= old(tiles)@ + seq![t]);
            return ;
        }
    }
    assert(tiles@ =~= old(tiles)@ + Seq::<Tile>::empty());
}

/// The squares that the pawn on `pos` may move to.
pub fn get_moves_pawn(board: &Chess, pos: Tile) -> (tiles: Vec<Tile>)
    requires
        board@.at(pos) is Some,
    ensures
        tiles@ == board@.pawn_moves(pos),
{
    let this = *board.peek(pos);
    let this = this.unwrap();
    let mut tiles: Vec<Tile> = Vec::new();
    let ahead = pawn_step(this.color, 0);
    let start_rank = match this.color {
        Color::White => '2',
        Color::Black => '7',
    };
    if let Some(one) = pos.offset(ahead) {
        if board.peek(one).is_none() {
            tiles.push(one);
            if let Some(two) = one.offset(ahead) {
                if pos.rank() == start_rank && this.move_count == 0 && board.peek(two).is_none() {
                    tiles.push(two);
                }
            }
        }
    }
    assert(tiles@ =~= board@.pawn_advances(pos, this));
    push_pawn_capture(board, pos, this.color, -1, &mut tiles);
    push_pawn_capture(board, pos, this.color, 1, &mut tiles);
    tiles
}

} // verus!
