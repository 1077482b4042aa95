use vstd::prelude::*;
use crate::color::Color;
use crate::game::{Chess, ChessView};
use crate::pieces::{hop_moves, ChessPiece, Piece};
use crate::tile::{Direction, Tile};

verus! {

/// The eight steps of a king.
pub open spec fn king_steps() -> Seq<Direction> {
    seq![
        Tile::UP,
        Tile::DOWN,
        Tile::LEFT,
        Tile::RIGHT,
        Tile::UPLEFT,
        Tile::UPRIGHT,
        Tile::DOWNLEFT,
        Tile::DOWNRIGHT,
    ]
}

/// Where the castling flag of `color` stands among the four rights: the
/// king side first, then the queen side; White's before Black's.
pub open spec fn castle_slot(color: Color, kingside: bool) -> int {
    (match color {
        Color::White => 0int,
        Color::Black => 2int,
    }) + (if kingside {
        0int
    } else {
        1int
    })
}

/// The file direction of castling: to the right on the king side, to the
/// left on the queen side.
pub open spec fn castle_side(kingside: bool) -> int {
    if kingside {
        1
    } else {
        -1
    }
}

/// Whether `occupant` is a rook of `color` that has never moved.
pub open spec fn is_fresh_rook(occupant: Option<Piece>, color: Color) -> bool {
    occupant matches Some(p) && p.typ == ChessPiece::Rook && p.color == color && p.move_count == 0
}

impl ChessView {
    /// The castling destination of the king of `color` on `pos` towards
    /// one side: two files from `pos`, offered where that side's right
    /// still stands and the ray from the king towards that side ends on a
    /// rook of `color` that has never moved.
    pub open spec fn castle(self, pos: Tile, color: Color, kingside: bool) -> Seq<Tile> {
        let dx = castle_side(kingside);
        let r = self.ray(pos, dx, 0);
        if self.castle_rights[castle_slot(color, kingside)] && r.len() > 0 && is_fresh_rook(
            self.at(r.last()),
            color,
        ) {
            match pos.shifted(2 * dx, 0) {
                Some(t) => seq![t],
                None => Seq::empty(),
            }
        } else {
            Seq::empty()
        }
    }

    /// The squares next to the king on `pos` that hold no piece of its own
    /// side.
    pub open spec fn king_control(self, pos: Tile) -> Seq<Tile>
        recommends
            self.at(pos) is Some,
    {
        self.hops(pos, self.at(pos)->0.color, king_steps())
    }

    /// Where the king on `pos` may go: the squares next to it that hold no
    /// piece of its own side, then its castling destinations, king side
    /// first.
    pub open spec fn king_moves(self, pos: Tile) -> Seq<Tile>
        recommends
            self.at(pos) is Some,
    {
        let color = self.at(pos)->0.color;
        self.king_control(pos) + self.castle(pos, color, true) + self.castle(pos, color, false)
    }
}

/// The squares that the king on `pos` controls.
pub fn get_tiles_control_king(board: &Chess, pos: Tile) -> (tiles: Vec<Tile>)
    requires
        board@.at(pos) is Some,
    ensures
        tiles@ == board@.king_control(pos),
{
    let this = board.peek(pos).unwrap();
    let dirs: Vec<Direction> = vec![
        Tile::UP,
        Tile::DOWN,
        Tile::LEFT,
        Tile::RIGHT,
        Tile::UPLEFT,
        Tile::UPRIGHT,
        Tile::DOWNLEFT,
        Tile::DOWNRIGHT,
    ];
    assert(dirs@ =~= king_steps());
    hop_moves(board, pos, this.color, &dirs)
}

/// Adds to `tiles` the castling destination of the king of `color` on
/// `pos` towards one side, if castling there is on offer.
fn push_castle(board: &Chess, pos: Tile, color: Color, kingside: bool, tiles: &mut Vec<Tile>)
    requires
        board@.at(pos) is Some,
    ensures
        final(tiles)@ == old(tiles)@ + board@.castle(pos, color, kingside),
{
    let base: usize = match color {
        Color::White => 0,
        Color::Black => 2,
    };
    let slot: usize = if kingside {
        base
    } else {
        base + 1
    };
    let side: Direction = if kingside {
        Tile::RIGHT
    } else {
        Tile::LEFT
    };
    let jump: Direction = if kingside {
        (2, 0)
    } else {
        (-2, 0)
    };
    if board.castle_rights[slot] {
        let ray = board.ray(pos, side);
        let n = ray.len();
        if n > 0 {
            let fresh = match board.peek(ray[n - 1]) {
                Some(p) => p.typ == ChessPiece::Rook && p.color == color && p.move_count == 0,
                None => false,
            };
            if fresh {
                if let Some(t) = pos.offset(jump) {
                    tiles.push(t);
                    assert(tiles@ =~= old(tiles)@ + seq![t]);
                    return ;
                }
            }
        }
    }
    assert(tiles@ =~= old(tiles)@ + Seq::<Tile>::empty());
}

/// The squares that the king on `pos` may move to, castling included.
/// Whether a square is attacked plays no part.
pub fn get_moves_king(board: &Chess, pos: Tile) -> (tiles: Vec<Tile>)
    requires
        board@.at(pos) is Some,
    ensures
        tiles@ == board@.king_moves(pos),
{
    let this = *board.peek(pos);
    let this = this.unwrap();
    let mut tiles = get_tiles_control_king(board, pos);
    push_castle(board, pos, this.color, true, &mut tiles);
    push_castle(board, pos, this.color, false, &mut tiles);
    tiles
}

} // verus!
