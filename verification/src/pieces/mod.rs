use vstd::prelude::*;
use crate::color::Color;
use crate::game::{Chess, ChessView};
use crate::tile::{Direction, Tile};

pub mod bishop;
pub mod king;
pub mod knight;
pub mod pawn;
pub mod queen;
pub mod rook;

verus! {

/// The six kinds of chess piece.
#[derive(Copy, Clone, Debug, PartialEq, Eq, Structural)]
pub enum ChessPiece {
    King,
    Queen,
    Rook,
    Bishop,
    Knight,
    Pawn,
}

impl ChessPiece {
    /// The flag that stands for the kind in the one-byte encoding of a piece.
    pub open spec fn flag(self) -> u8 {
        match self {
            ChessPiece::King => 2,
            ChessPiece::Queen => 4,
            ChessPiece::Rook => 8,
            ChessPiece::Bishop => 16,
            ChessPiece::Knight => 32,
            ChessPiece::Pawn => 64,
        }
    }

    /// Gives the kind's flag: a single bit, from bit 1 for the king to
    /// bit 6 for the pawn.
    pub fn bits(self) -> (b: u8)
        ensures
            b == self.flag(),
    {
        match self {
            ChessPiece::King => 2,
            ChessPiece::Queen => 4,
            ChessPiece::Rook => 8,
            ChessPiece::Bishop => 16,
            ChessPiece::Knight => 32,
            ChessPiece::Pawn => 64,
        }
    }
}

/// A piece on the board. `move_count` says how often it has been moved; it
/// alone decides whether a pawn may still advance two squares and whether a
/// rook may still castle.
#[derive(Copy, Clone, Debug, PartialEq, Eq, Structural)]
pub struct Piece {
    pub typ: ChessPiece,
    pub color: Color,
    pub move_count: usize,
}

impl Piece {
    /// A piece that has not moved yet.
    pub fn new(typ: ChessPiece, color: Color) -> (p: Piece)
        ensures
            p == (Piece { typ, color, move_count: 0 }),
    {
        Piece { typ, color, move_count: 0 }
    }

    /// The piece that a letter of a position record names: upper case for
    /// White, lower case for Black.
    pub open spec fn of_letter(c: char) -> Option<Piece> {
        if c == 'K' {
            Some(Piece { typ: ChessPiece::King, color: Color::White, move_count: 0 })
        } else if c == 'Q' {
            Some(Piece { typ: ChessPiece::Queen, color: Color::White, move_count: 0 })
        } else if c == 'R' {
            Some(Piece { typ: ChessPiece::Rook, color: Color::White, move_count: 0 })
        } else if c == 'B' {
            Some(Piece { typ: ChessPiece::Bishop, color: Color::White, move_count: 0 })
        } else if c == 'N' {
            Some(Piece { typ: ChessPiece::Knight, color: Color::White, move_count: 0 })
        } else if c == 'P' {
            Some(Piece { typ: ChessPiece::Pawn, color: Color::White, move_count: 0 })
        } else if c == 'k' {
            Some(Piece { typ: ChessPiece::King, color: Color::Black, move_count: 0 })
        } else if c == 'q' {
            Some(Piece { typ: ChessPiece::Queen, color: Color::Black, move_count: 0 })
        } else if c == 'r' {
            Some(Piece { typ: ChessPiece::Rook, color: Color::Black, move_count: 0 })
        } else if c == 'b' {
            Some(Piece { typ: ChessPiece::Bishop, color: Color::Black, move_count: 0 })
        } else if c == 'n' {
            Some(Piece { typ: ChessPiece::Knight, color: Color::Black, move_count: 0 })
        } else if c == 'p' {
            Some(Piece { typ: ChessPiece::Pawn, color: Color::Black, move_count: 0 })
        } else {
            None
        }
    }

    /// Reads a piece from its letter; any other character names none.
    pub fn from_letter(c: char) -> (p: Option<Piece>)
        ensures
            p == Piece::of_letter(c),
    {
        match c {
            'K' => Some(Piece::new(ChessPiece::King, Color::White)),
            'Q' => Some(Piece::new(ChessPiece::Queen, Color::White)),
            'R' => Some(Piece::new(ChessPiece::Rook, Color::White)),
            'B' => Some(Piece::new(ChessPiece::Bishop, Color::White)),
            'N' => Some(Piece::new(ChessPiece::Knight, Color::White)),
            'P' => Some(Piece::new(ChessPiece::Pawn, Color::White)),
            'k' => Some(Piece::new(ChessPiece::King, Color::Black)),
            'q' => Some(Piece::new(ChessPiece::Queen, Color::Black)),
            'r' => Some(Piece::new(ChessPiece::Rook, Color::Black)),
            'b' => Some(Piece::new(ChessPiece::Bishop, Color::Black)),
            'n' => Some(Piece::new(ChessPiece::Knight, Color::Black)),
            'p' => Some(Piece::new(ChessPiece::Pawn, Color::Black)),
            _ => None,
        }
    }

    /// The letter that names the piece in a position record.
    pub open spec fn letter_of(self) -> char {
        match (self.typ, self.color) {
            (ChessPiece::King, Color::White) => 'K',
            (ChessPiece::Queen, Color::White) => 'Q',
            (ChessPiece::Rook, Color::White) => 'R',
            (ChessPiece::Bishop, Color::White) => 'B',
            (ChessPiece::Knight, Color::White) => 'N',
            (ChessPiece::Pawn, Color::White) => 'P',
            (ChessPiece::King, Color::Black) => 'k',
            (ChessPiece::Queen, Color::Black) => 'q',
            (ChessPiece::Rook, Color::Black) => 'r',
            (ChessPiece::Bishop, Color::Black) => 'b',
            (ChessPiece::Knight, Color::Black) => 'n',
            (ChessPiece::Pawn, Color::Black) => 'p',
        }
    }

    /// Gives the letter that names the piece in a position record. Read
    /// back, the letter gives a piece of the same kind and colour.
    pub fn letter(&self) -> (c: char)
        ensures
            c == self.letter_of(),
            Piece::of_letter(c) == Some(
                Piece { typ: self.typ, color: self.color, move_count: 0 },
            ),
    {
        match (self.typ, self.color) {
            (ChessPiece::King, Color::White) => 'K',
            (ChessPiece::Queen, Color::White) => 'Q',
            (ChessPiece::Rook, Color::White) => 'R',
            (ChessPiece::Bishop, Color::White) => 'B',
            (ChessPiece::Knight, Color::White) => 'N',
            (ChessPiece::Pawn, Color::White) => 'P',
            (ChessPiece::King, Color::Black) => 'k',
            (ChessPiece::Queen, Color::Black) => 'q',
            (ChessPiece::Rook, Color::Black) => 'r',
            (ChessPiece::Bishop, Color::Black) => 'b',
            (ChessPiece::Knight, Color::Black) => 'n',
            (ChessPiece::Pawn, Color::Black) => 'p',
        }
    }

    /// The figurine that shows the piece in a drawing of the board: the
    /// outlined figures for Black, the solid ones for White.
    pub open spec fn figurine(self) -> char {
        match (self.typ, self.color) {
            (ChessPiece::King, Color::Black) => '\u{2654}',
            (ChessPiece::Queen, Color::Black) => '\u{2655}',
            (ChessPiece::Rook, Color::Black) => '\u{2656}',
            (ChessPiece::Bishop, Color::Black) => '\u{2657}',
            (ChessPiece::Knight, Color::Black) => '\u{2658}',
            (ChessPiece::Pawn, Color::Black) => '\u{2659}',
            (ChessPiece::King, Color::White) => '\u{265A}',
            (ChessPiece::Queen, Color::White) => '\u{265B}',
            (ChessPiece::Rook, Color::White) => '\u{265C}',
            (ChessPiece::Bishop, Color::White) => '\u{265D}',
            (ChessPiece::Knight, Color::White) => '\u{265E}',
            (ChessPiece::Pawn, Color::White) => '\u{265F}',
        }
    }

    /// Gives the figurine that shows the piece in a drawing of the board.
    pub fn symbol(&self) -> (c: char)
        ensures
            c == self.figurine(),
    {
        match (self.typ, self.color) {
            (ChessPiece::King, Color::Black) => '\u{2654}',
            (ChessPiece::Queen, Color::Black) => '\u{2655}',
            (ChessPiece::Rook, Color::Black) => '\u{2656}',
            (ChessPiece::Bishop, Color::Black) => '\u{2657}',
            (ChessPiece::Knight, Color::Black) => '\u{2658}',
            (ChessPiece::Pawn, Color::Black) => '\u{2659}',
            (ChessPiece::King, Color::White) => '\u{265A}',
            (ChessPiece::Queen, Color::White) => '\u{265B}',
            (ChessPiece::Rook, Color::White) => '\u{265C}',
            (ChessPiece::Bishop, Color::White) => '\u{265D}',
            (ChessPiece::Knight, Color::White) => '\u{265E}',
            (ChessPiece::Pawn, Color::White) => '\u{265F}',
        }
    }

    /// The piece after one more relocation. The count stops at the largest
    /// value that the machine can hold.
    pub open spec fn relocated(self) -> Piece {
        Piece {
            typ: self.typ,
            color: self.color,
            move_count: if self.move_count < usize::MAX {
                (self.move_count + 1) as usize
            } else {
                self.move_count
            },
        }
    }

    /// Counts one relocation of the piece. Kind and colour stay; the count
    /// never goes down.
    pub fn moved(self) -> (p: Piece)
        ensures
            p == self.relocated(),
            p.move_count >= self.move_count,
    {
        let n: usize = if self.move_count < usize::MAX {
            self.move_count + 1
        } else {
            self.move_count
        };
        Piece { typ: self.typ, color: self.color, move_count: n }
    }

    /// The byte that stands for the piece on the wire: the kind's flag, plus
    /// 1 for a white piece.
    pub open spec fn code(self) -> u8 {
        (self.typ.flag() + if self.color == Color::White { 1int } else { 0int }) as u8
    }

    /// The byte of a piece tells its kind and its colour: two pieces with
    /// the same byte are of the same kind and on the same side, and no
    /// piece has the byte 0.
    pub proof fn lemma_code_tells_piece(self, other: Piece)
        ensures
            self.code() != 0,
            self.code() == other.code() ==> self.typ == other.typ && self.color == other.color,
    {
    }

    /// Encodes the piece in one byte. The byte is never 0, which stands for
    /// an empty square.
    pub fn as_byte(&self) -> (b: u8)
        ensures
            b == self.code(),
            b != 0,
    {
        let side: u8 = match self.color {
            Color::White => 1,
            Color::Black => 0,
        };
        self.typ.bits() + side
    }
}

/// The byte that stands for what a square holds: 0 for an empty square.
pub open spec fn occupant_code(occupant: Option<Piece>) -> u8 {
    match occupant {
        Some(p) => p.code(),
        None => 0,
    }
}

impl ChessView {
    /// Whether a piece of `color` stands on `tile`.
    pub open spec fn holds_color(self, tile: Tile, color: Color) -> bool {
        self.at(tile) matches Some(p) && p.color == color
    }

    /// Where a piece of `color` on `pos` gets by the single step `dir`: the
    /// square there, unless it is off the board or holds a piece of `color`.
    pub open spec fn hop(self, pos: Tile, color: Color, dir: Direction) -> Seq<Tile> {
        match pos.shifted(dir.0 as int, dir.1 as int) {
            Some(t) => if self.holds_color(t, color) {
                Seq::empty()
            } else {
                seq![t]
            },
            None => Seq::empty(),
        }
    }

    /// The squares that the single steps `dirs` reach from `pos`, in the
    /// order of `dirs`.
    pub open spec fn hops(self, pos: Tile, color: Color, dirs: Seq<Direction>) -> Seq<Tile>
        decreases dirs.len(),
    {
        if dirs.len() == 0 {
            Seq::empty()
        } else {
            self.hops(pos, color, dirs.drop_last()) + self.hop(pos, color, dirs.last())
        }
    }

    /// Where a piece of `color` on `pos` slides to in direction `dir`: the
    /// ray from `pos`, without its last square where a piece of `color`
    /// stands there.
    pub open spec fn slide(self, pos: Tile, color: Color, dir: Direction) -> Seq<Tile> {
        let r = self.ray(pos, dir.0 as int, dir.1 as int);
        if r.len() > 0 && self.holds_color(r.last(), color) {
            r.drop_last()
        } else {
            r
        }
    }

    /// The squares that a piece of `color` on `pos` slides to along `dirs`,
    /// direction after direction.
    pub open spec fn slides(self, pos: Tile, color: Color, dirs: Seq<Direction>) -> Seq<Tile>
        decreases dirs.len(),
    {
        if dirs.len() == 0 {
            Seq::empty()
        } else {
            self.slides(pos, color, dirs.drop_last()) + self.slide(pos, color, dirs.last())
        }
    }
}

impl ChessView {
    /// A piece never slides onto a piece of its own side, nor past any
    /// piece: each square that it slides to in one direction is on the
    /// board and holds no piece of `color`, and each but the last holds
    /// nothing at all.
    pub proof fn lemma_slide_blocked(self, pos: Tile, color: Color, dir: Direction, i: int)
        requires
            self.wf(),
            pos.wf(),
            dir.0 != 0 || dir.1 != 0,
            0 <= i < self.slide(pos, color, dir).len(),
        ensures
            self.slide(pos, color, dir)[i].wf(),
            !self.holds_color(self.slide(pos, color, dir)[i], color),
            i + 1 < self.slide(pos, color, dir).len() ==> self.at(self.slide(pos, color, dir)[i])
                is None,
    {
        self.lemma_ray_line(pos, dir.0 as int, dir.1 as int, i);
    }

    /// A piece slides onto the first piece in its way exactly where that
    /// piece belongs to the other side: the slide in one direction is the
    /// whole ray then, and the ray without its last square where a piece
    /// of `color` blocks it.
    pub proof fn lemma_slide_capture(self, pos: Tile, color: Color, dir: Direction)
        requires
            self.wf(),
            pos.wf(),
            dir.0 != 0 || dir.1 != 0,
            self.ray(pos, dir.0 as int, dir.1 as int).len() > 0,
        ensures
            self.at(self.ray(pos, dir.0 as int, dir.1 as int).last()) matches Some(p) ==> (
            self.slide(pos, color, dir).contains(self.ray(pos, dir.0 as int, dir.1 as int).last())
                <==> p.color != color),
    {
        let r = self.ray(pos, dir.0 as int, dir.1 as int);
        let end = r.last();
        if self.holds_color(end, color) {
            if self.slide(pos, color, dir).contains(end) {
                let k = choose|k: int| 0 <= k < r.drop_last().len() && r.drop_last()[k] == end;
                self.lemma_ray_line(pos, dir.0 as int, dir.1 as int, k);
            }
        } else {
            assert(r[r.len() - 1] == end);
        }
    }
}

/// Whether a piece of `color` stands on `tile`.
pub fn holds_color(board: &Chess, tile: Tile, color: Color) -> (b: bool)
    ensures
        b == board@.holds_color(tile, color),
        tile.wf(),
{
    match board.peek(tile) {
        Some(p) => p.color == color,
        None => false,
    }
}

/// Collects the squares that the single steps `dirs` reach from `pos` for a
/// piece of `color`: those on the board that hold no piece of `color`.
pub fn hop_moves(board: &Chess, pos: Tile, color: Color, dirs: &Vec<Direction>) -> (tiles: Vec<
    Tile,
>)
    ensures
        tiles@ == board@.hops(pos, color, dirs@),
{
    let mut tiles: Vec<Tile> = Vec::new();
    let mut i: usize = 0;
    while i < dirs.len()
        invariant
            i <= dirs@.len(),
            tiles@ == board@.hops(pos, color, dirs@.take(i as int)),
        decreases dirs@.len() - i,
    {
        let d = dirs[i];
        proof {
            assert(dirs@.take(i + 1).drop_last() =~= dirs@.take(i as int));
            assert(dirs@.take(i + 1).last() == d);
        }
        let ghost before = tiles@;
        match pos.offset(d) {
            Some(t) => {
                if !holds_color(board, t, color) {
                    tiles.push(t);
                    assert(tiles@ =~= before + seq![t]);
                } else {
                    assert(tiles@ =~= before + Seq::<Tile>::empty());
                }
            },
            None => {
                assert(tiles@ =~= before + Seq::<Tile>::empty());
            },
        }
        i = i + 1;
    }
    proof {
        assert(dirs@.take(dirs@.len() as int) =~= dirs@);
    }
    tiles
}

/// Collects the squares that the piece on `pos` slides to along `dirs` as
/// a piece of `color`: each ray up to the first piece, which is taken in
/// where it belongs to the other side.
pub fn slide_moves(board: &Chess, pos: Tile, color: Color, dirs: &Vec<Direction>) -> (tiles: Vec<
    Tile,
>)
    requires
        board@.at(pos) is Some,
    ensures
        tiles@ == board@.slides(pos, color, dirs@),
{
    let mut tiles: Vec<Tile> = Vec::new();
    let mut i: usize = 0;
    while i < dirs.len()
        invariant
            i <= dirs@.len(),
            board@.at(pos) is Some,
            tiles@ == board@.slides(pos, color, dirs@.take(i as int)),
        decreases dirs@.len() - i,
    {
        let d = dirs[i];
        proof {
            assert(dirs@.take(i + 1).drop_last() =~= dirs@.take(i as int));
            assert(dirs@.take(i + 1).last() == d);
        }
        let mut ray = board.ray(pos, d);
        let n = ray.len();
        if n > 0 {
            if holds_color(board, ray[n - 1], color) {
                let _ = ray.pop();
            }
        }
        assert(ray@ =~= board@.slide(pos, color, d));
        tiles.append(&mut ray);
        i = i + 1;
    }
    proof {
        assert(dirs@.take(dirs@.len() as int) =~= dirs@);
    }
    tiles
}

} // verus!
