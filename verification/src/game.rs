use vstd::prelude::*;
use crate::color::Color;
use crate::chessmove::ChessMove;
use crate::pieces::bishop::get_moves_bishop;
use crate::pieces::king::{get_moves_king, get_tiles_control_king};
use crate::pieces::knight::get_moves_knight;
use crate::pieces::pawn::{forward, get_moves_pawn, get_tiles_control_pawn, pawn_start_row};
use crate::pieces::queen::get_moves_queen;
use crate::pieces::rook::get_moves_rook;
use crate::pieces::{ChessPiece, Piece};
use crate::tile::{Direction, Tile};

verus! {

/// A position as a mathematical value: what the contracts speak of.
pub struct ChessView {
    /// What each square holds, in storage order (`a8` first, `h1` last).
    pub tiles: Seq<Option<Piece>>,
    /// The side that moves next.
    pub active_player: Color,
    /// Whether castling is still open: White's king side, White's queen
    /// side, Black's king side, Black's queen side.
    pub castle_rights: Seq<bool>,
    /// The square onto which a pawn may capture in passing, for one move.
    pub en_passant: Option<Tile>,
    pub half_moves: nat,
    pub full_moves: nat,
}

impl ChessView {
    /// The position has 64 squares and four castling flags, and its
    /// en-passant square, if any, is on the board.
    pub open spec fn wf(self) -> bool {
        &&& self.tiles.len() == 64
        &&& self.castle_rights.len() == 4
        &&& (self.en_passant matches Some(e) ==> e.wf())
    }

    /// What stands on `tile`.
    pub open spec fn at(self, tile: Tile) -> Option<Piece> {
        self.tiles[tile.index()]
    }

    /// The position with `occupant` on `tile` and all else as before.
    pub open spec fn with_tile(self, tile: Tile, occupant: Option<Piece>) -> ChessView {
        ChessView { tiles: self.tiles.update(tile.index(), occupant), ..self }
    }

    /// How many steps in direction (`dx`, `dy`) the board has room for at
    /// most, counted from column `col` and row `row`.
    pub open spec fn room(col: int, row: int, dx: int, dy: int) -> int {
        if dx > 0 {
            8 - col
        } else if dx < 0 {
            col + 1
        } else if dy > 0 {
            8 - row
        } else {
            row + 1
        }
    }

    /// The squares seen from column `col` and row `row` in direction
    /// (`dx`, `dy`): each next square up to the edge of the board, or up to
    /// and including the first square that holds a piece. A direction that
    /// does not move sees the square itself where it holds a piece, and
    /// nothing else.
    pub open spec fn ray_from(self, col: int, row: int, dx: int, dy: int) -> Seq<Tile>
        decreases ChessView::room(col, row, dx, dy),
    {
        let c = col + dx;
        let r = row + dy;
        if !Tile::on_board(c, r) {
            Seq::empty()
        } else if self.at(Tile::at(c, r)) is Some {
            seq![Tile::at(c, r)]
        } else if dx == 0 && dy == 0 {
            Seq::empty()
        } else {
            seq![Tile::at(c, r)] + self.ray_from(c, r, dx, dy)
        }
    }

    /// The ray that leaves `src` in direction (`dx`, `dy`).
    pub open spec fn ray(self, src: Tile, dx: int, dy: int) -> Seq<Tile> {
        self.ray_from(src.col(), src.row(), dx, dy)
    }
}

/// One entry of the record of a move: a square and what it holds now.
pub type Update = (Tile, Option<Piece>);

/// The row on which the king and the rooks of `color` start.
pub open spec fn home_row(color: Color) -> int {
    match color {
        Color::White => 0,
        Color::Black => 7,
    }
}

/// The side whose castling right stands in place `slot` of the four.
pub open spec fn slot_color(slot: int) -> Color {
    if slot < 2 {
        Color::White
    } else {
        Color::Black
    }
}

/// The corner on which the rook of the castling right in place `slot`
/// starts: `h1`, `a1`, `h8`, `a8`.
pub open spec fn slot_corner(slot: int) -> Tile {
    Tile::at(
        if slot % 2 == 0 {
            7
        } else {
            0
        },
        home_row(slot_color(slot)),
    )
}

/// Whether moving `piece` away from `src` ends the castling right in place
/// `slot`: a king ends both rights of its side, a rook that leaves its own
/// corner ends the right of that corner.
pub open spec fn ends_right(slot: int, src: Tile, piece: Piece) -> bool {
    piece.color == slot_color(slot) && (piece.typ == ChessPiece::King || (piece.typ
        == ChessPiece::Rook && src == slot_corner(slot)))
}

/// The squares between which the rook goes when `piece` moves from `src`
/// to `dst`: none unless `piece` is a king that moves two files along its
/// home row; then from the corner on the side of `dst` to the square that
/// the king has crossed.
pub open spec fn rook_hop(src: Tile, dst: Tile, piece: Piece) -> Option<(Tile, Tile)> {
    let home = home_row(piece.color);
    if piece.typ == ChessPiece::King && src.row() == home && dst.row() == home {
        if dst.col() == src.col() + 2 {
            Some((Tile::at(7, home), Tile::at(dst.col() - 1, home)))
        } else if dst.col() == src.col() - 2 {
            Some((Tile::at(0, home), Tile::at(dst.col() + 1, home)))
        } else {
            None
        }
    } else {
        None
    }
}

/// The en-passant square that the move of `piece` from `src` to `dst`
/// leaves behind: the square that a pawn has passed over in advancing two
/// ranks from its starting rank, and none after any other move.
pub open spec fn passed_over(src: Tile, dst: Tile, piece: Piece) -> Option<Tile> {
    if piece.typ == ChessPiece::Pawn && src.row() == pawn_start_row(piece.color) && dst.row()
        == src.row() + 2 * forward(piece.color) {
        dst.shifted(0, -forward(piece.color))
    } else {
        None
    }
}

/// `occupant` after one relocation, where there is one.
pub open spec fn relocated(occupant: Option<Piece>) -> Option<Piece> {
    match occupant {
        Some(p) => Some(p.relocated()),
        None => None,
    }
}

impl ChessView {
    /// Where the piece on `pos` may go by the rules of its kind, whoever
    /// is to move.
    pub open spec fn piece_moves(self, pos: Tile) -> Seq<Tile>
        recommends
            self.at(pos) is Some,
    {
        match self.at(pos)->0.typ {
            ChessPiece::King => self.king_moves(pos),
            ChessPiece::Queen => self.queen_moves(pos),
            ChessPiece::Rook => self.rook_moves(pos),
            ChessPiece::Bishop => self.bishop_moves(pos),
            ChessPiece::Knight => self.knight_moves(pos),
            ChessPiece::Pawn => self.pawn_moves(pos),
        }
    }

    /// The destinations of the piece on `pos`: none where the square is
    /// empty or its piece belongs to the side that is not to move, else
    /// what the rules of its kind give. Whether the move leaves the own
    /// king attacked plays no part.
    pub open spec fn moves(self, pos: Tile) -> Seq<Tile> {
        if self.holds_color(pos, self.active_player) {
            self.piece_moves(pos)
        } else {
            Seq::empty()
        }
    }

    /// The squares that the piece on `pos` controls, whoever is to move.
    pub open spec fn controlled(self, pos: Tile) -> Seq<Tile> {
        match self.at(pos) {
            Some(p) => match p.typ {
                ChessPiece::King => self.king_control(pos),
                ChessPiece::Queen => self.queen_moves(pos),
                ChessPiece::Rook => self.rook_moves(pos),
                ChessPiece::Bishop => self.bishop_moves(pos),
                ChessPiece::Knight => self.knight_moves(pos),
                ChessPiece::Pawn => self.pawn_control(pos),
            },
            None => Seq::empty(),
        }
    }

    /// Whether the piece at storage position `i` belongs to `by` and
    /// controls `tile`.
    pub open spec fn attacks_from(self, i: int, tile: Tile, by: Color) -> bool {
        self.holds_color(Tile::of_index(i), by) && self.controlled(Tile::of_index(i)).contains(
            tile,
        )
    }

    /// Whether some piece of `by` controls `tile`.
    pub open spec fn attacked(self, tile: Tile, by: Color) -> bool {
        exists|i: int| 0 <= i < 64 && #[trigger] self.attacks_from(i, tile, by)
    }

    /// Whether the side to move may move from `src` to `dst`.
    pub open spec fn is_legal(self, src: Tile, dst: Tile) -> bool {
        self.moves(src).contains(dst)
    }

    /// The square of the pawn that a move of `color` to `dst` captures in
    /// passing: the square one rank behind `dst`, where `dst` is the
    /// en-passant square.
    pub open spec fn passed_pawn(self, dst: Tile, color: Color) -> Option<Tile> {
        if self.en_passant == Some(dst) {
            dst.shifted(0, -forward(color))
        } else {
            None
        }
    }

    /// The board once `tile`, if there is one, has been emptied.
    pub open spec fn without(self, tile: Option<Tile>) -> ChessView {
        match tile {
            Some(t) => self.with_tile(t, None),
            None => self,
        }
    }

    /// The board once the rook has gone along `hop`, if there is one: the
    /// first square is emptied and what stood there stands on the second,
    /// with its relocation counted.
    pub open spec fn hopped(self, hop: Option<(Tile, Tile)>) -> ChessView {
        match hop {
            Some((corner, beside)) => self.with_tile(corner, None).with_tile(
                beside,
                relocated(self.at(corner)),
            ),
            None => self,
        }
    }

    /// The castling rights after `piece` has moved away from `src`: a
    /// right stands only where it stood before and the move does not end
    /// it.
    pub open spec fn rights_after(self, src: Tile, piece: Piece) -> Seq<bool> {
        Seq::new(4, |slot: int| self.castle_rights[slot] && !ends_right(slot, src, piece))
    }

    /// The position after the legal move from `src` to `dst`.
    pub open spec fn played(self, src: Tile, dst: Tile) -> ChessView
        recommends
            self.is_legal(src, dst),
    {
        let piece = self.at(src)->0;
        let lifted = self.with_tile(src, None).without(self.passed_pawn(dst, piece.color));
        let board = lifted.hopped(rook_hop(src, dst, piece)).with_tile(
            dst,
            Some(piece.relocated()),
        );
        ChessView {
            tiles: board.tiles,
            active_player: self.active_player.flipped(),
            castle_rights: self.rights_after(src, piece),
            en_passant: passed_over(src, dst, piece),
            half_moves: self.half_moves,
            full_moves: self.full_moves,
        }
    }

    /// The record of the legal move from `src` to `dst`: each square that
    /// the move changes with what it holds afterwards. First `src`, now
    /// empty; then the square of a pawn captured in passing; then the two
    /// squares of the rook in castling; last `dst` with the moved piece.
    pub open spec fn diff(self, src: Tile, dst: Tile) -> Seq<Update>
        recommends
            self.is_legal(src, dst),
    {
        let piece = self.at(src)->0;
        let lifted = self.with_tile(src, None).without(self.passed_pawn(dst, piece.color));
        seq![(src, None::<Piece>)] + (match self.passed_pawn(dst, piece.color) {
            Some(t) => seq![(t, None::<Piece>)],
            None => Seq::empty(),
        }) + (match rook_hop(src, dst, piece) {
            Some((corner, beside)) => seq![
                (corner, None::<Piece>),
                (beside, relocated(lifted.at(corner))),
            ],
            None => Seq::empty(),
        }) + seq![(dst, Some(piece.relocated()))]
    }

    /// The position after `mv`: the position that the move leads to where
    /// it is legal, and the same position where it is not.
    pub open spec fn after(self, mv: ChessMove) -> ChessView {
        if self.is_legal(mv.src, mv.dst) {
            self.played(mv.src, mv.dst)
        } else {
            self
        }
    }

    /// The position after the moves `mvs`, tried one after the other.
    pub open spec fn after_all(self, mvs: Seq<ChessMove>) -> ChessView
        decreases mvs.len(),
    {
        if mvs.len() == 0 {
            self
        } else {
            self.after_all(mvs.drop_last()).after(mvs.last())
        }
    }
}

impl ChessView {
    /// A move leaves a well-formed position well formed.
    pub proof fn lemma_after_wf(self, mv: ChessMove)
        requires
            self.wf(),
            mv.src.wf(),
            mv.dst.wf(),
        ensures
            self.after(mv).wf(),
    {
        if self.is_legal(mv.src, mv.dst) {
            let piece = self.at(mv.src)->0;
            mv.dst.lemma_coords();
            if Tile::on_board(mv.dst.col(), mv.dst.row() - forward(piece.color)) {
                Tile::lemma_at(mv.dst.col(), mv.dst.row() - forward(piece.color));
            }
        }
    }

    /// A move that is not legal leaves the position as it is; a legal move
    /// hands the turn to the other side and keeps both move counters.
    pub proof fn lemma_turn(self, mv: ChessMove)
        ensures
            !self.is_legal(mv.src, mv.dst) ==> self.after(mv) == self,
            self.is_legal(mv.src, mv.dst) ==> self.after(mv).active_player
                == self.active_player.flipped(),
            self.after(mv).half_moves == self.half_moves,
            self.after(mv).full_moves == self.full_moves,
    {
    }

    /// A legal move puts the moved piece on its destination, with one more
    /// relocation counted and never fewer than before, and leaves no more
    /// and no fewer than 64 squares.
    pub proof fn lemma_moved_piece_lands(self, mv: ChessMove)
        requires
            self.wf(),
            mv.src.wf(),
            mv.dst.wf(),
            self.is_legal(mv.src, mv.dst),
        ensures
            self.at(mv.src) is Some,
            self.at(mv.src)->0.color == self.active_player,
            self.after(mv).tiles.len() == 64,
            self.after(mv).at(mv.dst) == Some(self.at(mv.src)->0.relocated()),
            self.after(mv).at(mv.dst)->0.move_count >= self.at(mv.src)->0.move_count,
    {
        mv.dst.lemma_coords();
    }

    /// The record of a legal move tells all that the move does to the board:
    /// setting each recorded square, in the order of the record, to what the
    /// record says it holds makes the board before the move into the board
    /// after it.
    pub proof fn lemma_diff_tells_the_move(self, mv: ChessMove)
        requires
            self.wf(),
            mv.src.wf(),
            mv.dst.wf(),
            self.is_legal(mv.src, mv.dst),
        ensures
            self.after(mv).tiles == updated_board(self.tiles, self.diff(mv.src, mv.dst)),
    {
        let src = mv.src;
        let dst = mv.dst;
        let piece = self.at(src)->0;
        let first = seq![(src, None::<Piece>)];
        let pass = match self.passed_pawn(dst, piece.color) {
            Some(t) => seq![(t, None::<Piece>)],
            None => Seq::empty(),
        };
        let lifted = self.with_tile(src, None).without(self.passed_pawn(dst, piece.color));
        let hop = match rook_hop(src, dst, piece) {
            Some((corner, beside)) => seq![
                (corner, None::<Piece>),
                (beside, relocated(lifted.at(corner))),
            ],
            None => Seq::empty(),
        };
        let last = seq![(dst, Some(piece.relocated()))];
        lemma_updated_board_concat(self.tiles, first, pass);
        lemma_updated_board_concat(self.tiles, first + pass, hop);
        lemma_updated_board_concat(self.tiles, first + pass + hop, last);
        reveal_with_fuel(updated_board, 3);
        assert(first.drop_last() =~= Seq::<Update>::empty());
        assert(last.drop_last() =~= Seq::<Update>::empty());
        assert(updated_board(self.tiles, first) == self.with_tile(src, None).tiles);
        if pass.len() > 0 {
            assert(pass.drop_last() =~= Seq::<Update>::empty());
        }
        assert(updated_board(self.tiles, first + pass) == lifted.tiles);
        if hop.len() > 0 {
            assert(hop.drop_last().drop_last() =~= Seq::<Update>::empty());
        }
        assert(updated_board(self.tiles, first + pass + hop) == lifted.hopped(
            rook_hop(src, dst, piece),
        ).tiles);
    }

    /// An en-passant square lasts for one move: after a legal move there is
    /// one only where a pawn has just advanced two ranks from its starting
    /// rank, and then it is the square that the pawn has passed over,
    /// whatever the en-passant square was before.
    pub proof fn lemma_en_passant_one_move(self, mv: ChessMove)
        requires
            self.wf(),
            mv.src.wf(),
            mv.dst.wf(),
            self.is_legal(mv.src, mv.dst),
        ensures
            self.after(mv).en_passant == passed_over(mv.src, mv.dst, self.at(mv.src)->0),
            self.after(mv).en_passant matches Some(e) ==> {
                &&& self.at(mv.src)->0.typ == ChessPiece::Pawn
                &&& mv.src.row() == pawn_start_row(self.active_player)
                &&& mv.dst.row() == mv.src.row() + 2 * forward(self.active_player)
                &&& e.col() == mv.dst.col()
                &&& e.row() == mv.src.row() + forward(self.active_player)
            },
    {
        let piece = self.at(mv.src)->0;
        mv.dst.lemma_coords();
        if Tile::on_board(mv.dst.col(), mv.dst.row() - forward(piece.color)) {
            Tile::lemma_at(mv.dst.col(), mv.dst.row() - forward(piece.color));
        }
    }

    /// No move gives a castling right back: a right that stands after a
    /// move stood before it.
    pub proof fn lemma_rights_fall(self, mv: ChessMove, slot: int)
        requires
            self.wf(),
            0 <= slot < 4,
        ensures
            self.after(mv).castle_rights.len() == 4,
            self.after(mv).castle_rights[slot] ==> self.castle_rights[slot],
    {
    }

    /// Castling rights only ever fall: over any run of moves tried one
    /// after the other, a right that stands after the first `j` of them
    /// stood after the first `i` of them, for every `i` up to `j`.
    pub proof fn lemma_rights_never_return(self, mvs: Seq<ChessMove>, i: int, j: int, slot: int)
        requires
            self.wf(),
            0 <= i <= j <= mvs.len(),
            0 <= slot < 4,
        ensures
            self.after_all(mvs.take(i)).castle_rights.len() == 4,
            self.after_all(mvs.take(j)).castle_rights.len() == 4,
            self.after_all(mvs.take(j)).castle_rights[slot] ==> self.after_all(
                mvs.take(i),
            ).castle_rights[slot],
        decreases j,
    {
        self.lemma_rights_len(mvs.take(i));
        self.lemma_rights_len(mvs.take(j));
        if i < j {
            assert(mvs.take(j).drop_last() =~= mvs.take(j - 1));
            self.lemma_rights_never_return(mvs, i, j - 1, slot);
        }
    }

    /// Any run of moves leaves four castling flags.
    pub proof fn lemma_rights_len(self, mvs: Seq<ChessMove>)
        requires
            self.wf(),
        ensures
            self.after_all(mvs).castle_rights.len() == 4,
        decreases mvs.len(),
    {
        if mvs.len() > 0 {
            self.lemma_rights_len(mvs.drop_last());
        }
    }

    /// A ray is a straight line of empty squares that ends at the edge of
    /// the board or on the first piece in its way: its squares lie one
    /// step after the other from `src`, all are on the board, and all but
    /// the last are empty.
    pub proof fn lemma_ray_line(self, src: Tile, dx: int, dy: int, i: int)
        requires
            self.wf(),
            src.wf(),
            dx != 0 || dy != 0,
            0 <= i < self.ray(src, dx, dy).len(),
        ensures
            Tile::on_board(src.col() + (i + 1) * dx, src.row() + (i + 1) * dy),
            self.ray(src, dx, dy)[i] == Tile::at(src.col() + (i + 1) * dx, src.row() + (i + 1) * dy),
            self.ray(src, dx, dy)[i].wf(),
            i + 1 < self.ray(src, dx, dy).len() ==> self.at(self.ray(src, dx, dy)[i]) is None,
        decreases i,
    {
        src.lemma_coords();
        let c = src.col() + dx;
        let r = src.row() + dy;
        Tile::lemma_at(c, r);
        let next = Tile::at(c, r);
        assert((i + 1) * dx == i * dx + dx && (i + 1) * dy == i * dy + dy) by (nonlinear_arith);
        if i > 0 {
            assert(self.ray(src, dx, dy) =~= seq![next] + self.ray(next, dx, dy));
            self.lemma_ray_line(next, dx, dy, i - 1);
            assert(self.ray(src, dx, dy)[i] == self.ray(next, dx, dy)[i - 1]);
        } else {
            assert(i * dx == 0 && i * dy == 0) by (nonlinear_arith)
                requires
                    i == 0,
            ;
        }
    }
}

/// The board `tiles` after each square that `diff` names has been set, in
/// the order of `diff`, to what `diff` says it holds.
pub open spec fn updated_board(tiles: Seq<Option<Piece>>, diff: Seq<Update>) -> Seq<Option<Piece>>
    decreases diff.len(),
{
    if diff.len() == 0 {
        tiles
    } else {
        updated_board(tiles, diff.drop_last()).update(diff.last().0.index(), diff.last().1)
    }
}

/// Setting the squares of one record and then those of another is setting
/// the squares of the two records joined.
pub proof fn lemma_updated_board_concat(tiles: Seq<Option<Piece>>, a: Seq<Update>, b: Seq<Update>)
    ensures
        updated_board(tiles, a + b) == updated_board(updated_board(tiles, a), b),
    decreases b.len(),
{
    if b.len() == 0 {
        assert(a + b =~= a);
    } else {
        assert((a + b).drop_last() =~= a + b.drop_last());
        lemma_updated_board_concat(tiles, a, b.drop_last());
    }
}

/// The kind of piece that starts in column `col` of the back rank.
pub open spec fn back_rank(col: int) -> ChessPiece {
    if col == 0 || col == 7 {
        ChessPiece::Rook
    } else if col == 1 || col == 6 {
        ChessPiece::Knight
    } else if col == 2 || col == 5 {
        ChessPiece::Bishop
    } else if col == 3 {
        ChessPiece::Queen
    } else {
        ChessPiece::King
    }
}

/// What the square at storage position `i` holds when a game begins.
pub open spec fn start_occupant(i: int) -> Option<Piece> {
    if i < 8 {
        Some(Piece { typ: back_rank(i), color: Color::Black, move_count: 0 })
    } else if i < 16 {
        Some(Piece { typ: ChessPiece::Pawn, color: Color::Black, move_count: 0 })
    } else if i < 48 {
        None
    } else if i < 56 {
        Some(Piece { typ: ChessPiece::Pawn, color: Color::White, move_count: 0 })
    } else {
        Some(Piece { typ: back_rank(i - 56), color: Color::White, move_count: 0 })
    }
}

/// The position in which a game begins: White to move, all four castling
/// rights, no en-passant square.
pub open spec fn start_position() -> ChessView {
    ChessView {
        tiles: Seq::new(64, |i: int| start_occupant(i)),
        active_player: Color::White,
        castle_rights: Seq::new(4, |slot: int| true),
        en_passant: None,
        half_moves: 0,
        full_moves: 1,
    }
}

/// A position: the board, the side to move, the castling rights, the
/// en-passant square and the two move counters.
#[derive(Clone, Debug, PartialEq, Eq)]
pub struct Chess {
    pub tiles: [Option<Piece>; 64],
    pub(crate) active_player: Color,
    pub castle_rights: [bool; 4],
    pub en_passant: Option<Tile>,
    pub(crate) half_moves: usize,
    pub(crate) full_moves: usize,
}

impl View for Chess {
    type V = ChessView;

    open(crate) spec fn view(&self) -> ChessView {
        ChessView {
            tiles: self.tiles@,
            active_player: self.active_player,
            castle_rights: self.castle_rights@,
            en_passant: self.en_passant,
            half_moves: self.half_moves as nat,
            full_moves: self.full_moves as nat,
        }
    }
}

impl Chess {
    /// The position in which a game begins.
    pub fn new() -> (chess: Chess)
        ensures
            chess@ == start_position(),
    {
        let mut tiles: [Option<Piece>; 64] = [None;64];
        let mut i: usize = 0;
        while i < 64
            invariant
                i <= 64,
                forall|k: int| 0 <= k < i ==> #[trigger] tiles@[k] == start_occupant(k),
            decreases 64 - i,
        {
            let col = i % 8;
            let officer = if col == 0 || col == 7 {
                ChessPiece::Rook
            } else if col == 1 || col == 6 {
                ChessPiece::Knight
            } else if col == 2 || col == 5 {
                ChessPiece::Bishop
            } else if col == 3 {
                ChessPiece::Queen
            } else {
                ChessPiece::King
            };
            tiles[i] = if i < 8 {
                Some(Piece::new(officer, Color::Black))
            } else if i < 16 {
                Some(Piece::new(ChessPiece::Pawn, Color::Black))
            } else if i < 48 {
                None
            } else if i < 56 {
                Some(Piece::new(ChessPiece::Pawn, Color::White))
            } else {
                Some(Piece::new(officer, Color::White))
            };
            i = i + 1;
        }
        let castle_rights: [bool; 4] = [true;4];
        let chess = Chess {
            tiles,
            active_player: Color::White,
            castle_rights,
            en_passant: None,
            half_moves: 0,
            full_moves: 1,
        };
        assert(chess@.tiles =~= start_position().tiles);
        assert(chess@.castle_rights =~= start_position().castle_rights);
        chess
    }

    /// Starts a walk over the squares of the position, at `a8`.
    pub fn into_iter(&self) -> (iter: ChessboardIterator<'_>)
        ensures
            iter.board == self,
            iter.index == 0,
    {
        ChessboardIterator { board: self, index: 0 }
    }

    /// The side that moves next.
    pub fn active_player(&self) -> (c: Color)
        ensures
            c == self@.active_player,
    {
        self.active_player
    }

    /// Half moves since the last capture or pawn move, as the position
    /// record gave them.
    pub fn half_moves(&self) -> (n: usize)
        ensures
            n == self@.half_moves,
    {
        self.half_moves
    }

    /// The number of the full move, as the position record gave it.
    pub fn full_moves(&self) -> (n: usize)
        ensures
            n == self@.full_moves,
    {
        self.full_moves
    }

    /// Looks at what stands on `idx`.
    pub fn peek(&self, idx: Tile) -> (occupant: &Option<Piece>)
        ensures
            *occupant == self@.at(idx),
            idx.wf(),
            self@.wf(),
    {
        let i = idx.to_index();
        let _ = self.en_passant();
        &self.tiles[i as usize]
    }

    /// Takes what stands on `idx` off the board.
    pub fn take(&mut self, idx: Tile) -> (occupant: Option<Piece>)
        ensures
            occupant == old(self)@.at(idx),
            final(self)@ == old(self)@.with_tile(idx, None),
            idx.wf(),
    {
        let i = idx.to_index();
        let occupant = self.tiles[i as usize];
        self.tiles[i as usize] = None;
        assert(self@.tiles =~= old(self)@.tiles.update(idx.index(), None));
        occupant
    }

    /// Sets `occupant` on `idx`, in place of what stood there.
    pub fn put(&mut self, idx: Tile, occupant: Option<Piece>)
        ensures
            final(self)@ == old(self)@.with_tile(idx, occupant),
            idx.wf(),
    {
        let i = idx.to_index();
        self.tiles[i as usize] = occupant;
        assert(self@.tiles =~= old(self)@.tiles.update(idx.index(), occupant));
    }

    /// The square onto which a pawn may capture in passing, if there is one.
    pub fn en_passant(&self) -> (e: Option<Tile>)
        ensures
            e == self@.en_passant,
            self@.wf(),
    {
        let e = self.en_passant;
        match e {
            Some(t) => {
                proof {
                    use_type_invariant(&t);
                }
            },
            None => {},
        }
        e
    }

    /// Casts a ray from `src` in direction `dir`: all squares up to the
    /// edge of the board or up to the first piece, the square of that piece
    /// included. A direction that does not move is meant for a square that
    /// holds a piece only.
    pub fn ray(&self, src: Tile, dir: Direction) -> (tiles: Vec<Tile>)
        requires
            dir.0 != 0 || dir.1 != 0 || self@.at(src) is Some,
        ensures
            tiles@ == self@.ray(src, dir.0 as int, dir.1 as int),
            forall|i: int| 0 <= i < tiles@.len() ==> (#[trigger] tiles@[i]).wf(),
    {
        let ghost dx = dir.0 as int;
        let ghost dy = dir.1 as int;
        let mut tiles: Vec<Tile> = Vec::new();
        let mut cur = src;
        let mut going = true;
        proof {
            use_type_invariant(&src);
        }
        while going
            invariant
                cur.wf(),
                dx == dir.0 as int,
                dy == dir.1 as int,
                dx != 0 || dy != 0 || (cur == src && self@.at(src) is Some),
                self@.ray(src, dx, dy) == tiles@ + (if going {
                    self@.ray(cur, dx, dy)
                } else {
                    Seq::empty()
                }),
                forall|i: int| 0 <= i < tiles@.len() ==> (#[trigger] tiles@[i]).wf(),
            decreases
                    (if going {
                        1 + ChessView::room(cur.col(), cur.row(), dx, dy)
                    } else {
                        0
                    }),
        {
            let ghost before = tiles@;
            match cur.offset(dir) {
                None => {
                    going = false;
                },
                Some(t) => {
                    proof {
                        Tile::lemma_at(cur.col() + dx, cur.row() + dy);
                        cur.lemma_coords();
                    }
                    tiles.push(t);
                    if self.peek(t).is_some() {
                        going = false;
                        assert(self@.ray(cur, dx, dy) =~= seq![t]);
                    } else {
                        assert(self@.ray(cur, dx, dy) =~= seq![t] + self@.ray(t, dx, dy));
                        assert(before + (seq![t] + self@.ray(t, dx, dy)) =~= before.push(t)
                            + self@.ray(t, dx, dy));
                        cur = t;
                    }
                },
            }
            assert(tiles@ + Seq::<Tile>::empty() =~= tiles@);
        }
        assert(tiles@ + Seq::<Tile>::empty() =~= tiles@);
        tiles
    }
    /// The squares that the piece on `tile` controls; none where `tile` is
    /// empty.
    pub fn get_tiles_controlled(&self, tile: Tile) -> (tiles: Vec<Tile>)
        ensures
            tiles@ == self@.controlled(tile),
    {
        match self.peek(tile) {
            Some(p) => match p.typ {
                ChessPiece::King => get_tiles_control_king(self, tile),
                ChessPiece::Queen => get_moves_queen(self, tile),
                ChessPiece::Rook => get_moves_rook(self, tile),
                ChessPiece::Bishop => get_moves_bishop(self, tile),
                ChessPiece::Knight => get_moves_knight(self, tile),
                ChessPiece::Pawn => get_tiles_control_pawn(self, tile),
            },
            None => Vec::new(),
        }
    }

    /// The destinations of the piece on `tile`: none where `tile` is empty
    /// or its piece belongs to the side that is not to move. They form a
    /// set: each is a square other than `tile`, and none is given twice.
    pub fn get_moves(&self, tile: Tile) -> (tiles: Vec<Tile>)
        ensures
            tiles@ == self@.moves(tile),
            crate::destinations::is_destination_set(tile, tiles@),
    {
        let occupant = *self.peek(tile);
        proof {
            self@.lemma_moves_form_a_set(tile);
        }
        match occupant {
            Some(p) => {
                if p.color == self.active_player {
                    match p.typ {
                        ChessPiece::King => get_moves_king(self, tile),
                        ChessPiece::Queen => get_moves_queen(self, tile),
                        ChessPiece::Rook => get_moves_rook(self, tile),
                        ChessPiece::Bishop => get_moves_bishop(self, tile),
                        ChessPiece::Knight => get_moves_knight(self, tile),
                        ChessPiece::Pawn => get_moves_pawn(self, tile),
                    }
                } else {
                    Vec::new()
                }
            },
            None => Vec::new(),
        }
    }

    /// Whether some piece of `by_player` controls `tile`.
    pub fn is_attacked(&self, tile: Tile, by_player: Color) -> (b: bool)
        ensures
            b == self@.attacked(tile, by_player),
    {
        let all = Tile::all();
        let mut i: usize = 0;
        while i < 64
            invariant
                i <= 64,
                all@.len() == 64,
                forall|k: int| 0 <= k < 64 ==> #[trigger] all@[k] == Tile::of_index(k),
                forall|k: int| 0 <= k < i ==> !#[trigger] self@.attacks_from(k, tile, by_player),
            decreases 64 - i,
        {
            let t = all[i];
            if crate::pieces::holds_color(self, t, by_player) {
                let reach = self.get_tiles_controlled(t);
                if contains_tile(&reach, tile) {
                    assert(self@.attacks_from(i as int, tile, by_player));
                    return true;
                }
            }
            i = i + 1;
        }
        false
    }

    /// Whether the side to move may make `chessmove`: its destination is
    /// among the destinations of the piece on its source.
    pub fn is_valid(&self, chessmove: &ChessMove) -> (b: bool)
        ensures
            b == self@.is_legal(chessmove.src, chessmove.dst),
    {
        let tiles = self.get_moves(chessmove.src);
        contains_tile(&tiles, chessmove.dst)
    }

    /// Lets the rook go from `corner` to `beside`, as castling asks, and
    /// records both squares in `updated`.
    fn hop_rook(&mut self, corner: Tile, beside: Tile, updated: &mut Vec<Update>)
        ensures
            final(self)@ == old(self)@.hopped(Some((corner, beside))),
            final(updated)@ == old(updated)@ + seq![
                (corner, None::<Piece>),
                (beside, relocated(old(self)@.at(corner))),
            ],
    {
        let rook = match self.take(corner) {
            Some(r) => Some(r.moved()),
            None => None,
        };
        self.put(beside, rook);
        updated.push((corner, None));
        updated.push((beside, rook));
        assert(updated@ =~= old(updated)@ + seq![
            (corner, None::<Piece>),
            (beside, relocated(old(self)@.at(corner))),
        ]);
    }

    /// Takes away the castling rights that moving `piece` from `src` ends.
    fn drop_rights(&mut self, src: Tile, piece: Piece)
        ensures
            final(self)@ == (ChessView {
                castle_rights: old(self)@.rights_after(src, piece),
                ..old(self)@
            }),
    {
        let file = src.file();
        let rank = src.rank();
        let leaves_h = piece.typ == ChessPiece::Rook && file == 'h';
        let leaves_a = piece.typ == ChessPiece::Rook && file == 'a';
        let king = piece.typ == ChessPiece::King;
        match piece.color {
            Color::White => {
                if king || (leaves_h && rank == '1') {
                    self.castle_rights[0] = false;
                }
                if king || (leaves_a && rank == '1') {
                    self.castle_rights[1] = false;
                }
            },
            Color::Black => {
                if king || (leaves_h && rank == '8') {
                    self.castle_rights[2] = false;
                }
                if king || (leaves_a && rank == '8') {
                    self.castle_rights[3] = false;
                }
            },
        }
        proof {
            assert(src == slot_corner(0) <==> (file == 'h' && rank == '1'));
            assert(src == slot_corner(1) <==> (file == 'a' && rank == '1'));
            assert(src == slot_corner(2) <==> (file == 'h' && rank == '8'));
            assert(src == slot_corner(3) <==> (file == 'a' && rank == '8'));
            assert(self@.castle_rights =~= old(self)@.rights_after(src, piece));
        }
    }

    /// Plays `chessmove` if the side to move may make it, and returns the
    /// squares that changed, each with what it holds now: set on the board
    /// as it was, in their order, they give the board as it is. A move that
    /// is not legal changes nothing and returns no square. The kind of move
    /// that `chessmove` carries plays no part.
    pub fn make_move(&mut self, chessmove: ChessMove) -> (updated: Vec<Update>)
        ensures
            final(self)@ == old(self)@.after(chessmove),
            final(self)@.wf(),
            old(self)@.is_legal(chessmove.src, chessmove.dst) ==> updated@ == old(self)@.diff(
                chessmove.src,
                chessmove.dst,
            ),
            !old(self)@.is_legal(chessmove.src, chessmove.dst) ==> updated@.len() == 0
                && *final(self) == *old(self),
            final(self)@.tiles == updated_board(old(self)@.tiles, updated@),
    {
        let src = chessmove.src;
        let dst = chessmove.dst;
        let mut updated: Vec<Update> = Vec::new();
        let target = self.en_passant();
        if !self.is_valid(&chessmove) {
            return updated;
        }
        let piece = self.take(src).unwrap();
        updated.push((src, None));

        let in_passing = match target {
            Some(e) => e == dst,
            None => false,
        };
        if in_passing {
            let back: Direction = match piece.color {
                Color::White => Tile::DOWN,
                Color::Black => Tile::UP,
            };
            if let Some(t) = dst.offset(back) {
                let _ = self.take(t);
                updated.push((t, None));
            }
        }
        let ghost lifted = self@;
        assert(lifted == old(self)@.with_tile(src, None).without(
            old(self)@.passed_pawn(dst, piece.color),
        ));

        let home = match piece.color {
            Color::White => '1',
            Color::Black => '8',
        };
        let home_y: u8 = match piece.color {
            Color::White => 0,
            Color::Black => 7,
        };
        if piece.typ == ChessPiece::King && src.rank() == home && dst.rank() == home {
            let from = src.file_number();
            let to = dst.file_number();
            if to == from + 2 {
                self.hop_rook(
                    Tile::from_numbers(7, home_y),
                    Tile::from_numbers(to - 1, home_y),
                    &mut updated,
                );
            } else if to + 2 == from {
                self.hop_rook(
                    Tile::from_numbers(0, home_y),
                    Tile::from_numbers(to + 1, home_y),
                    &mut updated,
                );
            }
        }
        assert(self@ == lifted.hopped(rook_hop(src, dst, piece)));

        let placed = piece.moved();
        self.put(dst, Some(placed));
        updated.push((dst, Some(placed)));

        self.drop_rights(src, piece);

        let start = match piece.color {
            Color::White => '2',
            Color::Black => '7',
        };
        let arrival = match piece.color {
            Color::White => '4',
            Color::Black => '5',
        };
        self.en_passant = if piece.typ == ChessPiece::Pawn && src.rank() == start && dst.rank()
            == arrival {
            let back: Direction = match piece.color {
                Color::White => Tile::DOWN,
                Color::Black => Tile::UP,
            };
            dst.offset(back)
        } else {
            None
        };
        self.active_player = self.active_player.flip();
        proof {
            assert(self@.en_passant == passed_over(src, dst, piece));
            assert(self@ =~= old(self)@.played(src, dst));
            assert(updated@ =~= old(self)@.diff(src, dst));
            old(self)@.lemma_after_wf(chessmove);
            old(self)@.lemma_diff_tells_the_move(chessmove);
        }
        updated
    }
}

impl core::ops::Index<Tile> for Chess {
    type Output = Option<Piece>;

    /// What stands on `index`, as `peek` gives it.
    fn index(&self, index: Tile) -> (occupant: &Option<Piece>)
        ensures
            *occupant == self@.at(index),
    {
        self.peek(index)
    }
}

impl vstd::std_specs::core::IndexSpecImpl<Tile> for Chess {
    open spec fn index_req(&self, index: &Tile) -> bool {
        true
    }
}

impl core::ops::IndexMut<Tile> for Chess {
    /// The place on the board that stands for `index`.
    fn index_mut(&mut self, index: Tile) -> (occupant: &mut Option<Piece>)
        ensures
            *occupant == old(self)@.at(index),
            final(self)@ == old(self)@.with_tile(index, *final(occupant)),
    {
        let i = index.to_index();
        &mut self.tiles[i as usize]
    }
}

/// Walks over the squares of a position in storage order, from `a8` along
/// each rank down to `h1`.
pub struct ChessboardIterator<'a> {
    pub board: &'a Chess,
    pub index: usize,
}

impl<'a> ChessboardIterator<'a> {
    /// Gives what the next square holds and steps on; gives nothing once
    /// all 64 squares have been seen.
    pub fn next(&mut self) -> (item: Option<Option<Piece>>)
        ensures
            final(self).board == old(self).board,
            old(self).index < 64 ==> item == Some(old(self).board@.tiles[old(self).index as int])
                && final(self).index == old(self).index + 1,
            old(self).index >= 64 ==> item is None && final(self).index == old(self).index,
    {
        if self.index >= 64 {
            return None;
        }
        let item = self.board.tiles[self.index];
        self.index = self.index + 1;
        Some(item)
    }
}

/// Whether `tile` is among `tiles`.
pub fn contains_tile(tiles: &Vec<Tile>, tile: Tile) -> (b: bool)
    ensures
        b == tiles@.contains(tile),
{
    let mut i: usize = 0;
    while i < tiles.len()
        invariant
            i <= tiles@.len(),
            forall|k: int| 0 <= k < i ==> tiles@[k] != tile,
        decreases tiles@.len() - i,
    {
        if tiles[i] == tile {
            return true;
        }
        i = i + 1;
    }
    false
}

} // verus!
