use vstd::prelude::*;
use vstd::seq_lib::lemma_no_dup_in_concat;
use crate::color::Color;
use crate::game::ChessView;
use crate::pieces::bishop::bishop_directions;
use crate::pieces::king::king_steps;
use crate::pieces::knight::knight_jumps;
use crate::pieces::pawn::forward;
use crate::pieces::queen::queen_directions;
use crate::pieces::rook::rook_directions;
use crate::pieces::ChessPiece;
use crate::tile::{Direction, Tile};

verus! {

/// How far `t` lies from `pos`: in files to the right and in ranks upwards.
pub open spec fn delta(pos: Tile, t: Tile) -> (int, int) {
    (t.col() - pos.col(), t.row() - pos.row())
}

/// The sign of `x`: 1, 0 or -1.
pub open spec fn sign(x: int) -> int {
    if x > 0 {
        1
    } else if x < 0 {
        -1
    } else {
        0
    }
}

/// The direction in which `t` lies from `pos`.
pub open spec fn bearing(pos: Tile, t: Tile) -> (int, int) {
    (sign(t.col() - pos.col()), sign(t.row() - pos.row()))
}

/// The step `d` as a pair of numbers.
pub open spec fn ints(d: Direction) -> (int, int) {
    (d.0 as int, d.1 as int)
}

/// Whether `d` is a step to one of the eight squares next to a square.
pub open spec fn is_unit(d: Direction) -> bool {
    -1 <= d.0 <= 1 && -1 <= d.1 <= 1 && (d.0 != 0 || d.1 != 0)
}

/// Whether each of `dirs` is a step to a neighbouring square.
pub open spec fn all_unit(dirs: Seq<Direction>) -> bool {
    forall|k: int| 0 <= k < dirs.len() ==> is_unit(#[trigger] dirs[k])
}

/// Whether each of `dirs` moves.
pub open spec fn all_moving(dirs: Seq<Direction>) -> bool {
    forall|k: int| 0 <= k < dirs.len() ==> (#[trigger] dirs[k]).0 != 0 || dirs[k].1 != 0
}

/// Whether `tiles` is a set of destinations from `pos`: each is a square of
/// the board other than `pos`, and none occurs twice.
pub open spec fn is_destination_set(pos: Tile, tiles: Seq<Tile>) -> bool {
    &&& tiles.no_duplicates()
    &&& forall|i: int| 0 <= i < tiles.len() ==> (#[trigger] tiles[i]).wf() && tiles[i] != pos
}

impl ChessView {
    /// A single step leads to at most one square, which lies on the board
    /// as far from `pos` as the step says.
    pub proof fn lemma_hop_delta(self, pos: Tile, color: Color, d: Direction)
        requires
            pos.wf(),
            self.hop(pos, color, d).len() > 0,
        ensures
            self.hop(pos, color, d).len() == 1,
            self.hop(pos, color, d)[0].wf(),
            delta(pos, self.hop(pos, color, d)[0]) == ints(d),
    {
        pos.lemma_coords();
        Tile::lemma_at(pos.col() + d.0, pos.row() + d.1);
    }

    /// Each square that single steps reach lies on the board, as far from
    /// `pos` as one of the steps says.
    pub proof fn lemma_hops_delta(self, pos: Tile, color: Color, dirs: Seq<Direction>, i: int)
        requires
            pos.wf(),
            0 <= i < self.hops(pos, color, dirs).len(),
        ensures
            self.hops(pos, color, dirs)[i].wf(),
            exists|k: int|
                0 <= k < dirs.len() && delta(pos, self.hops(pos, color, dirs)[i]) == ints(
                    #[trigger] dirs[k],
                ),
        decreases dirs.len(),
    {
        let a = self.hops(pos, color, dirs.drop_last());
        if i < a.len() {
            self.lemma_hops_delta(pos, color, dirs.drop_last(), i);
            let k = choose|k: int|
                0 <= k < dirs.drop_last().len() && delta(pos, a[i]) == ints(
                    #[trigger] dirs.drop_last()[k],
                );
            assert(dirs.drop_last()[k] == dirs[k]);
        } else {
            self.lemma_hop_delta(pos, color, dirs.last());
            assert(dirs[dirs.len() - 1] == dirs.last());
        }
    }

    /// Single steps that differ from each other lead to squares that
    /// differ, none of which is `pos` where each step moves.
    pub proof fn lemma_hops_distinct(self, pos: Tile, color: Color, dirs: Seq<Direction>)
        requires
            pos.wf(),
            dirs.no_duplicates(),
        ensures
            self.hops(pos, color, dirs).no_duplicates(),
            all_moving(dirs) ==> is_destination_set(pos, self.hops(pos, color, dirs)),
        decreases dirs.len(),
    {
        let all = self.hops(pos, color, dirs);
        if dirs.len() > 0 {
            let a = self.hops(pos, color, dirs.drop_last());
            let b = self.hop(pos, color, dirs.last());
            assert(dirs.drop_last().no_duplicates());
            self.lemma_hops_distinct(pos, color, dirs.drop_last());
            assert forall|i: int, j: int| 0 <= i < a.len() && 0 <= j < b.len() implies a[i]
                != b[j] by {
                self.lemma_hops_delta(pos, color, dirs.drop_last(), i);
                self.lemma_hop_delta(pos, color, dirs.last());
                let k = choose|k: int|
                    0 <= k < dirs.drop_last().len() && delta(pos, a[i]) == ints(
                        #[trigger] dirs.drop_last()[k],
                    );
                assert(dirs.drop_last()[k] == dirs[k]);
                assert(dirs[dirs.len() - 1] == dirs.last());
                if a[i] == b[j] {
                    assert(ints(dirs[k]) == ints(dirs.last()));
                    assert(dirs[k].0 == dirs.last().0 && dirs[k].1 == dirs.last().1);
                    assert(dirs[k] == dirs[dirs.len() - 1]);
                }
            }
            if b.len() > 0 {
                self.lemma_hop_delta(pos, color, dirs.last());
            }
            lemma_no_dup_in_concat(a, b);
        }
        if all_moving(dirs) {
            assert forall|i: int| 0 <= i < all.len() implies (#[trigger] all[i]).wf() && all[i]
                != pos by {
                self.lemma_hops_delta(pos, color, dirs, i);
            }
        }
    }

    /// The squares of a slide lie one neighbour's step after the other in
    /// the direction of the slide.
    pub proof fn lemma_slide_delta(self, pos: Tile, color: Color, d: Direction, i: int)
        requires
            self.wf(),
            pos.wf(),
            is_unit(d),
            0 <= i < self.slide(pos, color, d).len(),
        ensures
            self.slide(pos, color, d)[i].wf(),
            delta(pos, self.slide(pos, color, d)[i]) == ((i + 1) * d.0, (i + 1) * d.1),
            bearing(pos, self.slide(pos, color, d)[i]) == ints(d),
            self.slide(pos, color, d)[i] != pos,
    {
        let dx = d.0 as int;
        let dy = d.1 as int;
        self.lemma_ray_line(pos, dx, dy, i);
        pos.lemma_coords();
        Tile::lemma_at(pos.col() + (i + 1) * dx, pos.row() + (i + 1) * dy);
        assert(sign((i + 1) * dx) == dx) by (nonlinear_arith)
            requires
                -1 <= dx <= 1,
                i >= 0,
        ;
        assert(sign((i + 1) * dy) == dy) by (nonlinear_arith)
            requires
                -1 <= dy <= 1,
                i >= 0,
        ;
    }

    /// No square occurs twice in a slide.
    pub proof fn lemma_slide_distinct(self, pos: Tile, color: Color, d: Direction)
        requires
            self.wf(),
            pos.wf(),
            is_unit(d),
        ensures
            self.slide(pos, color, d).no_duplicates(),
    {
        let s = self.slide(pos, color, d);
        let dx = d.0 as int;
        let dy = d.1 as int;
        assert forall|i: int, j: int| 0 <= i < s.len() && 0 <= j < s.len() && i != j implies s[i]
            != s[j] by {
            self.lemma_slide_delta(pos, color, d, i);
            self.lemma_slide_delta(pos, color, d, j);
            assert((i + 1) * dx != (j + 1) * dx || (i + 1) * dy != (j + 1) * dy)
                by (nonlinear_arith)
                requires
                    i != j,
                    dx != 0 || dy != 0,
            ;
        }
    }

    /// Each square of the slides along `dirs` lies on the board, away from
    /// `pos`, in one of the directions `dirs`.
    pub proof fn lemma_slides_bearing(
        self,
        pos: Tile,
        color: Color,
        dirs: Seq<Direction>,
        i: int,
    )
        requires
            self.wf(),
            pos.wf(),
            all_unit(dirs),
            0 <= i < self.slides(pos, color, dirs).len(),
        ensures
            self.slides(pos, color, dirs)[i].wf(),
            self.slides(pos, color, dirs)[i] != pos,
            exists|k: int|
                0 <= k < dirs.len() && bearing(pos, self.slides(pos, color, dirs)[i]) == ints(
                    #[trigger] dirs[k],
                ),
        decreases dirs.len(),
    {
        let a = self.slides(pos, color, dirs.drop_last());
        assert(dirs[dirs.len() - 1] == dirs.last());
        if i < a.len() {
            assert(all_unit(dirs.drop_last())) by {
                assert forall|k: int| 0 <= k < dirs.drop_last().len() implies is_unit(
                    #[trigger] dirs.drop_last()[k],
                ) by {
                    assert(dirs.drop_last()[k] == dirs[k]);
                }
            }
            self.lemma_slides_bearing(pos, color, dirs.drop_last(), i);
            let k = choose|k: int|
                0 <= k < dirs.drop_last().len() && bearing(pos, a[i]) == ints(
                    #[trigger] dirs.drop_last()[k],
                );
            assert(dirs.drop_last()[k] == dirs[k]);
        } else {
            self.lemma_slide_delta(pos, color, dirs.last(), i - a.len());
        }
    }

    /// Slides in directions that differ from each other share no square:
    /// the squares that a piece slides to form a set.
    pub proof fn lemma_slides_distinct(self, pos: Tile, color: Color, dirs: Seq<Direction>)
        requires
            self.wf(),
            pos.wf(),
            all_unit(dirs),
            dirs.no_duplicates(),
        ensures
            is_destination_set(pos, self.slides(pos, color, dirs)),
        decreases dirs.len(),
    {
        let all = self.slides(pos, color, dirs);
        if dirs.len() > 0 {
            let a = self.slides(pos, color, dirs.drop_last());
            let b = self.slide(pos, color, dirs.last());
            assert(dirs[dirs.len() - 1] == dirs.last());
            assert(dirs.drop_last().no_duplicates());
            assert(all_unit(dirs.drop_last())) by {
                assert forall|k: int| 0 <= k < dirs.drop_last().len() implies is_unit(
                    #[trigger] dirs.drop_last()[k],
                ) by {
                    assert(dirs.drop_last()[k] == dirs[k]);
                }
            }
            self.lemma_slides_distinct(pos, color, dirs.drop_last());
            self.lemma_slide_distinct(pos, color, dirs.last());
            assert forall|i: int, j: int| 0 <= i < a.len() && 0 <= j < b.len() implies a[i]
                != b[j] by {
                self.lemma_slides_bearing(pos, color, dirs.drop_last(), i);
                self.lemma_slide_delta(pos, color, dirs.last(), j);
                let k = choose|k: int|
                    0 <= k < dirs.drop_last().len() && bearing(pos, a[i]) == ints(
                        #[trigger] dirs.drop_last()[k],
                    );
                assert(dirs.drop_last()[k] == dirs[k]);
                if a[i] == b[j] {
                    assert(ints(dirs[k]) == ints(dirs.last()));
                    assert(dirs[k].0 == dirs.last().0 && dirs[k].1 == dirs.last().1);
                    assert(dirs[k] == dirs[dirs.len() - 1]);
                }
            }
            lemma_no_dup_in_concat(a, b);
        }
        assert forall|i: int| 0 <= i < all.len() implies (#[trigger] all[i]).wf() && all[i]
            != pos by {
            self.lemma_slides_bearing(pos, color, dirs, i);
        }
    }

    /// The destinations of a piece form a set: whatever stands on `pos`
    /// and whoever is to move, each destination is a square of the board
    /// other than `pos`, and none is named twice.
    pub proof fn lemma_moves_form_a_set(self, pos: Tile)
        requires
            self.wf(),
            pos.wf(),
        ensures
            is_destination_set(pos, self.moves(pos)),
            self.at(pos) is Some ==> is_destination_set(pos, self.piece_moves(pos)),
    {
        if self.at(pos) is Some {
            let piece = self.at(pos)->0;
            match piece.typ {
                ChessPiece::King => self.lemma_king_set(pos),
                ChessPiece::Queen => {
                    assert(all_unit(queen_directions()));
                    assert(queen_directions().no_duplicates());
                    self.lemma_slides_distinct(pos, piece.color, queen_directions());
                },
                ChessPiece::Rook => {
                    assert(all_unit(rook_directions()));
                    assert(rook_directions().no_duplicates());
                    self.lemma_slides_distinct(pos, piece.color, rook_directions());
                },
                ChessPiece::Bishop => {
                    assert(all_unit(bishop_directions()));
                    assert(bishop_directions().no_duplicates());
                    self.lemma_slides_distinct(pos, piece.color, bishop_directions());
                },
                ChessPiece::Knight => {
                    assert(all_moving(knight_jumps()));
                    assert(knight_jumps().no_duplicates());
                    self.lemma_hops_distinct(pos, piece.color, knight_jumps());
                },
                ChessPiece::Pawn => self.lemma_pawn_set(pos),
            }
        }
    }

    /// The destinations of a king form a set.
    pub proof fn lemma_king_set(self, pos: Tile)
        requires
            self.wf(),
            pos.wf(),
            self.at(pos) is Some,
        ensures
            is_destination_set(pos, self.king_moves(pos)),
    {
        let color = self.at(pos)->0.color;
        let near = self.king_control(pos);
        let right = self.castle(pos, color, true);
        let left = self.castle(pos, color, false);
        assert(all_moving(king_steps()));
        assert(all_unit(king_steps()));
        assert(king_steps().no_duplicates());
        self.lemma_hops_distinct(pos, color, king_steps());
        pos.lemma_coords();
        if Tile::on_board(pos.col() + 2, pos.row()) {
            Tile::lemma_at(pos.col() + 2, pos.row());
        }
        if Tile::on_board(pos.col() - 2, pos.row()) {
            Tile::lemma_at(pos.col() - 2, pos.row());
        }
        assert forall|i: int, j: int| 0 <= i < near.len() && 0 <= j < right.len() implies near[i]
            != right[j] by {
            self.lemma_hops_delta(pos, color, king_steps(), i);
        }
        lemma_no_dup_in_concat(near, right);
        assert forall|i: int, j: int|
            0 <= i < (near + right).len() && 0 <= j < left.len() implies (near + right)[i]
            != left[j] by {
            if i < near.len() {
                self.lemma_hops_delta(pos, color, king_steps(), i);
            }
        }
        lemma_no_dup_in_concat(near + right, left);
        let all = self.king_moves(pos);
        assert forall|i: int| 0 <= i < all.len() implies (#[trigger] all[i]).wf() && all[i]
            != pos by {
            if i < near.len() {
                self.lemma_hops_delta(pos, color, king_steps(), i);
            }
        }
    }

    /// The destinations of a pawn form a set.
    pub proof fn lemma_pawn_set(self, pos: Tile)
        requires
            self.wf(),
            pos.wf(),
            self.at(pos) is Some,
        ensures
            is_destination_set(pos, self.pawn_moves(pos)),
    {
        let pawn = self.at(pos)->0;
        let dy = forward(pawn.color);
        let ahead = self.pawn_advances(pos, pawn);
        let left = self.pawn_capture(pos, pawn.color, -1);
        let right = self.pawn_capture(pos, pawn.color, 1);
        pos.lemma_coords();
        if Tile::on_board(pos.col(), pos.row() + dy) {
            Tile::lemma_at(pos.col(), pos.row() + dy);
        }
        if Tile::on_board(pos.col(), pos.row() + 2 * dy) {
            Tile::lemma_at(pos.col(), pos.row() + 2 * dy);
        }
        if Tile::on_board(pos.col() - 1, pos.row() + dy) {
            Tile::lemma_at(pos.col() - 1, pos.row() + dy);
        }
        if Tile::on_board(pos.col() + 1, pos.row() + dy) {
            Tile::lemma_at(pos.col() + 1, pos.row() + dy);
        }
        assert(ahead.no_duplicates());
        lemma_no_dup_in_concat(ahead, left);
        lemma_no_dup_in_concat(ahead + left, right);
    }
}

} // verus!
