use vstd::prelude::*;
use vstd::string::*;
use crate::color::Color;
use crate::game::{Chess, ChessView};
use crate::pieces::Piece;
use crate::tile::Tile;

verus! {

/// Why a position record could not be read.
#[derive(Copy, Clone, Debug, PartialEq, Eq, Structural)]
pub enum FenError {
    /// The record does not consist of six fields with one space between
    /// each two.
    FieldCount,
    /// The first field does not describe eight ranks of eight squares.
    Placement,
    /// The second field is neither `w` nor `b`.
    ActivePlayer,
    /// The third field is neither `-` nor made of the letters `KQkq`.
    Castling,
    /// The fourth field is neither `-` nor the name of a square.
    EnPassant,
    /// The fifth field is no number that the machine can hold.
    HalfMoves,
    /// The sixth field is no number that the machine can hold.
    FullMoves,
}

/// Where the field that starts at `from` ends: at the next space, or at the
/// end of `s`.
pub open spec fn field_end(s: Seq<char>, from: int) -> int
    decreases s.len() - from,
{
    if from < 0 || from >= s.len() || s[from] == ' ' {
        from
    } else {
        field_end(s, from + 1)
    }
}

/// Where field number `k` starts, fields counted from 0: one past the
/// space that ends the field before it.
pub open spec fn field_start(s: Seq<char>, k: int) -> int
    decreases k,
{
    if k <= 0 {
        0
    } else {
        field_end(s, field_start(s, k - 1)) + 1
    }
}

/// Field number `k` of `s`.
pub open spec fn field(s: Seq<char>, k: int) -> Seq<char> {
    s.subrange(field_start(s, k), field_end(s, field_start(s, k)))
}

/// Whether `s` consists of exactly six fields: each of the first five ends
/// at a space, and the sixth at the end of `s`.
pub open spec fn has_six_fields(s: Seq<char>) -> bool {
    &&& forall|k: int| 0 <= k < 5 ==> field_end(s, #[trigger] field_start(s, k)) < s.len()
    &&& field_end(s, field_start(s, 5)) == s.len()
}

/// The board while its description is read: the squares filled so far, the
/// storage position of the next square, and whether a rank has just begun.
pub struct Setup {
    pub tiles: Seq<Option<Piece>>,
    pub next: int,
    pub fresh: bool,
}

/// Whether `n` more squares fit into the rank that is being read.
pub open spec fn fits(st: Setup, n: int) -> bool {
    st.next < 64 && st.next % 8 + n <= 8 && (st.next % 8 != 0 || st.fresh)
}

/// The effect of one character of the board's description: `/` begins the
/// next rank once the current one is full, a digit from 1 to 8 leaves that
/// many squares empty, a piece letter fills one square. Anything else, and
/// anything that does not fit into the rank, is an error.
pub open spec fn place(st: Setup, c: char) -> Option<Setup> {
    if c == '/' {
        if st.next % 8 == 0 && !st.fresh && st.next < 64 {
            Some(Setup { fresh: true, ..st })
        } else {
            None
        }
    } else if '1' <= c <= '8' {
        if fits(st, c as int - 48) {
            Some(Setup { next: st.next + (c as int - 48), fresh: false, ..st })
        } else {
            None
        }
    } else {
        match Piece::of_letter(c) {
            Some(p) => if fits(st, 1) {
                Some(
                    Setup {
                        tiles: st.tiles.update(st.next, Some(p)),
                        next: st.next + 1,
                        fresh: false,
                    },
                )
            } else {
                None
            },
            None => None,
        }
    }
}

/// The board after the characters `f` of its description, read from the
/// left, starting on `a8` with all squares empty.
pub open spec fn placed(f: Seq<char>) -> Option<Setup>
    decreases f.len(),
{
    if f.len() == 0 {
        Some(Setup { tiles: Seq::new(64, |i: int| None::<Piece>), next: 0, fresh: true })
    } else {
        match placed(f.drop_last()) {
            Some(st) => place(st, f.last()),
            None => None,
        }
    }
}

/// The board that the field `f` describes: eight ranks from rank 8 down to
/// rank 1, with `/` between them, each of exactly eight squares.
pub open spec fn placement(f: Seq<char>) -> Option<Seq<Option<Piece>>> {
    match placed(f) {
        Some(st) => if st.next == 64 && !st.fresh {
            Some(st.tiles)
        } else {
            None
        },
        None => None,
    }
}

/// The side that the field `f` names: `w` or `b`.
pub open spec fn side_to_move(f: Seq<char>) -> Option<Color> {
    if f =~= seq!['w'] {
        Some(Color::White)
    } else if f =~= seq!['b'] {
        Some(Color::Black)
    } else {
        None
    }
}

/// The letter of the castling right in place `slot`.
pub open spec fn right_letter(slot: int) -> char {
    if slot == 0 {
        'K'
    } else if slot == 1 {
        'Q'
    } else if slot == 2 {
        'k'
    } else {
        'q'
    }
}

/// Whether `c` is the letter of a castling right.
pub open spec fn is_right_letter(c: char) -> bool {
    c == 'K' || c == 'Q' || c == 'k' || c == 'q'
}

/// The castling rights that the field `f` grants: none for `-`; else `f`
/// is a non-empty run of the letters `KQkq`, and a right stands where its
/// letter occurs.
pub open spec fn rights(f: Seq<char>) -> Option<Seq<bool>> {
    if f =~= seq!['-'] {
        Some(Seq::new(4, |slot: int| false))
    } else if f.len() > 0 && (forall|i: int| 0 <= i < f.len() ==> is_right_letter(#[trigger] f[i])) {
        Some(Seq::new(4, |slot: int| f.contains(right_letter(slot))))
    } else {
        None
    }
}

/// The en-passant square that the field `f` names: none for `-`, else the
/// square of that name. The outer `None` is an error.
pub open spec fn passing_square(f: Seq<char>) -> Option<Option<Tile>> {
    if f =~= seq!['-'] {
        Some(None)
    } else if Tile::parsed(f) is Some {
        Some(Tile::parsed(f))
    } else {
        None
    }
}

/// The number that the decimal digits `f` write, as long as neither it nor
/// the number of any shorter beginning of `f` exceeds what a `usize` holds.
pub open spec fn digits(f: Seq<char>) -> Option<nat>
    decreases f.len(),
{
    if f.len() == 0 {
        Some(0)
    } else {
        match digits(f.drop_last()) {
            Some(v) => if '0' <= f.last() <= '9' && v * 10 + (f.last() as int - 48) <= usize::MAX {
                Some((v * 10 + (f.last() as int - 48)) as nat)
            } else {
                None
            },
            None => None,
        }
    }
}

/// The number that the field `f` writes: at least one decimal digit and
/// nothing else.
pub open spec fn number(f: Seq<char>) -> Option<nat> {
    if f.len() == 0 {
        None
    } else {
        digits(f)
    }
}

/// What is wrong with the record `s`, if anything: the first of its faults
/// in the order of the fields.
pub open spec fn fen_error(s: Seq<char>) -> Option<FenError> {
    if !has_six_fields(s) {
        Some(FenError::FieldCount)
    } else if placement(field(s, 0)) is None {
        Some(FenError::Placement)
    } else if side_to_move(field(s, 1)) is None {
        Some(FenError::ActivePlayer)
    } else if rights(field(s, 2)) is None {
        Some(FenError::Castling)
    } else if passing_square(field(s, 3)) is None {
        Some(FenError::EnPassant)
    } else if number(field(s, 4)) is None {
        Some(FenError::HalfMoves)
    } else if number(field(s, 5)) is None {
        Some(FenError::FullMoves)
    } else {
        None
    }
}

/// The position that the faultless record `s` describes.
pub open spec fn fen_position(s: Seq<char>) -> ChessView
    recommends
        fen_error(s) is None,
{
    ChessView {
        tiles: placement(field(s, 0))->0,
        active_player: side_to_move(field(s, 1))->0,
        castle_rights: rights(field(s, 2))->0,
        en_passant: passing_square(field(s, 3))->0,
        half_moves: number(field(s, 4))->0,
        full_moves: number(field(s, 5))->0,
    }
}

/// The characters of `text`, one by one.
pub fn characters(text: &str) -> (cs: Vec<char>)
    ensures
        cs@ == text@,
{
    let n = text.unicode_len();
    let mut cs: Vec<char> = Vec::new();
    let mut i: usize = 0;
    while i < n
        invariant
            i <= n,
            n == text@.len(),
            cs@ == text@.take(i as int),
        decreases n - i,
    {
        cs.push(text.get_char(i));
        assert(cs@ =~= text@.take(i + 1));
        i = i + 1;
    }
    assert(text@.take(n as int) =~= text@);
    cs
}

/// Finds the end of the field that starts at `from`.
pub fn find_field_end(cs: &Vec<char>, from: usize) -> (e: usize)
    requires
        from <= cs@.len(),
    ensures
        e == field_end(cs@, from as int),
        from <= e <= cs@.len(),
        e < cs@.len() ==> cs@[e as int] == ' ',
{
    let mut e = from;
    while e < cs.len() && cs[e] != ' '
        invariant
            from <= e <= cs@.len(),
            field_end(cs@, from as int) == field_end(cs@, e as int),
        decreases cs@.len() - e,
    {
        e = e + 1;
    }
    e
}

/// Reads the board from the characters of `cs` between `from` and `to`.
pub fn read_placement(cs: &Vec<char>, from: usize, to: usize) -> (r: Option<
    [Option<Piece>; 64],
>)
    requires
        from <= to <= cs@.len(),
    ensures
        match r {
            Some(tiles) => placement(cs@.subrange(from as int, to as int)) == Some(tiles@),
            None => placement(cs@.subrange(from as int, to as int)) is None,
        },
{
    let mut tiles: [Option<Piece>; 64] = [None;64];
    let mut next: usize = 0;
    let mut fresh = true;
    let mut i = from;
    assert(tiles@ =~= Seq::new(64, |i: int| None::<Piece>));
    while i < to
        invariant
            from <= i <= to <= cs@.len(),
            next <= 64,
            placed(cs@.subrange(from as int, i as int)) == Some(
                Setup { tiles: tiles@, next: next as int, fresh },
            ),
        decreases to - i,
    {
        let c = cs[i];
        let ghost st = Setup { tiles: tiles@, next: next as int, fresh };
        proof {
            let f = cs@.subrange(from as int, i + 1);
            assert(f.drop_last() =~= cs@.subrange(from as int, i as int));
            assert(f.last() == c);
            assert(placed(f) == place(st, c));
            if place(st, c) is None {
                assert(cs@.subrange(from as int, to as int).take(i + 1 - from) =~= f);
                lemma_placed_stays_none(cs@.subrange(from as int, to as int), i + 1 - from);
            }
        }
        if c == '/' {
            if next % 8 == 0 && !fresh && next < 64 {
                fresh = true;
            } else {
                return None;
            }
        } else if '1' <= c && c <= '8' {
            let n: usize = (c as u8 - 48) as usize;
            if next < 64 && next % 8 + n <= 8 && (next % 8 != 0 || fresh) {
                next = next + n;
                fresh = false;
            } else {
                return None;
            }
        } else {
            match Piece::from_letter(c) {
                Some(p) => {
                    if next < 64 && next % 8 + 1 <= 8 && (next % 8 != 0 || fresh) {
                        tiles[next] = Some(p);
                        next = next + 1;
                        fresh = false;
                    } else {
                        return None;
                    }
                },
                None => {
                    return None;
                },
            }
        }
        i = i + 1;
    }
    if next == 64 && !fresh {
        Some(tiles)
    } else {
        None
    }
}

/// Once the description of a board has gone wrong, nothing that follows
/// mends it.
pub proof fn lemma_placed_stays_none(f: Seq<char>, n: int)
    requires
        0 <= n <= f.len(),
        placed(f.take(n)) is None,
    ensures
        placed(f) is None,
    decreases f.len() - n,
{
    if n < f.len() {
        assert(f.take(n + 1).drop_last() =~= f.take(n));
        lemma_placed_stays_none(f, n + 1);
    } else {
        assert(f.take(n) =~= f);
    }
}

/// Reads the side to move from the characters of `cs` between `from` and
/// `to`.
pub fn read_side(cs: &Vec<char>, from: usize, to: usize) -> (r: Option<Color>)
    requires
        from <= to <= cs@.len(),
    ensures
        r == side_to_move(cs@.subrange(from as int, to as int)),
{
    if to - from != 1 {
        return None;
    }
    let c = cs[from];
    let ghost f = cs@.subrange(from as int, to as int);
    assert(f[0] == c);
    if c == 'w' {
        assert(f =~= seq!['w']);
        Some(Color::White)
    } else if c == 'b' {
        assert(f =~= seq!['b']);
        Some(Color::Black)
    } else {
        None
    }
}

/// Reads the castling rights from the characters of `cs` between `from`
/// and `to`.
pub fn read_rights(cs: &Vec<char>, from: usize, to: usize) -> (r: Option<[bool; 4]>)
    requires
        from <= to <= cs@.len(),
    ensures
        match r {
            Some(flags) => rights(cs@.subrange(from as int, to as int)) == Some(flags@),
            None => rights(cs@.subrange(from as int, to as int)) is None,
        },
{
    let ghost f = cs@.subrange(from as int, to as int);
    let mut flags: [bool; 4] = [false;4];
    if to == from {
        return None;
    }
    if to - from == 1 && cs[from] == '-' {
        assert(f =~= seq!['-']);
        assert(flags@ =~= Seq::new(4, |slot: int| false));
        return Some(flags);
    }
    assert(!(f =~= seq!['-'])) by {
        if f.len() == 1 {
            assert(f[0] == cs@[from as int]);
        }
    }
    let mut i = from;
    while i < to
        invariant
            from <= i <= to <= cs@.len(),
            f == cs@.subrange(from as int, to as int),
            !(f =~= seq!['-']),
            forall|k: int| 0 <= k < i - from ==> is_right_letter(#[trigger] f[k]),
            forall|slot: int|
                0 <= slot < 4 ==> #[trigger] flags@[slot] == f.take(i - from).contains(
                    right_letter(slot),
                ),
        decreases to - i,
    {
        let c = cs[i];
        assert(f[i - from] == c);
        let ghost before = f.take(i - from);
        let ghost now = f.take(i + 1 - from);
        assert(now =~= before.push(c));
        assert forall|x: char| now.contains(x) <==> (before.contains(x) || x == c) by {
            if before.contains(x) {
                let k = choose|k: int| 0 <= k < before.len() && before[k] == x;
                assert(now[k] == x);
            }
            if x == c {
                assert(now[now.len() - 1] == c);
            }
        }
        if c == 'K' {
            flags[0] = true;
        } else if c == 'Q' {
            flags[1] = true;
        } else if c == 'k' {
            flags[2] = true;
        } else if c == 'q' {
            flags[3] = true;
        } else {
            assert(!is_right_letter(f[i - from]));
            return None;
        }
        i = i + 1;
    }
    assert(f.take(to - from) =~= f);
    assert(flags@ =~= Seq::new(4, |slot: int| f.contains(right_letter(slot))));
    Some(flags)
}

/// Reads the en-passant square from the characters of `cs` between `from`
/// and `to`. The outer `None` is an error.
pub fn read_passing_square(cs: &Vec<char>, from: usize, to: usize) -> (r: Option<Option<Tile>>)
    requires
        from <= to <= cs@.len(),
    ensures
        r == passing_square(cs@.subrange(from as int, to as int)),
{
    let ghost f = cs@.subrange(from as int, to as int);
    if to - from == 1 && cs[from] == '-' {
        assert(f =~= seq!['-']);
        return Some(None);
    }
    assert(!(f =~= seq!['-'])) by {
        if f.len() == 1 {
            assert(f[0] == cs@[from as int]);
        }
    }
    if to - from != 2 {
        return None;
    }
    assert(f[0] == cs@[from as int] && f[1] == cs@[from + 1]);
    match Tile::new(cs[from], cs[from + 1]) {
        Some(t) => Some(Some(t)),
        None => None,
    }
}

/// Reads a number from the characters of `cs` between `from` and `to`.
pub fn read_number(cs: &Vec<char>, from: usize, to: usize) -> (r: Option<usize>)
    requires
        from <= to <= cs@.len(),
    ensures
        match r {
            Some(v) => number(cs@.subrange(from as int, to as int)) == Some(v as nat),
            None => number(cs@.subrange(from as int, to as int)) is None,
        },
{
    let ghost f = cs@.subrange(from as int, to as int);
    if to == from {
        return None;
    }
    let mut value: usize = 0;
    let mut i = from;
    assert(f.take(0) =~= Seq::<char>::empty());
    while i < to
        invariant
            from <= i <= to <= cs@.len(),
            f == cs@.subrange(from as int, to as int),
            digits(f.take(i - from)) == Some(value as nat),
        decreases to - i,
    {
        let c = cs[i];
        proof {
            assert(f.take(i + 1 - from).drop_last() =~= f.take(i - from));
            assert(f.take(i + 1 - from).last() == c);
        }
        if c < '0' || c > '9' {
            proof {
                lemma_digits_stay_none(f, i + 1 - from);
            }
            return None;
        }
        let d: usize = (c as u8 - 48) as usize;
        if value > (usize::MAX - d) / 10 {
            proof {
                lemma_digits_stay_none(f, i + 1 - from);
            }
            return None;
        }
        value = value * 10 + d;
        i = i + 1;
    }
    assert(f.take(to - from) =~= f);
    Some(value)
}

/// Once a run of digits has gone wrong, nothing that follows mends it.
pub proof fn lemma_digits_stay_none(f: Seq<char>, n: int)
    requires
        0 <= n <= f.len(),
        digits(f.take(n)) is None,
    ensures
        digits(f) is None,
    decreases f.len() - n,
{
    if n < f.len() {
        assert(f.take(n + 1).drop_last() =~= f.take(n));
        lemma_digits_stay_none(f, n + 1);
    } else {
        assert(f.take(n) =~= f);
    }
}

impl Chess {
    /// Reads a position from its record of six fields, separated by one
    /// space each: the board, the side to move, the castling rights, the
    /// en-passant square, and the two move counters. A record that is not
    /// of this form gives the error that names its first faulty field.
    pub fn load_fen(fen: &str) -> (r: Result<Chess, FenError>)
        ensures
            match r {
                Ok(chess) => fen_error(fen@) is None && chess@ == fen_position(fen@),
                Err(e) => fen_error(fen@) == Some(e),
            },
    {
        let cs = characters(fen);
        let n = cs.len();
        proof {
            reveal_with_fuel(field_start, 7);
        }
        let e0 = find_field_end(&cs, 0);
        if e0 >= n {
            assert(field_start(cs@, 0) == 0);
            return Err(FenError::FieldCount);
        }
        let e1 = find_field_end(&cs, e0 + 1);
        if e1 >= n {
            assert(field_start(cs@, 1) == e0 + 1);
            return Err(FenError::FieldCount);
        }
        let e2 = find_field_end(&cs, e1 + 1);
        if e2 >= n {
            assert(field_start(cs@, 2) == e1 + 1);
            return Err(FenError::FieldCount);
        }
        let e3 = find_field_end(&cs, e2 + 1);
        if e3 >= n {
            assert(field_start(cs@, 3) == e2 + 1);
            return Err(FenError::FieldCount);
        }
        let e4 = find_field_end(&cs, e3 + 1);
        if e4 >= n {
            assert(field_start(cs@, 4) == e3 + 1);
            return Err(FenError::FieldCount);
        }
        let e5 = find_field_end(&cs, e4 + 1);
        assert(field_start(cs@, 5) == e4 + 1);
        if e5 < n {
            return Err(FenError::FieldCount);
        }
        assert(has_six_fields(cs@)) by {
            assert(field_start(cs@, 0) == 0);
            assert(field_start(cs@, 1) == e0 + 1);
            assert(field_start(cs@, 2) == e1 + 1);
            assert(field_start(cs@, 3) == e2 + 1);
            assert(field_start(cs@, 4) == e3 + 1);
        }
        let tiles = match read_placement(&cs, 0, e0) {
            Some(t) => t,
            None => {
                return Err(FenError::Placement);
            },
        };
        let active_player = match read_side(&cs, e0 + 1, e1) {
            Some(c) => c,
            None => {
                return Err(FenError::ActivePlayer);
            },
        };
        let castle_rights = match read_rights(&cs, e1 + 1, e2) {
            Some(f) => f,
            None => {
                return Err(FenError::Castling);
            },
        };
        let en_passant = match read_passing_square(&cs, e2 + 1, e3) {
            Some(e) => e,
            None => {
                return Err(FenError::EnPassant);
            },
        };
        let half_moves = match read_number(&cs, e3 + 1, e4) {
            Some(v) => v,
            None => {
                return Err(FenError::HalfMoves);
            },
        };
        let full_moves = match read_number(&cs, e4 + 1, e5) {
            Some(v) => v,
            None => {
                return Err(FenError::FullMoves);
            },
        };
        Ok(Chess { tiles, active_player, castle_rights, en_passant, half_moves, full_moves })
    }
}

} // verus!
