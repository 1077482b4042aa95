use vstd::prelude::*;
use crate::color::Color;
use crate::game::{Chess, ChessView};
use crate::pieces::Piece;
use crate::tile::Tile;

verus! {

/// `String::push` of the standard library, which is documented to append
/// the given character to the end of the string: afterwards the string
/// holds the characters it held, and then `c`.
pub assume_specification[ String::push ](s: &mut String, c: char)
    ensures
        final(s)@ == old(s)@.push(c),
;

/// The decimal digit for `d`.
pub open spec fn digit_char(d: int) -> char {
    (d + 48) as char
}

/// The decimal digits of `n`, without leading zeros.
pub open spec fn decimal(n: nat) -> Seq<char>
    decreases n,
{
    if n < 10 {
        seq![digit_char(n as int)]
    } else {
        decimal(n / 10).push(digit_char((n % 10) as int))
    }
}

/// Appends the decimal digits of `n` to `out`.
pub fn push_decimal(out: &mut String, n: usize)
    ensures
        final(out)@ == old(out)@ + decimal(n as nat),
    decreases n,
{
    if n >= 10 {
        push_decimal(out, n / 10);
    }
    out.push(((n % 10) as u8 + 48) as char);
    assert(out@ =~= old(out)@ + decimal(n as nat));
}

/// The digits of a number, read as a number, give the number back.
pub proof fn lemma_decimal_reads_back(n: nat)
    ensures
        decimal(n).len() > 0,
        n <= usize::MAX ==> crate::fen::number(decimal(n)) == Some(n),
    decreases n,
{
    let f = decimal(n);
    if n >= 10 {
        lemma_decimal_reads_back(n / 10);
        assert(f.drop_last() =~= decimal(n / 10));
        assert(f.last() == digit_char((n % 10) as int));
    } else {
        assert(f.drop_last() =~= Seq::<char>::empty());
        assert(crate::fen::digits(Seq::<char>::empty()) == Some(0nat));
        assert(f.last() == digit_char(n as int));
    }
    if n <= usize::MAX {
        let v = n / 10;
        let d = f.last() as int - 48;
        assert(d == n % 10);
        assert(crate::fen::digits(f.drop_last()) == Some(v));
        assert(v * 10 + d == n);
        assert(crate::fen::digits(f) == Some(n));
    }
}

/// The name of `color`.
pub open spec fn color_name(color: Color) -> Seq<char> {
    match color {
        Color::White => seq!['W', 'h', 'i', 't', 'e'],
        Color::Black => seq!['B', 'l', 'a', 'c', 'k'],
    }
}

/// The three characters that show what a square holds: the figurine of
/// its piece between two spaces, or three spaces.
pub open spec fn drawn_square(occupant: Option<Piece>) -> Seq<char> {
    match occupant {
        Some(p) => seq![' ', p.figurine(), ' '],
        None => seq![' ', ' ', ' '],
    }
}

/// The line above the board: a space, then each file letter between two
/// spaces.
pub open spec fn drawn_files(n: int) -> Seq<char>
    decreases n,
{
    if n <= 0 {
        seq![' ']
    } else {
        drawn_files(n - 1) + seq![' ', (96 + n) as char, ' ']
    }
}

impl ChessView {
    /// The drawing of the first `n` squares in storage order. Each rank
    /// begins with an empty line and the digit of the rank.
    pub open spec fn drawn_squares(self, n: int) -> Seq<char>
        decreases n,
    {
        if n <= 0 {
            Seq::empty()
        } else {
            self.drawn_squares(n - 1) + (if (n - 1) % 8 == 0 {
                seq!['\n', '\n', digit_char(8 - (n - 1) / 8)]
            } else {
                Seq::empty()
            }) + drawn_square(self.tiles[n - 1])
        }
    }

    /// The line below the board: 15 spaces, then the side to move and the
    /// two move counters, each followed by a space.
    pub open spec fn drawn_state(self) -> Seq<char> {
        Seq::new(15, |i: int| ' ') + color_name(self.active_player) + seq![' '] + decimal(
            self.half_moves,
        ) + seq![' '] + decimal(self.full_moves) + seq![' ']
    }

    /// The drawing of the position: the file letters, the eight ranks from
    /// rank 8 down to rank 1, and the line that tells the state.
    pub open spec fn drawn(self) -> Seq<char> {
        drawn_files(8) + self.drawn_squares(64) + seq!['\n'] + self.drawn_state()
    }
}

impl Color {
    /// The name of the side: `White` or `Black`.
    pub fn name(&self) -> (text: String)
        ensures
            text@ == color_name(*self),
    {
        let mut text = String::new();
        match self {
            Color::White => {
                text.push('W');
                text.push('h');
                text.push('i');
                text.push('t');
                text.push('e');
            },
            Color::Black => {
                text.push('B');
                text.push('l');
                text.push('a');
                text.push('c');
                text.push('k');
            },
        }
        assert(text@ =~= color_name(*self));
        text
    }
}

impl Tile {
    /// The name of the square, such as `e4`; `Tile::parse` reads it back.
    pub fn name(&self) -> (text: String)
        ensures
            text@ == seq![self.letter(), self.digit()],
            Tile::parsed(text@) == Some(*self),
    {
        let mut text = String::new();
        text.push(self.file());
        text.push(self.rank());
        assert(text@ =~= seq![self.letter(), self.digit()]);
        text
    }
}

/// Appends `text` to `out`, character by character.
pub fn push_all(out: &mut String, text: &str)
    ensures
        final(out)@ == old(out)@ + text@,
{
    let n = text.unicode_len();
    let mut i: usize = 0;
    while i < n
        invariant
            i <= n,
            n == text@.len(),
            out@ == old(out)@ + text@.take(i as int),
        decreases n - i,
    {
        out.push(text.get_char(i));
        assert(out@ =~= old(out)@ + text@.take(i + 1));
        i = i + 1;
    }
    assert(text@.take(n as int) =~= text@);
}

impl Chess {
    /// Draws the position as text: a line of file letters, then for each
    /// rank, from rank 8 down, an empty line and a line with the digit of
    /// the rank and its eight squares, then a line with the side to move
    /// and the two move counters.
    pub fn draw(&self) -> (text: String)
        ensures
            text@ == self@.drawn(),
    {
        let mut text = String::new();
        text.push(' ');
        let mut f: u8 = 0;
        assert(text@ =~= drawn_files(0));
        while f < 8
            invariant
                f <= 8,
                text@ == drawn_files(f as int),
            decreases 8 - f,
        {
            text.push(' ');
            text.push((97 + f) as char);
            text.push(' ');
            f = f + 1;
            assert(text@ =~= drawn_files(f as int));
        }
        let mut i: usize = 0;
        assert(text@ =~= drawn_files(8) + self@.drawn_squares(0));
        while i < 64
            invariant
                i <= 64,
                text@ == drawn_files(8) + self@.drawn_squares(i as int),
            decreases 64 - i,
        {
            if i % 8 == 0 {
                text.push('\n');
                text.push('\n');
                text.push(((8 - i / 8) as u8 + 48) as char);
            }
            text.push(' ');
            match self.tiles[i] {
                Some(p) => text.push(p.symbol()),
                None => text.push(' '),
            }
            text.push(' ');
            i = i + 1;
            assert(text@ =~= drawn_files(8) + self@.drawn_squares(i as int));
        }
        let ghost board = text@;
        text.push('\n');
        let mut k: usize = 0;
        while k < 15
            invariant
                k <= 15,
                text@ == board + seq!['\n'] + Seq::new(k as nat, |i: int| ' '),
            decreases 15 - k,
        {
            text.push(' ');
            k = k + 1;
            assert(text@ =~= board + seq!['\n'] + Seq::new(k as nat, |i: int| ' '));
        }
        let side = self.active_player.name();
        push_all(&mut text, side.as_str());
        text.push(' ');
        push_decimal(&mut text, self.half_moves);
        text.push(' ');
        push_decimal(&mut text, self.full_moves);
        text.push(' ');
        assert(text@ =~= self@.drawn());
        text
    }
}

} // verus!
