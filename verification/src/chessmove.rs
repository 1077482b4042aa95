use vstd::prelude::*;
use vstd::string::*;
use crate::tile::Tile;

verus! {

/// What a move is beyond going from one square to another.
#[derive(Copy, Clone, Debug, PartialEq, Eq, Structural)]
pub enum SpecialMove {
    QueenPromotion,
    KnightPromotion,
    RookPromotion,
    BishopPromotion,
    KingsideCastle,
    QueensideCastle,
}

/// A move: the square it leaves, the square it reaches, and the promotion
/// that was asked for, if any.
#[derive(Copy, Clone, Debug, PartialEq, Eq, Structural)]
pub struct ChessMove {
    pub src: Tile,
    pub dst: Tile,
    pub special: Option<SpecialMove>,
}

/// The promotion that the letter `c` asks for. Any letter but `Q`, `N`, `R`
/// and `B` asks for none.
pub open spec fn promotion_of(c: char) -> Option<SpecialMove> {
    if c == 'Q' {
        Some(SpecialMove::QueenPromotion)
    } else if c == 'N' {
        Some(SpecialMove::KnightPromotion)
    } else if c == 'R' {
        Some(SpecialMove::RookPromotion)
    } else if c == 'B' {
        Some(SpecialMove::BishopPromotion)
    } else {
        None
    }
}

/// The move that `text` writes down: four or five characters, the names of
/// two squares and then, optionally, a promotion letter.
pub open spec fn parsed_move(text: Seq<char>) -> Option<ChessMove> {
    if 4 <= text.len() <= 5 && Tile::parsed(text.subrange(0, 2)) is Some && Tile::parsed(
        text.subrange(2, 4),
    ) is Some {
        Some(
            ChessMove {
                src: Tile::parsed(text.subrange(0, 2))->0,
                dst: Tile::parsed(text.subrange(2, 4))->0,
                special: if text.len() == 5 {
                    promotion_of(text[4])
                } else {
                    None
                },
            },
        )
    } else {
        None
    }
}

/// Reads the promotion that the letter `c` asks for.
pub fn promotion_from_letter(c: char) -> (p: Option<SpecialMove>)
    ensures
        p == promotion_of(c),
{
    match c {
        'Q' => Some(SpecialMove::QueenPromotion),
        'N' => Some(SpecialMove::KnightPromotion),
        'R' => Some(SpecialMove::RookPromotion),
        'B' => Some(SpecialMove::BishopPromotion),
        _ => None,
    }
}

/// Reads a move from its characters. There is none where `text` has fewer
/// than four or more than five characters, or where one of the two squares
/// is not on the board. A fifth character that is no promotion letter is
/// passed over.
pub fn parse_move_chars(text: &Vec<char>) -> (m: Option<ChessMove>)
    ensures
        m == parsed_move(text@),
{
    let n = text.len();
    if n > 5 || n < 4 {
        return None;
    }
    let src = match Tile::new(text[0], text[1]) {
        Some(t) => t,
        None => {
            return None;
        },
    };
    let dst = match Tile::new(text[2], text[3]) {
        Some(t) => t,
        None => {
            return None;
        },
    };
    let special = if n == 5 {
        promotion_from_letter(text[4])
    } else {
        None
    };
    Some(ChessMove { src, dst, special })
}

/// Reads a move such as `e2e4` or `e7e8Q`; see `parse_move_chars`.
pub fn parse_move_text(text: &str) -> (m: Option<ChessMove>)
    ensures
        m == parsed_move(text@),
{
    let n = text.unicode_len();
    if n > 5 || n < 4 {
        return None;
    }
    let chars = crate::fen::characters(text);
    parse_move_chars(&chars)
}

/// Text that can be read as a move.
pub trait ToChessMove {
    /// The move that the text writes down, if it writes one.
    fn parse(&self) -> Option<ChessMove>;
}

impl ToChessMove for String {
    fn parse(&self) -> (m: Option<ChessMove>)
        ensures
            m == parsed_move(self@),
    {
        parse_move_text(self.as_str())
    }
}

} // verus!
