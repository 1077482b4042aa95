use chess_rules::color::Color;
use chess_rules::game::Chess;
use chess_rules::pieces::{ChessPiece, Piece};
use chess_rules::text::{push_all, push_decimal};
use chess_rules::tile::Tile;

#[test]
fn start_position_is_drawn() {
    let expected = String::new()
        + "  a  b  c  d  e  f  g  h "
        + "\n\n8 \u{2656}  \u{2658}  \u{2657}  \u{2655}  \u{2654}  \u{2657}  \u{2658}  \u{2656} "
        + "\n\n7 \u{2659}  \u{2659}  \u{2659}  \u{2659}  \u{2659}  \u{2659}  \u{2659}  \u{2659} "
        + "\n\n6                        "
        + "\n\n5                        "
        + "\n\n4                        "
        + "\n\n3                        "
        + "\n\n2 \u{265F}  \u{265F}  \u{265F}  \u{265F}  \u{265F}  \u{265F}  \u{265F}  \u{265F} "
        + "\n\n1 \u{265C}  \u{265E}  \u{265D}  \u{265B}  \u{265A}  \u{265D}  \u{265E}  \u{265C} "
        + "\n               White 0 1 ";
    assert_eq!(Chess::new().draw(), expected);
}

#[test]
fn drawing_tells_the_state() {
    let chess = Chess::load_fen("8/8/8/8/8/8/8/8 b - - 120 4075").unwrap();
    let text = chess.draw();
    assert!(text.ends_with("\n               Black 120 4075 "));
    assert!(text.starts_with("  a  b  c  d  e  f  g  h \n\n8   "));
    assert_eq!(text.chars().count(), 25 + 8 * 27 + 1 + 15 + 5 + 1 + 3 + 1 + 4 + 1);
}

#[test]
fn names_of_squares_and_sides() {
    assert_eq!(Tile::new('e', '4').unwrap().name(), "e4");
    assert_eq!(Tile::new('a', '8').unwrap().name(), "a8");
    for tile in Tile::all() {
        assert_eq!(Tile::parse(&tile.name()), Some(tile));
    }
    assert_eq!(Color::White.name(), "White");
    assert_eq!(Color::Black.name(), "Black");
}

#[test]
fn letters_and_figurines_of_pieces() {
    let kinds = [
        ChessPiece::King,
        ChessPiece::Queen,
        ChessPiece::Rook,
        ChessPiece::Bishop,
        ChessPiece::Knight,
        ChessPiece::Pawn,
    ];
    let white = ['K', 'Q', 'R', 'B', 'N', 'P'];
    let black = ['k', 'q', 'r', 'b', 'n', 'p'];
    for (i, kind) in kinds.iter().enumerate() {
        let w = Piece::new(*kind, Color::White);
        let b = Piece::new(*kind, Color::Black);
        assert_eq!(w.letter(), white[i]);
        assert_eq!(b.letter(), black[i]);
        assert_eq!(Piece::from_letter(w.letter()), Some(w));
        assert_eq!(Piece::from_letter(b.letter()), Some(b));
        assert_eq!(b.symbol() as u32, 0x2654 + i as u32);
        assert_eq!(w.symbol() as u32, 0x265A + i as u32);
    }
}

#[test]
fn numbers_in_decimal() {
    let mut out = String::from("n=");
    push_decimal(&mut out, 0);
    push_all(&mut out, ", ");
    push_decimal(&mut out, 7);
    push_all(&mut out, ", ");
    push_decimal(&mut out, 10);
    push_all(&mut out, ", ");
    push_decimal(&mut out, 4075);
    push_all(&mut out, "");
    assert_eq!(out, "n=0, 7, 10, 4075");
    let mut out = String::new();
    push_decimal(&mut out, usize::MAX);
    assert_eq!(out, format!("{}", usize::MAX));
}
