use chess_rules::chessmove::{parse_move_text, ChessMove, SpecialMove, ToChessMove};
use chess_rules::color::Color;
use chess_rules::fen::FenError;
use chess_rules::game::Chess;
use chess_rules::pieces::bishop::get_moves_bishop;
use chess_rules::pieces::king::{get_moves_king, get_tiles_control_king};
use chess_rules::pieces::knight::{get_moves_knight, get_tiles_control_knight};
use chess_rules::pieces::pawn::{get_moves_pawn, get_tiles_control_pawn};
use chess_rules::pieces::queen::{get_moves_queen, get_tiles_control_queen};
use chess_rules::pieces::rook::{get_moves_rook, get_tiles_control_rook};
use chess_rules::pieces::{ChessPiece, Piece};
use chess_rules::tile::Tile;

const START: &str = "rnbqkbnr/pppppppp/8/8/8/8/PPPPPPPP/RNBQKBNR w KQkq - 0 1";

fn t(name: &str) -> Tile {
    Tile::parse(name).unwrap()
}

fn mv(text: &str) -> ChessMove {
    parse_move_text(text).unwrap()
}

fn names(tiles: &[Tile]) -> Vec<String> {
    tiles.iter().map(|x| format!("{}{}", x.file(), x.rank())).collect()
}

fn sorted(tiles: &[Tile]) -> Vec<String> {
    let mut v = names(tiles);
    v.sort();
    v
}

#[test]
fn start_pawns_advance_one_or_two() {
    let chess = Chess::load_fen(START).unwrap();
    for file in ['a', 'b', 'c', 'd', 'e', 'f', 'g', 'h'] {
        let from = Tile::new(file, '2').unwrap();
        let moves = chess.get_moves(from);
        assert_eq!(
            moves,
            vec![Tile::new(file, '3').unwrap(), Tile::new(file, '4').unwrap()]
        );
    }
}

#[test]
fn start_record_gives_start_position() {
    assert_eq!(Chess::load_fen(START).unwrap(), Chess::new());
    let chess = Chess::new();
    assert_eq!(chess.active_player(), Color::White);
    assert_eq!(chess.castle_rights, [true; 4]);
    assert_eq!(chess.en_passant, None);
    assert_eq!(chess.half_moves(), 0);
    assert_eq!(chess.full_moves(), 1);
    assert_eq!(
        *chess.peek(t("e1")),
        Some(Piece { typ: ChessPiece::King, color: Color::White, move_count: 0 })
    );
    assert_eq!(
        *chess.peek(t("d8")),
        Some(Piece { typ: ChessPiece::Queen, color: Color::Black, move_count: 0 })
    );
    assert_eq!(*chess.peek(t("e4")), None);
}

#[test]
fn rook_ray_ends_on_enemy_piece() {
    let chess = Chess::load_fen("8/8/3p4/8/3R4/8/8/8 w - - 0 1").unwrap();
    let moves = chess.get_moves(t("d4"));
    assert!(moves.contains(&t("d5")));
    assert!(moves.contains(&t("d6")));
    assert!(!moves.contains(&t("d7")));
    assert!(!moves.contains(&t("d8")));
    assert_eq!(
        names(&moves),
        vec!["d5", "d6", "d3", "d2", "d1", "e4", "f4", "g4", "h4", "c4", "b4", "a4"]
    );
    assert_eq!(names(&chess.ray(t("d4"), (0, 1))), vec!["d5", "d6"]);
}

#[test]
fn rook_ray_stops_before_own_piece() {
    let chess = Chess::load_fen("8/8/3P4/8/3R4/8/8/8 w - - 0 1").unwrap();
    let moves = get_moves_rook(&chess, t("d4"));
    assert!(moves.contains(&t("d5")));
    assert!(!moves.contains(&t("d6")));
    assert!(!moves.contains(&t("d7")));
    assert!(!moves.contains(&t("d8")));
    assert_eq!(names(&chess.ray(t("d4"), (0, 1))), vec!["d5", "d6"]);
    assert_eq!(get_tiles_control_rook(&chess, t("d4")), moves);
}

#[test]
fn en_passant_window() {
    let mut chess = Chess::load_fen(START).unwrap();
    assert!(!chess.make_move(mv("e2e4")).is_empty());
    assert_eq!(chess.en_passant, Some(t("e3")));
    for file in ['a', 'b', 'c', 'd', 'e', 'f', 'g', 'h'] {
        let from = Tile::new(file, '7').unwrap();
        assert!(!chess.get_moves(from).contains(&t("e3")));
    }
    assert!(!chess.make_move(mv("a7a6")).is_empty());
    assert_eq!(chess.en_passant, None);
    assert!(!chess.make_move(mv("e4e5")).is_empty());
    assert_eq!(chess.en_passant, None);
    assert!(!chess.make_move(mv("d7d5")).is_empty());
    assert_eq!(chess.en_passant, Some(t("d6")));
    assert_eq!(chess.active_player(), Color::White);
    assert_eq!(*chess.peek(t("d6")), None);
    assert_eq!(names(&chess.get_moves(t("e5"))), vec!["e6", "d6"]);
    let diff = chess.make_move(mv("e5d6"));
    let pawn = Piece { typ: ChessPiece::Pawn, color: Color::White, move_count: 3 };
    assert_eq!(
        diff,
        vec![(t("e5"), None), (t("d5"), None), (t("d6"), Some(pawn))]
    );
    assert_eq!(*chess.peek(t("d5")), None);
    assert_eq!(*chess.peek(t("d6")), Some(pawn));
    assert_eq!(chess.en_passant, None);
}

#[test]
fn castle_rights_never_come_back() {
    let mut chess = Chess::load_fen("r3k2r/8/8/8/8/8/8/R3K2R w KQkq - 0 1").unwrap();
    let mut seen = chess.castle_rights;
    for text in ["h1h2", "a8a7", "h2h1", "a7a8", "e1e2", "e8e7", "e2e1", "e7e8", "a1a2", "h8h7"] {
        assert!(!chess.make_move(mv(text)).is_empty());
        for slot in 0..4 {
            assert!(seen[slot] || !chess.castle_rights[slot]);
        }
        seen = chess.castle_rights;
    }
    assert_eq!(chess.castle_rights, [false; 4]);
}

#[test]
fn rook_leaving_corner_ends_one_right() {
    let mut chess = Chess::load_fen("r3k2r/8/8/8/8/8/8/R3K2R w KQkq - 0 1").unwrap();
    chess.make_move(mv("h1h2"));
    assert_eq!(chess.castle_rights, [false, true, true, true]);
    chess.make_move(mv("a8a7"));
    assert_eq!(chess.castle_rights, [false, true, true, false]);
    chess.make_move(mv("a1b1"));
    assert_eq!(chess.castle_rights, [false, false, true, false]);
    chess.make_move(mv("h8g8"));
    assert_eq!(chess.castle_rights, [false, false, false, false]);
}

#[test]
fn illegal_move_changes_nothing() {
    let mut chess = Chess::load_fen(START).unwrap();
    let before = chess.clone();
    assert!(chess.make_move(mv("e2e5")).is_empty());
    assert_eq!(chess, before);
    assert!(chess.make_move(mv("e7e5")).is_empty());
    assert_eq!(chess, before);
    assert!(chess.make_move(mv("e4e5")).is_empty());
    assert_eq!(chess, before);
    assert!(!chess.is_valid(&mv("e2e5")));
    assert!(chess.is_valid(&mv("e2e4")));
}

#[test]
fn moved_pawn_never_advances_two() {
    let mut chess = Chess::load_fen("8/8/8/8/8/8/4P3/8 w - - 0 1").unwrap();
    assert_eq!(names(&chess.get_moves(t("e2"))), vec!["e3", "e4"]);
    chess.put(
        t("e2"),
        Some(Piece { typ: ChessPiece::Pawn, color: Color::White, move_count: 1 }),
    );
    assert_eq!(names(&chess.get_moves(t("e2"))), vec!["e3"]);
    assert_eq!(names(&get_moves_pawn(&chess, t("e2"))), vec!["e3"]);
}

#[test]
fn pawn_needs_both_squares_empty() {
    let chess = Chess::load_fen("8/8/8/8/8/4n3/4P3/8 w - - 0 1").unwrap();
    assert!(chess.get_moves(t("e2")).is_empty());
    let chess = Chess::load_fen("8/8/8/8/4n3/8/4P3/8 w - - 0 1").unwrap();
    assert_eq!(names(&chess.get_moves(t("e2"))), vec!["e3"]);
    let chess = Chess::load_fen("8/4p3/8/8/8/8/8/8 b - - 0 1").unwrap();
    assert_eq!(names(&chess.get_moves(t("e7"))), vec!["e6", "e5"]);
}

#[test]
fn pawn_captures_and_control() {
    let chess = Chess::load_fen("8/8/8/8/8/3p1P2/4P3/8 w - - 0 1").unwrap();
    assert_eq!(names(&chess.get_moves(t("e2"))), vec!["e3", "e4", "d3"]);
    assert_eq!(names(&get_tiles_control_pawn(&chess, t("e2"))), vec!["d3", "f3"]);
    let chess = Chess::load_fen("8/8/8/8/8/8/P7/8 w - - 0 1").unwrap();
    assert_eq!(names(&get_tiles_control_pawn(&chess, t("a2"))), vec!["b3"]);
    let chess = Chess::load_fen("8/p7/8/8/8/8/8/8 b - - 0 1").unwrap();
    assert_eq!(names(&get_tiles_control_pawn(&chess, t("a7"))), vec!["b6"]);
}

#[test]
fn parser_boundary() {
    let m = parse_move_text("e2e4").unwrap();
    assert_eq!((m.src, m.dst, m.special), (t("e2"), t("e4"), None));
    let m = parse_move_text("e7e8Q").unwrap();
    assert_eq!(
        (m.src, m.dst, m.special),
        (t("e7"), t("e8"), Some(SpecialMove::QueenPromotion))
    );
    assert_eq!(parse_move_text("e2e"), None);
    assert_eq!(parse_move_text("e2e44Q"), None);
    assert_eq!(parse_move_text("e2e9"), None);
    assert_eq!(parse_move_text(""), None);
    assert_eq!(parse_move_text("i2e4"), None);
    assert_eq!(parse_move_text("e0e4"), None);
}

#[test]
fn parser_promotion_letters() {
    assert_eq!(mv("a7a8N").special, Some(SpecialMove::KnightPromotion));
    assert_eq!(mv("a7a8R").special, Some(SpecialMove::RookPromotion));
    assert_eq!(mv("a7a8B").special, Some(SpecialMove::BishopPromotion));
    assert_eq!(mv("a7a8q").special, None);
    assert_eq!(mv("a7a8K").special, None);
    assert_eq!(mv("a7a84").special, None);
    let text = String::from("b1c3");
    let m = ToChessMove::parse(&text).unwrap();
    assert_eq!((m.src, m.dst, m.special), (t("b1"), t("c3"), None));
    assert_eq!(ToChessMove::parse(&String::from("b1c")), None);
}

#[test]
fn first_move_end_to_end() {
    let mut chess = Chess::load_fen(START).unwrap();
    let diff = chess.make_move(mv("e2e4"));
    let pawn = Piece { typ: ChessPiece::Pawn, color: Color::White, move_count: 1 };
    assert!(diff.contains(&(t("e2"), None)));
    assert!(diff.contains(&(t("e4"), Some(pawn))));
    assert_eq!(diff, vec![(t("e2"), None), (t("e4"), Some(pawn))]);
    assert_eq!(chess.en_passant, Some(t("e3")));
    assert_eq!(chess.active_player(), Color::Black);
    assert_eq!(*chess.peek(t("e2")), None);
    assert_eq!(*chess.peek(t("e4")), Some(pawn));
    assert_eq!(chess.castle_rights, [true; 4]);
}

#[test]
fn tile_construction_and_index() {
    assert!(Tile::new('a', '1').is_some());
    assert!(Tile::new('h', '8').is_some());
    assert!(Tile::new('i', '1').is_none());
    assert!(Tile::new('a', '9').is_none());
    assert!(Tile::new('a', '0').is_none());
    assert!(Tile::new('A', '1').is_none());
    assert!(Tile::new('`', '1').is_none());
    assert_eq!(t("a8").to_index(), 0);
    assert_eq!(t("h8").to_index(), 7);
    assert_eq!(t("a1").to_index(), 56);
    assert_eq!(t("h1").to_index(), 63);
    assert_eq!(t("e4").to_index(), 36);
    assert_eq!(t("e4").file(), 'e');
    assert_eq!(t("e4").rank(), '4');
    assert_eq!(t("e4").file_number(), 4);
    assert_eq!(t("e4").rank_number(), 3);
    assert_eq!(Tile::from_numbers(4, 3), t("e4"));
    assert_eq!(Tile::from_index(36), Some(t("e4")));
    assert_eq!(Tile::from_index(64), None);
    assert_eq!(Tile::parse("e"), None);
    assert_eq!(Tile::parse("e44"), None);
    assert_eq!(Tile::parse("z4"), None);
}

#[test]
fn tile_all_is_in_storage_order() {
    let all = Tile::all();
    assert_eq!(all.len(), 64);
    for (i, x) in all.iter().enumerate() {
        assert_eq!(x.to_index() as usize, i);
        assert_eq!(Tile::from_index(i as u8), Some(*x));
    }
    assert_eq!(all[0], t("a8"));
    assert_eq!(all[63], t("h1"));
}

#[test]
fn tile_offsets_stop_at_the_edge() {
    assert_eq!(t("e4").offset((1, 1)), Some(t("f5")));
    assert_eq!(t("e4").offset((-4, -3)), Some(t("a1")));
    assert_eq!(t("e4").offset_back((1, 1)), Some(t("d3")));
    assert_eq!(t("h4").offset((1, 0)), None);
    assert_eq!(t("a4").offset((-1, 0)), None);
    assert_eq!(t("a8").offset((0, 1)), None);
    assert_eq!(t("a1").offset((0, -1)), None);
    assert_eq!(t("a1").offset_back((1, 0)), None);
    assert_eq!(t("h8").offset((127, 127)), None);
    assert_eq!(t("a1").offset((-128, -128)), None);
    assert_eq!(t("a1").offset_back((-128, -128)), None);
    assert_eq!(t("d4").offset((0, 0)), Some(t("d4")));
    assert_eq!(t("e4") + (1, 1), Some(t("f5")));
    assert_eq!(t("e4") + Tile::UP, Some(t("e5")));
    assert_eq!(t("e4") + Tile::DOWNLEFT, Some(t("d3")));
    assert_eq!(t("h4") + Tile::RIGHT, None);
    assert_eq!(t("e4") - (1, 1), Some(t("d3")));
    assert_eq!(t("e4") - Tile::LEFT, Some(t("f4")));
    assert_eq!(t("a1") - (1, 0), None);
    assert_eq!(
        [
            Tile::UP,
            Tile::DOWN,
            Tile::RIGHT,
            Tile::LEFT,
            Tile::UPRIGHT,
            Tile::UPLEFT,
            Tile::DOWNRIGHT,
            Tile::DOWNLEFT
        ],
        [(0, 1), (0, -1), (1, 0), (-1, 0), (1, 1), (-1, 1), (1, -1), (-1, -1)]
    );
}

#[test]
fn color_flips() {
    assert_eq!(Color::White.flip(), Color::Black);
    assert_eq!(Color::Black.flip(), Color::White);
    assert_eq!(!Color::White, Color::Black);
    assert_eq!(!Color::Black, Color::White);
}

#[test]
fn piece_bytes() {
    assert_eq!(ChessPiece::King.bits(), 2);
    assert_eq!(ChessPiece::Queen.bits(), 4);
    assert_eq!(ChessPiece::Rook.bits(), 8);
    assert_eq!(ChessPiece::Bishop.bits(), 16);
    assert_eq!(ChessPiece::Knight.bits(), 32);
    assert_eq!(ChessPiece::Pawn.bits(), 64);
    assert_eq!(Piece::new(ChessPiece::King, Color::White).as_byte(), 3);
    assert_eq!(Piece::new(ChessPiece::King, Color::Black).as_byte(), 2);
    assert_eq!(Piece::new(ChessPiece::Pawn, Color::White).as_byte(), 65);
    assert_eq!(Piece::new(ChessPiece::Pawn, Color::Black).as_byte(), 64);
}

#[test]
fn piece_letters_and_counting() {
    assert_eq!(Piece::from_letter('N'), Some(Piece::new(ChessPiece::Knight, Color::White)));
    assert_eq!(Piece::from_letter('b'), Some(Piece::new(ChessPiece::Bishop, Color::Black)));
    assert_eq!(Piece::from_letter('x'), None);
    assert_eq!(Piece::from_letter('1'), None);
    let p = Piece::new(ChessPiece::Rook, Color::White);
    assert_eq!(p.move_count, 0);
    assert_eq!(p.moved().move_count, 1);
    assert_eq!(p.moved().moved().move_count, 2);
    let old = Piece { typ: ChessPiece::Rook, color: Color::White, move_count: usize::MAX };
    assert_eq!(old.moved(), old);
}

#[test]
fn knight_jumps() {
    let chess = Chess::load_fen(START).unwrap();
    assert_eq!(names(&chess.get_moves(t("b1"))), vec!["c3", "a3"]);
    assert_eq!(names(&get_moves_knight(&chess, t("g8"))), vec!["h6", "f6"]);
    let chess = Chess::load_fen("8/8/8/3N4/8/8/8/8 w - - 0 1").unwrap();
    assert_eq!(
        names(&get_moves_knight(&chess, t("d5"))),
        vec!["f6", "f4", "b6", "b4", "e7", "e3", "c7", "c3"]
    );
    assert_eq!(
        get_tiles_control_knight(&chess, t("d5")),
        get_moves_knight(&chess, t("d5"))
    );
    let chess = Chess::load_fen("8/8/8/3N4/8/2P1p3/8/8 w - - 0 1").unwrap();
    assert_eq!(
        names(&get_moves_knight(&chess, t("d5"))),
        vec!["f6", "f4", "b6", "b4", "e7", "e3", "c7"]
    );
}

#[test]
fn bishop_and_queen_slides() {
    let chess = Chess::load_fen("8/8/5p2/8/3B4/8/1P6/8 w - - 0 1").unwrap();
    assert_eq!(
        names(&get_moves_bishop(&chess, t("d4"))),
        vec!["c5", "b6", "a7", "c3", "e5", "f6", "e3", "f2", "g1"]
    );
    let chess = Chess::load_fen("8/8/8/8/8/8/PP6/QP6 w - - 0 1").unwrap();
    assert!(get_moves_queen(&chess, t("a1")).is_empty());
    let chess = Chess::load_fen("8/8/8/8/8/8/pp6/Qp6 w - - 0 1").unwrap();
    assert_eq!(names(&get_moves_queen(&chess, t("a1"))), vec!["a2", "b1", "b2"]);
    assert_eq!(
        get_tiles_control_queen(&chess, t("a1")),
        get_moves_queen(&chess, t("a1"))
    );
    let chess = Chess::load_fen("8/8/8/8/3Q4/8/8/8 w - - 0 1").unwrap();
    assert_eq!(chess.get_moves(t("d4")).len(), 27);
}

#[test]
fn king_steps_and_castling() {
    let chess = Chess::load_fen("r3k2r/8/8/8/8/8/8/R3K2R w KQkq - 0 1").unwrap();
    assert_eq!(
        names(&get_moves_king(&chess, t("e1"))),
        vec!["e2", "d1", "f1", "d2", "f2", "g1", "c1"]
    );
    assert_eq!(
        names(&get_tiles_control_king(&chess, t("e1"))),
        vec!["e2", "d1", "f1", "d2", "f2"]
    );
    let chess = Chess::load_fen("r3k2r/8/8/8/8/8/8/R3K2R w Qk - 0 1").unwrap();
    assert_eq!(
        names(&get_moves_king(&chess, t("e1"))),
        vec!["e2", "d1", "f1", "d2", "f2", "c1"]
    );
    assert_eq!(
        sorted(&get_moves_king(&chess, t("e8"))),
        vec!["d7", "d8", "e7", "f7", "f8", "g8"]
    );
    let chess = Chess::load_fen("r3k2r/8/8/8/8/8/8/RN2K1NR w KQkq - 0 1").unwrap();
    assert_eq!(
        names(&get_moves_king(&chess, t("e1"))),
        vec!["e2", "d1", "f1", "d2", "f2"]
    );
}

#[test]
fn castling_needs_an_unmoved_rook() {
    let mut chess = Chess::load_fen("4k3/8/8/8/8/8/8/R3K2R w KQ - 0 1").unwrap();
    chess.put(
        t("h1"),
        Some(Piece { typ: ChessPiece::Rook, color: Color::White, move_count: 2 }),
    );
    assert!(!chess.get_moves(t("e1")).contains(&t("g1")));
    assert!(chess.get_moves(t("e1")).contains(&t("c1")));
    chess.put(t("a1"), Some(Piece::new(ChessPiece::Rook, Color::Black)));
    assert!(!chess.get_moves(t("e1")).contains(&t("c1")));
    chess.put(t("a1"), Some(Piece::new(ChessPiece::Queen, Color::White)));
    assert!(!chess.get_moves(t("e1")).contains(&t("c1")));
}

#[test]
fn castling_moves_the_rook() {
    let mut chess = Chess::load_fen("r3k2r/8/8/8/8/8/8/R3K2R w KQkq - 0 1").unwrap();
    let diff = chess.make_move(mv("e1g1"));
    let king = Piece { typ: ChessPiece::King, color: Color::White, move_count: 1 };
    let rook = Piece { typ: ChessPiece::Rook, color: Color::White, move_count: 1 };
    assert_eq!(
        diff,
        vec![
            (t("e1"), None),
            (t("h1"), None),
            (t("f1"), Some(rook)),
            (t("g1"), Some(king)),
        ]
    );
    assert_eq!(*chess.peek(t("e1")), None);
    assert_eq!(*chess.peek(t("h1")), None);
    assert_eq!(*chess.peek(t("f1")), Some(rook));
    assert_eq!(*chess.peek(t("g1")), Some(king));
    assert_eq!(chess.castle_rights, [false, false, true, true]);
    assert_eq!(chess.active_player(), Color::Black);

    let diff = chess.make_move(mv("e8c8"));
    let king = Piece { typ: ChessPiece::King, color: Color::Black, move_count: 1 };
    let rook = Piece { typ: ChessPiece::Rook, color: Color::Black, move_count: 1 };
    assert_eq!(
        diff,
        vec![
            (t("e8"), None),
            (t("a8"), None),
            (t("d8"), Some(rook)),
            (t("c8"), Some(king)),
        ]
    );
    assert_eq!(chess.castle_rights, [false; 4]);
    assert_eq!(chess.active_player(), Color::White);
}

#[test]
fn capture_replaces_the_piece() {
    let mut chess = Chess::load_fen("8/8/3p4/8/3R4/8/8/8 w - - 0 1").unwrap();
    let diff = chess.make_move(mv("d4d6"));
    let rook = Piece { typ: ChessPiece::Rook, color: Color::White, move_count: 1 };
    assert_eq!(diff, vec![(t("d4"), None), (t("d6"), Some(rook))]);
    assert_eq!(*chess.peek(t("d6")), Some(rook));
    assert_eq!(chess.take(t("d6")), Some(rook));
    assert_eq!(*chess.peek(t("d6")), None);
}

#[test]
fn moves_only_for_the_side_to_move() {
    let chess = Chess::load_fen(START).unwrap();
    assert!(chess.get_moves(t("e7")).is_empty());
    assert!(chess.get_moves(t("e4")).is_empty());
    assert!(chess.get_tiles_controlled(t("e4")).is_empty());
    assert_eq!(names(&chess.get_tiles_controlled(t("e7"))), vec!["d6", "f6"]);
}

#[test]
fn attacked_squares() {
    let chess = Chess::load_fen(START).unwrap();
    assert!(chess.is_attacked(t("e3"), Color::White));
    assert!(chess.is_attacked(t("f3"), Color::White));
    assert!(!chess.is_attacked(t("e4"), Color::White));
    assert!(!chess.is_attacked(t("e3"), Color::Black));
    assert!(chess.is_attacked(t("a6"), Color::Black));
    let chess = Chess::load_fen("8/8/3p4/8/3R4/8/8/8 w - - 0 1").unwrap();
    assert!(chess.is_attacked(t("d6"), Color::White));
    assert!(!chess.is_attacked(t("d7"), Color::White));
    assert!(chess.is_attacked(t("c5"), Color::Black));
    assert!(!chess.is_attacked(t("d5"), Color::Black));
}

#[test]
fn record_errors() {
    let err = |text: &str| Chess::load_fen(text).unwrap_err();
    assert_eq!(err(""), FenError::FieldCount);
    assert_eq!(err("8/8/8/8/8/8/8/8 w - - 0"), FenError::FieldCount);
    assert_eq!(err("8/8/8/8/8/8/8/8 w - - 0 1 2"), FenError::FieldCount);
    assert_eq!(err("8/8/8/8/8/8/8/8  w - - 0 1"), FenError::FieldCount);
    assert_eq!(err("8/8/8/8/8/8/8/8 w - - 0 1 "), FenError::FieldCount);
    assert_eq!(err("8/8/8/8/8/8/8 w - - 0 1"), FenError::Placement);
    assert_eq!(err("8/8/8/8/8/8/8/8/ w - - 0 1"), FenError::Placement);
    assert_eq!(err("8/8/8/8/8/8/8/8/8 w - - 0 1"), FenError::Placement);
    assert_eq!(err("/8/8/8/8/8/8/8/8 w - - 0 1"), FenError::Placement);
    assert_eq!(err("8/8/8/8/8/8/8/7 w - - 0 1"), FenError::Placement);
    assert_eq!(err("8/8/8/8/8/8/8/9 w - - 0 1"), FenError::Placement);
    assert_eq!(err("8/8/8/8/8/8/8/80 w - - 0 1"), FenError::Placement);
    assert_eq!(err("7/8/8/8/8/8/8/8 w - - 0 1"), FenError::Placement);
    assert_eq!(err("44p/8/8/8/8/8/8/8 w - - 0 1"), FenError::Placement);
    assert_eq!(err("8/8/8/8/8/8/8/7x w - - 0 1"), FenError::Placement);
    assert_eq!(err("88/8/8/8/8/8/8 w - - 0 1"), FenError::Placement);
    assert_eq!(err("8/8/8/8/8/8/8/8 x - - 0 1"), FenError::ActivePlayer);
    assert_eq!(err("8/8/8/8/8/8/8/8 wb - - 0 1"), FenError::ActivePlayer);
    assert_eq!(err("8/8/8/8/8/8/8/8 W - - 0 1"), FenError::ActivePlayer);
    assert_eq!(err("8/8/8/8/8/8/8/8 w KX - 0 1"), FenError::Castling);
    assert_eq!(err("8/8/8/8/8/8/8/8 w K- - 0 1"), FenError::Castling);
    assert_eq!(err("8/8/8/8/8/8/8/8 w -- - 0 1"), FenError::Castling);
    assert_eq!(err("8/8/8/8/8/8/8/8 w - e9 0 1"), FenError::EnPassant);
    assert_eq!(err("8/8/8/8/8/8/8/8 w - e 0 1"), FenError::EnPassant);
    assert_eq!(err("8/8/8/8/8/8/8/8 w - e33 0 1"), FenError::EnPassant);
    assert_eq!(err("8/8/8/8/8/8/8/8 w - - x 1"), FenError::HalfMoves);
    assert_eq!(err("8/8/8/8/8/8/8/8 w - - -1 1"), FenError::HalfMoves);
    assert_eq!(
        err("8/8/8/8/8/8/8/8 w - - 99999999999999999999999999 1"),
        FenError::HalfMoves
    );
    assert_eq!(err("8/8/8/8/8/8/8/8 w - - 0 1x"), FenError::FullMoves);
    assert_eq!(err("8/8/8/8/8/8/8/8 w - - 0 +1"), FenError::FullMoves);
}

#[test]
fn record_fields_are_read() {
    let chess = Chess::load_fen("4k3/8/8/8/4P3/8/8/4K3 b Qk e3 12 34").unwrap();
    assert_eq!(chess.active_player(), Color::Black);
    assert_eq!(chess.castle_rights, [false, true, true, false]);
    assert_eq!(chess.en_passant, Some(t("e3")));
    assert_eq!(chess.en_passant(), Some(t("e3")));
    assert_eq!(chess.half_moves(), 12);
    assert_eq!(chess.full_moves(), 34);
    assert_eq!(*chess.peek(t("e4")), Some(Piece::new(ChessPiece::Pawn, Color::White)));
    assert_eq!(*chess.peek(t("e8")), Some(Piece::new(ChessPiece::King, Color::Black)));
    assert_eq!(chess.tiles[4], Some(Piece::new(ChessPiece::King, Color::Black)));
    assert_eq!(chess.tiles[60], Some(Piece::new(ChessPiece::King, Color::White)));
    assert_eq!(chess.tiles.iter().filter(|x| x.is_some()).count(), 3);
    let max = format!("8/8/8/8/8/8/8/8 w qkQK - {} 007", usize::MAX);
    let chess = Chess::load_fen(&max).unwrap();
    assert_eq!(chess.half_moves(), usize::MAX);
    assert_eq!(chess.full_moves(), 7);
    assert_eq!(chess.castle_rights, [true; 4]);
}

#[test]
fn board_is_indexed_by_squares() {
    let mut chess = Chess::new();
    assert_eq!(chess[t("e1")], Some(Piece::new(ChessPiece::King, Color::White)));
    assert_eq!(chess[t("e4")], None);
    assert_eq!(chess[t("a8")], chess.tiles[0]);
    assert_eq!(chess[t("h1")], chess.tiles[63]);
    let queen = Piece::new(ChessPiece::Queen, Color::Black);
    chess[t("e4")] = Some(queen);
    assert_eq!(*chess.peek(t("e4")), Some(queen));
    assert_eq!(chess.tiles[36], Some(queen));
    chess[t("e1")] = None;
    assert_eq!(*chess.peek(t("e1")), None);
    assert_eq!(chess.tiles.iter().filter(|x| x.is_some()).count(), 32);
}

#[test]
fn diff_applied_to_the_old_board_gives_the_new_one() {
    let mut chess = Chess::load_fen("r3k2r/8/8/8/4Pp2/8/8/R3K2R b KQkq e3 0 1").unwrap();
    for text in ["f4e3", "e1g1", "e8c8", "g1h1", "e3e2", "f1f8", "c8c7", "f8d8"] {
        let before = chess.clone();
        let diff = chess.make_move(mv(text));
        assert!(!diff.is_empty(), "{}", text);
        let mut replay = before.clone();
        for (tile, occupant) in &diff {
            replay[*tile] = *occupant;
        }
        assert_eq!(replay.tiles, chess.tiles, "{}", text);
        assert_eq!(chess.active_player(), !before.active_player());
        assert_eq!(chess.half_moves(), before.half_moves());
        assert_eq!(chess.full_moves(), before.full_moves());
    }
    assert_eq!(*chess.peek(t("e4")), None);
    assert_eq!(
        *chess.peek(t("e2")),
        Some(Piece { typ: ChessPiece::Pawn, color: Color::Black, move_count: 2 })
    );
}
