use variant_chess::board::{Board, Coords, Piece, PieceModel, Side, Space};
use variant_chess::defaults::{get_bottom_side, get_pieces_string, get_promotions_string};

fn err_of(r: Result<Board, &'static str>) -> &'static str {
    match r {
        Ok(_) => panic!("expected a construction error"),
        Err(m) => m,
    }
}

fn default_board() -> Board {
    Board::from_strings(&get_pieces_string(), &get_promotions_string()).unwrap()
}

#[test]
fn default_layout_has_eight_by_eight_shape() {
    let b = default_board();
    assert_eq!(b.width, 8);
    assert_eq!(b.height, 8);
    assert_eq!(b.side, Side::White);
    assert_eq!(b.captured.len(), 0);
}

#[test]
fn default_layout_places_white_king_at_e1() {
    let b = default_board();
    match b.space(Coords { x: 4, y: 0 }) {
        Some(Space::Square { slot: Some(p), .. }) => {
            assert_eq!(p.side, Side::White);
            assert!(matches!(p.model, PieceModel::King { can_castle: true }));
        }
        other => panic!("expected a white king, got {:?}", other),
    }
}

#[test]
fn default_layout_places_black_rook_in_corner() {
    let b = default_board();
    match b.space(Coords { x: 0, y: 7 }) {
        Some(Space::Square { slot: Some(p), .. }) => {
            assert_eq!(p.side, Side::Black);
            assert!(matches!(p.model, PieceModel::Rook { can_castle: true }));
        }
        other => panic!("expected a black rook, got {:?}", other),
    }
}

#[test]
fn rows_are_read_bottom_to_top_with_trimming() {
    // Blank rows and surrounding whitespace disappear; the last text row
    // becomes row zero.
    let a = Board::from_strings("  K \n\n  r  \n", "  _ \n\n  _  \n").unwrap();
    let b = Board::from_strings("K\nr", "_\n_").unwrap();
    assert!(a.equals(&b));
    match a.space(Coords { x: 0, y: 0 }) {
        Some(Space::Square { slot: Some(p), .. }) => {
            assert_eq!(p.side, Side::Black);
            assert!(matches!(p.model, PieceModel::Rook { .. }));
        }
        other => panic!("expected the black rook on row zero, got {:?}", other),
    }
}

#[test]
fn construction_is_deterministic() {
    let a = default_board();
    let b = default_board();
    assert!(a.equals(&b));
}

#[test]
fn promotion_markers_decode_per_side() {
    let b = Board::from_strings("___\n___", "Wb*\npB_").unwrap();
    // Row 0 is the second text line: p, B, _ — then row 1 is W, b, *.
    match b.space(Coords { x: 0, y: 1 }) {
        Some(Space::Square { promotes_white, promotes_black, .. }) => {
            assert!(promotes_white && !promotes_black);
        }
        other => panic!("expected a square, got {:?}", other),
    }
    match b.space(Coords { x: 1, y: 1 }) {
        Some(Space::Square { promotes_white, promotes_black, .. }) => {
            assert!(!promotes_white && promotes_black);
        }
        other => panic!("expected a square, got {:?}", other),
    }
    match b.space(Coords { x: 2, y: 1 }) {
        Some(Space::Square { promotes_white, promotes_black, .. }) => {
            assert!(promotes_white && promotes_black);
        }
        other => panic!("expected a square, got {:?}", other),
    }
    match b.space(Coords { x: 0, y: 0 }) {
        Some(Space::Square { promotes_white, promotes_black, .. }) => {
            assert!(!promotes_white && promotes_black);
        }
        other => panic!("expected a square, got {:?}", other),
    }
}

#[test]
fn hole_marker_decodes_to_hole() {
    let b = Board::from_strings("X_", "__").unwrap();
    assert!(matches!(b.space(Coords { x: 0, y: 0 }), Some(Space::Hole)));
    assert!(matches!(
        b.space(Coords { x: 1, y: 0 }),
        Some(Space::Square { slot: None, .. })
    ));
    assert_eq!(b.space(Coords { x: 2, y: 0 }), None);
    assert_eq!(b.space(Coords { x: -1, y: 0 }), None);
}

#[test]
fn non_ascii_layouts_are_rejected() {
    let r = Board::from_strings("é", "_");
    assert_eq!(err_of(r), "Non-ASCII characters in board strings");
}

#[test]
fn differing_row_counts_are_rejected() {
    let r = Board::from_strings("K\nQ", "K");
    assert_eq!(err_of(r), "Board strings have different row counts");
}

#[test]
fn empty_layouts_are_rejected() {
    let r = Board::from_strings("", "");
    assert_eq!(err_of(r), "Board strings are empty");
    let r2 = Board::from_strings("  \n  ", " \n\n ");
    assert_eq!(err_of(r2), "Board strings are empty");
}

#[test]
fn inconsistent_row_widths_are_rejected() {
    let r = Board::from_strings("KQ\nK", "KQ\nK_");
    assert_eq!(err_of(r), "Inconsistent row sizes across board strings");
    let r2 = Board::from_strings("KQ", "KQ_");
    assert_eq!(err_of(r2), "Inconsistent row sizes across board strings");
}

#[test]
fn texture_indices_enumerate_white_then_black() {
    let wk = Piece { side: Side::White, model: PieceModel::King { can_castle: true } };
    let wq = Piece { side: Side::White, model: PieceModel::Queen };
    let wp = Piece {
        side: Side::White,
        model: PieceModel::Pawn { can_dash: true, just_dashed: false },
    };
    let bk = Piece { side: Side::Black, model: PieceModel::King { can_castle: false } };
    let bp = Piece {
        side: Side::Black,
        model: PieceModel::Pawn { can_dash: false, just_dashed: true },
    };
    assert_eq!(wk.texture_index(), 0);
    assert_eq!(wq.texture_index(), 1);
    assert_eq!(wp.texture_index(), 5);
    assert_eq!(bk.texture_index(), 6);
    assert_eq!(bp.texture_index(), 11);
}

#[test]
fn side_other_swaps() {
    assert_eq!(Side::White.other(), Side::Black);
    assert_eq!(Side::Black.other(), Side::White);
}

#[test]
fn bottom_side_defaults_to_white() {
    assert_eq!(get_bottom_side(), "white");
}
