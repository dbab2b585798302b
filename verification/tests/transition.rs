use variant_chess::board::{Board, Coords, PieceModel, Side, Space};
use variant_chess::defaults::{get_pieces_string, get_promotions_string};
use variant_chess::logic::{get_next_board, IllegalTransition, Move, MoveKind};

fn err_of(r: Result<Board, IllegalTransition>) -> IllegalTransition {
    match r {
        Ok(_) => panic!("expected a transition error"),
        Err(e) => e,
    }
}

fn default_board() -> Board {
    Board::from_strings(&get_pieces_string(), &get_promotions_string()).unwrap()
}

fn standard(sx: isize, sy: isize, tx: isize, ty: isize) -> Move {
    Move {
        source: Coords { x: sx, y: sy },
        target: Coords { x: tx, y: ty },
        kind: MoveKind::Standard,
        promotion: None,
    }
}

#[test]
fn skip_only_passes_the_turn() {
    let b = default_board();
    let n = get_next_board(&b, &Move::skip()).unwrap();
    assert_eq!(n.side, Side::Black);
    assert_eq!(n.captured.len(), 0);
    // Every space is untouched.
    for x in 0..8 {
        for y in 0..8 {
            let c = Coords { x, y };
            assert_eq!(b.space(c), n.space(c));
        }
    }
}

#[test]
fn standard_move_relocates_the_piece() {
    let b = Board::from_strings("___\n___\nN__", "___\n___\n___").unwrap();
    // The knight jumps two up and one right.
    let n = get_next_board(
        &b,
        &Move {
            source: Coords { x: 0, y: 0 },
            target: Coords { x: 1, y: 2 },
            kind: MoveKind::Standard,
            promotion: None,
        },
    )
    .unwrap();
    assert!(matches!(
        n.space(Coords { x: 0, y: 0 }),
        Some(Space::Square { slot: None, .. })
    ));
    match n.space(Coords { x: 1, y: 2 }) {
        Some(Space::Square { slot: Some(p), .. }) => {
            assert_eq!(p.side, Side::White);
            assert!(matches!(p.model, PieceModel::Knight));
        }
        other => panic!("expected the knight, got {:?}", other),
    }
    assert_eq!(n.side, Side::Black);
}

#[test]
fn capture_records_the_victim() {
    // A rook next to an enemy pawn.
    let b = Board::from_strings("Rp", "__").unwrap();
    let n = get_next_board(
        &b,
        &Move {
            source: Coords { x: 0, y: 0 },
            target: Coords { x: 1, y: 0 },
            kind: MoveKind::Capture,
            promotion: None,
        },
    )
    .unwrap();
    assert_eq!(n.captured.len(), 1);
    assert_eq!(n.captured[0].side, Side::Black);
    assert!(matches!(n.captured[0].model, PieceModel::Pawn { .. }));
    match n.space(Coords { x: 1, y: 0 }) {
        Some(Space::Square { slot: Some(p), .. }) => {
            assert!(matches!(p.model, PieceModel::Rook { .. }))
        }
        other => panic!("expected the rook, got {:?}", other),
    }
}

#[test]
fn castle_relocates_king_and_rook() {
    let b = default_board();
    let n = get_next_board(
        &b,
        &Move {
            source: Coords { x: 4, y: 0 },
            target: Coords { x: 6, y: 0 },
            kind: MoveKind::Castle { rook_coords: Coords { x: 7, y: 0 } },
            promotion: None,
        },
    )
    .unwrap();
    match n.space(Coords { x: 6, y: 0 }) {
        Some(Space::Square { slot: Some(p), .. }) => {
            assert!(matches!(p.model, PieceModel::King { can_castle: false }));
        }
        other => panic!("expected the king on g1, got {:?}", other),
    }
    match n.space(Coords { x: 5, y: 0 }) {
        Some(Space::Square { slot: Some(p), .. }) => {
            assert!(matches!(p.model, PieceModel::Rook { can_castle: false }));
        }
        other => panic!("expected the rook on f1, got {:?}", other),
    }
    assert!(matches!(
        n.space(Coords { x: 7, y: 0 }),
        Some(Space::Square { slot: None, .. })
    ));
    assert!(matches!(
        n.space(Coords { x: 4, y: 0 }),
        Some(Space::Square { slot: None, .. })
    ));
}

#[test]
fn source_off_the_board_is_rejected() {
    let b = default_board();
    let r = get_next_board(&b, &standard(100, 100, 0, 0));
    assert_eq!(err_of(r), IllegalTransition::SourceNotSquare);
}

#[test]
fn empty_source_is_rejected() {
    let b = default_board();
    let r = get_next_board(&b, &standard(4, 4, 4, 5));
    assert_eq!(err_of(r), IllegalTransition::SourceEmpty);
}

#[test]
fn capture_of_nothing_is_rejected() {
    let b = default_board();
    let r = get_next_board(
        &b,
        &Move {
            source: Coords { x: 4, y: 1 },
            target: Coords { x: 4, y: 2 },
            kind: MoveKind::Capture,
            promotion: None,
        },
    );
    assert_eq!(err_of(r), IllegalTransition::CaptureTargetEmpty);
}

#[test]
fn dash_by_a_non_pawn_is_rejected() {
    let b = default_board();
    let r = get_next_board(
        &b,
        &Move {
            source: Coords { x: 4, y: 0 },
            target: Coords { x: 4, y: 2 },
            kind: MoveKind::Dash,
            promotion: None,
        },
    );
    assert_eq!(err_of(r), IllegalTransition::DashSourceNotPawn);
}

#[test]
fn en_passant_without_a_victim_is_rejected() {
    let b = default_board();
    let r = get_next_board(
        &b,
        &Move {
            source: Coords { x: 4, y: 1 },
            target: Coords { x: 4, y: 2 },
            kind: MoveKind::EnPassant,
            promotion: None,
        },
    );
    assert_eq!(err_of(r), IllegalTransition::EnPassantTargetInvalid);
}

#[test]
fn castle_without_a_rook_is_rejected() {
    let b = default_board();
    let r = get_next_board(
        &b,
        &Move {
            source: Coords { x: 4, y: 0 },
            target: Coords { x: 6, y: 0 },
            kind: MoveKind::Castle { rook_coords: Coords { x: 3, y: 3 } },
            promotion: None,
        },
    );
    assert_eq!(err_of(r), IllegalTransition::CastleRookMissing);
}

#[test]
fn castle_by_a_non_king_is_rejected() {
    let b = default_board();
    let r = get_next_board(
        &b,
        &Move {
            source: Coords { x: 4, y: 1 },
            target: Coords { x: 6, y: 1 },
            kind: MoveKind::Castle { rook_coords: Coords { x: 7, y: 0 } },
            promotion: None,
        },
    );
    assert_eq!(err_of(r), IllegalTransition::CastleSourceNotKing);
}

#[test]
fn castle_rook_landing_on_a_hole_is_rejected() {
    let b = Board::from_strings("KX_R", "____").unwrap();
    let r = get_next_board(
        &b,
        &Move {
            source: Coords { x: 0, y: 0 },
            target: Coords { x: 2, y: 0 },
            kind: MoveKind::Castle { rook_coords: Coords { x: 3, y: 0 } },
            promotion: None,
        },
    );
    assert_eq!(err_of(r), IllegalTransition::CastleRookTargetNotSquare);
}

#[test]
fn target_off_the_board_is_rejected() {
    let b = default_board();
    let r = get_next_board(&b, &standard(4, 1, 9, 9));
    assert_eq!(err_of(r), IllegalTransition::TargetNotSquare);
}

#[test]
fn promotion_substitutes_the_chosen_kind() {
    let b = Board::from_strings("__\nP_", "W_\n__").unwrap();
    // Pawn on (0, 0) advances to (0, 1), which promotes White.
    let n = get_next_board(
        &b,
        &Move {
            source: Coords { x: 0, y: 0 },
            target: Coords { x: 0, y: 1 },
            kind: MoveKind::Standard,
            promotion: Some(PieceModel::Queen),
        },
    )
    .unwrap();
    match n.space(Coords { x: 0, y: 1 }) {
        Some(Space::Square { slot: Some(p), .. }) => {
            assert_eq!(p.side, Side::White);
            assert!(matches!(p.model, PieceModel::Queen));
        }
        other => panic!("expected the promoted queen, got {:?}", other),
    }
}
