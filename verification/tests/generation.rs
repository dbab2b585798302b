use variant_chess::board::{Board, Coords, PieceModel, Side, Space};
use variant_chess::defaults::{get_pieces_string, get_promotions_string};
use variant_chess::logic::{get_next_board, Move, MoveKind};
use variant_chess::movegen::{compute_possible_moves, is_in_check_after_move};

fn default_board() -> Board {
    Board::from_strings(&get_pieces_string(), &get_promotions_string()).unwrap()
}

fn moves_from(b: &Board, x: isize, y: isize, filter_checks: bool) -> Vec<Move> {
    let pm = compute_possible_moves(b, filter_checks);
    match pm.get(Coords { x, y }) {
        Some(ms) => ms.clone(),
        None => Vec::new(),
    }
}

fn pick(ms: &[Move], tx: isize, ty: isize, kind: MoveKind) -> Move {
    *ms.iter()
        .find(|m| m.target.x == tx && m.target.y == ty && m.kind == kind)
        .expect("expected move missing")
}

#[test]
fn every_legal_move_applies_and_passes_the_turn() {
    let b = default_board();
    let pm = compute_possible_moves(&b, true);
    let mut total = 0;
    for (_, ms) in pm.0.iter() {
        for m in ms.iter() {
            let n = get_next_board(&b, m).unwrap();
            assert_eq!(n.side, Side::Black);
            total += 1;
        }
    }
    // Eight pawns with step and dash, four king moves including both
    // castles, three moves for one rook and two for the other.
    assert_eq!(total, 25);
}

#[test]
fn dash_sets_just_dashed_and_any_later_move_clears_it() {
    let b = default_board();
    // White pawn e2 dashes to e4.
    let ms = moves_from(&b, 4, 1, true);
    let dash = pick(&ms, 4, 3, MoveKind::Dash);
    let b1 = get_next_board(&b, &dash).unwrap();
    match b1.space(Coords { x: 4, y: 3 }) {
        Some(Space::Square { slot: Some(p), .. }) => {
            assert_eq!(p.model, PieceModel::Pawn { can_dash: false, just_dashed: true });
        }
        other => panic!("expected the dashed pawn, got {:?}", other),
    }
    // Black passes; the pawn advances one step, clearing the marker.
    let b2 = get_next_board(&b1, &Move::skip()).unwrap();
    let ms2 = moves_from(&b2, 4, 3, true);
    let step = pick(&ms2, 4, 4, MoveKind::Standard);
    let b3 = get_next_board(&b2, &step).unwrap();
    match b3.space(Coords { x: 4, y: 4 }) {
        Some(Space::Square { slot: Some(p), .. }) => {
            assert_eq!(p.model, PieceModel::Pawn { can_dash: false, just_dashed: false });
        }
        other => panic!("expected the advanced pawn, got {:?}", other),
    }
}

#[test]
fn king_without_castling_right_gets_no_castle_move() {
    // A bare back rank: both castles are offered at first.
    let b = Board::from_strings("________\nR___K__R", "________\n________").unwrap();
    let initial = moves_from(&b, 4, 0, true);
    assert!(initial.iter().any(|m| matches!(m.kind, MoveKind::Castle { .. })));
    // Castle queenside — that clears the king's right — then walk the king
    // back to its home square. The kingside rook never moves.
    let b1 = get_next_board(
        &b,
        &pick(&initial, 2, 0, MoveKind::Castle { rook_coords: Coords { x: 0, y: 0 } }),
    )
    .unwrap();
    let b2 = get_next_board(&b1, &Move::skip()).unwrap();
    let b3 = get_next_board(&b2, &pick(&moves_from(&b2, 2, 0, true), 3, 1, MoveKind::Standard))
        .unwrap();
    let b4 = get_next_board(&b3, &Move::skip()).unwrap();
    let b5 = get_next_board(&b4, &pick(&moves_from(&b4, 3, 1, true), 4, 0, MoveKind::Standard))
        .unwrap();
    let b6 = get_next_board(&b5, &Move::skip()).unwrap();
    // The king stands on its home square with a clear, safe path to a rook
    // that could still castle — yet no castle move is offered.
    match b6.space(Coords { x: 4, y: 0 }) {
        Some(Space::Square { slot: Some(p), .. }) => {
            assert_eq!(p.model, PieceModel::King { can_castle: false });
        }
        other => panic!("expected the king back home, got {:?}", other),
    }
    match b6.space(Coords { x: 7, y: 0 }) {
        Some(Space::Square { slot: Some(p), .. }) => {
            assert_eq!(p.model, PieceModel::Rook { can_castle: true });
        }
        other => panic!("expected the untouched rook, got {:?}", other),
    }
    let ms6 = moves_from(&b6, 4, 0, true);
    assert!(!ms6.is_empty());
    assert!(ms6.iter().all(|m| !matches!(m.kind, MoveKind::Castle { .. })));
}

#[test]
fn castle_is_offered_over_a_clear_safe_path() {
    let b = default_board();
    let ms = moves_from(&b, 4, 0, true);
    let kingside = pick(&ms, 6, 0, MoveKind::Castle { rook_coords: Coords { x: 7, y: 0 } });
    assert_eq!(kingside.source, Coords { x: 4, y: 0 });
    let queenside = pick(&ms, 2, 0, MoveKind::Castle { rook_coords: Coords { x: 0, y: 0 } });
    assert_eq!(queenside.source, Coords { x: 4, y: 0 });
}

#[test]
fn en_passant_is_offered_right_after_a_dash_and_captures() {
    // A white pawn on e2, a black pawn on f4.
    let pieces = "________\n________\n________\n________\n_____p__\n________\n____P___\n________";
    let promos = "________\n________\n________\n________\n________\n________\n________\n________";
    let b = Board::from_strings(pieces, promos).unwrap();
    let ms = moves_from(&b, 4, 1, true);
    let dash = pick(&ms, 4, 3, MoveKind::Dash);
    let b1 = get_next_board(&b, &dash).unwrap();
    // Black's pawn on f4 may now capture en passant onto e3.
    let ms1 = moves_from(&b1, 5, 3, true);
    let ep = pick(&ms1, 4, 2, MoveKind::EnPassant);
    let b2 = get_next_board(&b1, &ep).unwrap();
    assert_eq!(b2.captured.len(), 1);
    assert_eq!(b2.captured[0].side, Side::White);
    assert!(matches!(
        b2.space(Coords { x: 4, y: 3 }),
        Some(Space::Square { slot: None, .. })
    ));
    match b2.space(Coords { x: 4, y: 2 }) {
        Some(Space::Square { slot: Some(p), .. }) => assert_eq!(p.side, Side::Black),
        other => panic!("expected the capturing pawn on e3, got {:?}", other),
    }
}

#[test]
fn en_passant_needs_the_just_dashed_marker() {
    // The same position as after the dash, but built directly from a layout:
    // the white pawn on e4 never dashed, so no en passant is offered.
    let pieces = "________\n________\n________\n________\n____Pp__\n________\n________\n________";
    let promos = "________\n________\n________\n________\n________\n________\n________\n________";
    let b = Board::from_strings(pieces, promos).unwrap();
    // Pass the turn to Black.
    let b1 = get_next_board(&b, &Move::skip()).unwrap();
    let ms = moves_from(&b1, 5, 3, true);
    assert!(ms.iter().all(|m| m.kind != MoveKind::EnPassant));
}

#[test]
fn en_passant_stays_available_while_the_marker_stands() {
    // The just-dashed marker clears only when the dashed pawn itself moves
    // again, so the capture remains on offer after unrelated moves by both
    // sides.
    let pieces = "_______r\n________\n________\n________\n_____p__\n________\n____P___\nR_______";
    let promos = "________\n________\n________\n________\n________\n________\n________\n________";
    let b = Board::from_strings(pieces, promos).unwrap();
    let b1 = get_next_board(&b, &pick(&moves_from(&b, 4, 1, true), 4, 3, MoveKind::Dash)).unwrap();
    // Black and White each make an unrelated rook move.
    let b2 = get_next_board(&b1, &pick(&moves_from(&b1, 7, 7, true), 7, 6, MoveKind::Standard))
        .unwrap();
    let b3 = get_next_board(&b2, &pick(&moves_from(&b2, 0, 0, true), 0, 1, MoveKind::Standard))
        .unwrap();
    let ms = moves_from(&b3, 5, 3, true);
    assert!(ms
        .iter()
        .any(|m| m.kind == MoveKind::EnPassant && m.target == Coords { x: 4, y: 2 }));
}

#[test]
fn promotion_offers_exactly_four_variants() {
    // A white pawn one step below a White promotion zone.
    let pieces = "________\nP_______\n________\n________\n________\n________\n________\n________";
    let promos = "WWWWWWWW\n________\n________\n________\n________\n________\n________\n________";
    let b = Board::from_strings(pieces, promos).unwrap();
    let ms = moves_from(&b, 0, 6, true);
    assert_eq!(ms.len(), 4);
    let kinds: Vec<Option<PieceModel>> = ms.iter().map(|m| m.promotion).collect();
    assert_eq!(
        kinds,
        vec![
            Some(PieceModel::Queen),
            Some(PieceModel::Bishop),
            Some(PieceModel::Knight),
            Some(PieceModel::Rook { can_castle: false }),
        ]
    );
    for m in ms.iter() {
        assert_eq!(m.source, Coords { x: 0, y: 6 });
        assert_eq!(m.target, Coords { x: 0, y: 7 });
        assert_eq!(m.kind, MoveKind::Standard);
    }
    // Applying the knight promotion puts a knight on the board.
    let n = get_next_board(&b, &ms[2]).unwrap();
    match n.space(Coords { x: 0, y: 7 }) {
        Some(Space::Square { slot: Some(p), .. }) => {
            assert!(matches!(p.model, PieceModel::Knight))
        }
        other => panic!("expected the promoted knight, got {:?}", other),
    }
}

#[test]
fn check_filtering_empties_a_trapped_kings_moves() {
    // The white king in the corner, boxed in by its own pawns, attacked by a
    // rook along the bottom rank.
    let b = Board::from_strings("PP__\nK__r", "____\n____").unwrap();
    let legal = moves_from(&b, 0, 0, true);
    assert!(legal.is_empty());
    let pseudo = moves_from(&b, 0, 0, false);
    assert!(!pseudo.is_empty());
}

#[test]
fn pieces_do_not_move_through_holes() {
    let b = Board::from_strings("R_X_", "____").unwrap();
    let ms = moves_from(&b, 0, 0, true);
    // Only the single square before the hole.
    assert_eq!(ms.len(), 1);
    assert_eq!(ms[0].target, Coords { x: 1, y: 0 });
    assert_eq!(ms[0].kind, MoveKind::Standard);
}

#[test]
fn unfiltered_generation_keeps_self_exposing_moves() {
    // A white rook shields its king from a black rook; moving it away would
    // expose the king, so filtering removes its vertical retreat.
    let b = Board::from_strings("____\nKR_r", "____\n____").unwrap();
    let pseudo = moves_from(&b, 1, 0, false);
    assert!(pseudo.iter().any(|m| m.target == Coords { x: 1, y: 1 }));
    let legal = moves_from(&b, 1, 0, true);
    assert!(legal.iter().all(|m| m.target != Coords { x: 1, y: 1 }));
    // Capturing the attacker stays legal.
    assert!(legal
        .iter()
        .any(|m| m.target == Coords { x: 3, y: 0 } && m.kind == MoveKind::Capture));
}

#[test]
fn check_oracle_sees_an_attacked_king() {
    // Passing the turn from a checked position leaves the king capturable;
    // from the opening position it does not.
    let checked = Board::from_strings("PP__\nK__r", "____\n____").unwrap();
    assert!(is_in_check_after_move(&checked, &Move::skip()));
    let b = default_board();
    assert!(!is_in_check_after_move(&b, &Move::skip()));
    // Walking the king into the rook's rank is unsafe; stepping up with a
    // pawn to block is not possible here, but the rook may shield instead.
    let shield = Board::from_strings("_R__\nK__r", "____\n____").unwrap();
    let down = Move {
        source: Coords { x: 1, y: 1 },
        target: Coords { x: 1, y: 0 },
        kind: MoveKind::Standard,
        promotion: None,
    };
    assert!(!is_in_check_after_move(&shield, &down));
}

#[test]
fn generation_lists_only_the_side_to_move() {
    let b = default_board();
    let pm = compute_possible_moves(&b, true);
    assert_eq!(pm.0.len(), 11);
    for (c, _) in pm.0.iter() {
        match b.space(*c) {
            Some(Space::Square { slot: Some(p), .. }) => assert_eq!(p.side, Side::White),
            other => panic!("expected a white piece, got {:?}", other),
        }
    }
    assert!(pm.get(Coords { x: 4, y: 7 }).is_none());
    assert!(pm.get(Coords { x: 4, y: 4 }).is_none());
}
