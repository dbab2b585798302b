//! The move model and the transition function: applying a move to a board
//! yields the next board, or an `IllegalTransition` error when the move does
//! not fit the board it is applied to.

use vstd::prelude::*;

use crate::board::Board;
use crate::board::BoardView;
use crate::board::Coords;
use crate::board::Piece;
use crate::board::PieceModel;
use crate::board::Space;
use crate::grid::grid_clone;

verus! {

/// How a move acts on the board, beyond relocating the moved piece.
#[derive(Clone, Copy, PartialEq, Eq, Structural, Debug)]
pub enum MoveKind {
    /// Plain relocation to an empty square.
    Standard,
    /// A pawn's initial two-square advance.
    Dash,
    /// Relocation onto an enemy-occupied square; the occupant is captured.
    Capture,
    /// The king moves two squares towards a rook, which jumps to the square
    /// the king passed over. Carries the rook's starting coordinates.
    Castle { rook_coords: Coords },
    /// A pawn captures a just-dashed enemy pawn by moving diagonally behind
    /// it.
    EnPassant,
    /// No move at all: only the turn passes. Used to bootstrap a game.
    Skip,
}

/// A move descriptor: where from, where to, how, and — when the target square
/// forces promotion — which piece kind the pawn becomes.
#[derive(Clone, Copy, PartialEq, Eq, Structural, Debug)]
pub struct Move {
    pub source: Coords,
    pub target: Coords,
    pub kind: MoveKind,
    pub promotion: Option<PieceModel>,
}

/// `MoveKind` with mathematical-integer coordinates.
pub enum MoveKindView {
    Standard,
    Dash,
    Capture,
    Castle { rook: (int, int) },
    EnPassant,
    Skip,
}

/// `Move` with mathematical-integer coordinates.
pub struct MoveView {
    pub source: (int, int),
    pub target: (int, int),
    pub kind: MoveKindView,
    pub promotion: Option<PieceModel>,
}

impl View for MoveKind {
    type V = MoveKindView;

    open spec fn view(&self) -> MoveKindView {
        match *self {
            MoveKind::Standard => MoveKindView::Standard,
            MoveKind::Dash => MoveKindView::Dash,
            MoveKind::Capture => MoveKindView::Capture,
            MoveKind::Castle { rook_coords } => MoveKindView::Castle { rook: rook_coords@ },
            MoveKind::EnPassant => MoveKindView::EnPassant,
            MoveKind::Skip => MoveKindView::Skip,
        }
    }
}

impl View for Move {
    type V = MoveView;

    open spec fn view(&self) -> MoveView {
        MoveView {
            source: self.source@,
            target: self.target@,
            kind: self.kind@,
            promotion: self.promotion,
        }
    }
}

/// The move that passes the turn without touching any piece.
pub open spec fn skip_move() -> MoveView {
    MoveView {
        source: (0, 0),
        target: (0, 0),
        kind: MoveKindView::Skip,
        promotion: None,
    }
}

impl Move {
    /// The move that passes the turn without touching any piece.
    pub fn skip() -> (r: Move)
        ensures
            r@ == skip_move(),
    {
        Move {
            source: Coords { x: 0, y: 0 },
            target: Coords { x: 0, y: 0 },
            kind: MoveKind::Skip,
            promotion: None,
        }
    }
}

/// Why applying a move to a board failed. Every variant marks a caller error:
/// the move was not drawn from the board's own legal-move set (nor the `Skip`
/// sentinel).
#[derive(Clone, Copy, PartialEq, Eq, Structural, Debug)]
pub enum IllegalTransition {
    /// The source coordinates name a hole or lie off the board.
    SourceNotSquare,
    /// The source square holds no piece.
    SourceEmpty,
    /// A `Capture` move's target square holds no piece to capture.
    CaptureTargetEmpty,
    /// A `Dash` move's piece is not a pawn.
    DashSourceNotPawn,
    /// An `EnPassant` move's side-stepped square is not an occupiable square
    /// or holds no piece.
    EnPassantTargetInvalid,
    /// A `Castle` move's rook-source square holds no rook.
    CastleRookMissing,
    /// The square the castling rook would land on is not an occupiable
    /// square.
    CastleRookTargetNotSquare,
    /// A `Castle` move's piece is not a king.
    CastleSourceNotKing,
    /// The target coordinates name a hole or lie off the board.
    TargetNotSquare,
}

/// A piece as it leaves its source square: any move a pawn makes ends both
/// its double-step eligibility and its just-dashed marker.
pub open spec fn moved_piece(p: Piece) -> Piece {
    match p.model {
        PieceModel::Pawn { .. } => Piece {
            side: p.side,
            model: PieceModel::Pawn { can_dash: false, just_dashed: false },
        },
        _ => p,
    }
}

/// Where the castling rook lands: next to the king's destination, on the side
/// the king came from.
pub open spec fn castle_rook_target(m: MoveView) -> (int, int) {
    let dx: int = if m.target.0 > m.source.0 {
        1
    } else {
        -1
    };
    (m.target.0 - dx, m.target.1)
}

/// What a board looks like after a move: the turn passes to the other side,
/// the moved piece leaves its source square and lands on the target square
/// (as the chosen promotion piece when the move carries one), and the move
/// kind's side effects take place — a captured piece joins the capture list,
/// a dashed pawn is marked just-dashed, an en-passant victim leaves its
/// square, a castling rook jumps next to the king. A move that does not fit
/// the board yields the error that names the first mismatch found.
pub open spec fn apply_move_spec(v: BoardView, m: MoveView) -> Result<
    BoardView,
    IllegalTransition,
> {
    let flipped = BoardView { side: v.side.spec_other(), ..v };
    if m.kind is Skip {
        Ok(flipped)
    } else {
        match v.space_at(m.source) {
            Some(Space::Square { slot: Some(p0), promotes_white, promotes_black }) => {
                let p = moved_piece(p0);
                let v1 = BoardView {
                    grid: flipped.grid.insert(
                        m.source,
                        Space::Square { slot: None, promotes_white, promotes_black },
                    ),
                    ..flipped
                };
                match apply_side_effects(v1, m, p) {
                    Ok((v2, placed)) => {
                        let final_piece = match m.promotion {
                            Some(model) => Piece { side: placed.side, model },
                            None => placed,
                        };
                        match v2.space_at(m.target) {
                            Some(
                                Space::Square { slot: _, promotes_white, promotes_black },
                            ) => Ok(
                                BoardView {
                                    grid: v2.grid.insert(
                                        m.target,
                                        Space::Square {
                                            slot: Some(final_piece),
                                            promotes_white,
                                            promotes_black,
                                        },
                                    ),
                                    ..v2
                                },
                            ),
                            _ => Err(IllegalTransition::TargetNotSquare),
                        }
                    },
                    Err(e) => Err(e),
                }
            },
            Some(Space::Square { slot: None, .. }) => Err(IllegalTransition::SourceEmpty),
            _ => Err(IllegalTransition::SourceNotSquare),
        }
    }
}

/// The side effects a move kind has between lifting the piece off its source
/// square and setting it down on the target: what the board becomes and which
/// piece is set down.
pub open spec fn apply_side_effects(v1: BoardView, m: MoveView, p: Piece) -> Result<
    (BoardView, Piece),
    IllegalTransition,
> {
    match m.kind {
        MoveKindView::Capture => match v1.space_at(m.target) {
            Some(Space::Square { slot: Some(q), .. }) => Ok(
                (BoardView { captured: v1.captured.push(q), ..v1 }, p),
            ),
            _ => Err(IllegalTransition::CaptureTargetEmpty),
        },
        MoveKindView::Dash => match p.model {
            PieceModel::Pawn { .. } => Ok(
                (
                    v1,
                    Piece {
                        side: p.side,
                        model: PieceModel::Pawn { can_dash: false, just_dashed: true },
                    },
                ),
            ),
            _ => Err(IllegalTransition::DashSourceNotPawn),
        },
        MoveKindView::EnPassant => {
            let cap = (m.target.0, m.source.1);
            match v1.space_at(cap) {
                Some(Space::Square { slot: Some(q), promotes_white, promotes_black }) => Ok(
                    (
                        BoardView {
                            grid: v1.grid.insert(
                                cap,
                                Space::Square { slot: None, promotes_white, promotes_black },
                            ),
                            captured: v1.captured.push(q),
                            ..v1
                        },
                        p,
                    ),
                ),
                _ => Err(IllegalTransition::EnPassantTargetInvalid),
            }
        },
        MoveKindView::Castle { rook } => match v1.space_at(rook) {
            Some(
                Space::Square { slot: Some(r), promotes_white, promotes_black },
            ) => if r.model is Rook {
                let v2 = BoardView {
                    grid: v1.grid.insert(
                        rook,
                        Space::Square { slot: None, promotes_white, promotes_black },
                    ),
                    ..v1
                };
                let rt = castle_rook_target(m);
                match v2.space_at(rt) {
                    Some(Space::Square { slot: _, promotes_white, promotes_black }) => {
                        let v3 = BoardView {
                            grid: v2.grid.insert(
                                rt,
                                Space::Square {
                                    slot: Some(
                                        Piece {
                                            side: r.side,
                                            model: PieceModel::Rook { can_castle: false },
                                        },
                                    ),
                                    promotes_white,
                                    promotes_black,
                                },
                            ),
                            ..v2
                        };
                        match p.model {
                            PieceModel::King { .. } => Ok(
                                (
                                    v3,
                                    Piece {
                                        side: p.side,
                                        model: PieceModel::King { can_castle: false },
                                    },
                                ),
                            ),
                            _ => Err(IllegalTransition::CastleSourceNotKing),
                        }
                    },
                    _ => Err(IllegalTransition::CastleRookTargetNotSquare),
                }
            } else {
                Err(IllegalTransition::CastleRookMissing)
            },
            _ => Err(IllegalTransition::CastleRookMissing),
        },
        _ => Ok((v1, p)),
    }
}

/// Copy a capture list.
fn copy_pieces(v: &Vec<Piece>) -> (r: Vec<Piece>)
    ensures
        r@ == v@,
{
    let mut r: Vec<Piece> = Vec::new();
    let mut i: usize = 0;
    while i < v.len()
        invariant
            0 <= i <= v.len(),
            r@ == v@.subrange(0, i as int),
        decreases v.len() - i,
    {
        r.push(v[i]);
        i = i + 1;
    }
    proof {
        assert(r@ =~= v@);
    }
    r
}

/// Returns a new board with a move applied: the turn passes to the other
/// side and the move's relocations, captures and flag changes take place
/// exactly as `apply_move_spec` describes. A move that does not fit the board
/// yields that description's error instead, and no board.
#[verifier::rlimit(100)]
pub fn get_next_board(board: &Board, move_: &Move) -> (r: Result<Board, IllegalTransition>)
    requires
        board.wf(),
    ensures
        r is Ok <==> apply_move_spec(board@, move_@) is Ok,
        r matches Ok(nb) ==> nb.wf() && nb@ == apply_move_spec(board@, move_@)->Ok_0,
        r matches Err(e) ==> apply_move_spec(board@, move_@) == Err::<BoardView, _>(e),
{
    let ghost v = board@;
    let mut nb = Board {
        spaces: grid_clone(&board.spaces),
        width: board.width,
        height: board.height,
        side: board.side.other(),
        captured: copy_pieces(&board.captured),
    };
    proof {
        assert(nb@ =~= (BoardView { side: v.side.spec_other(), ..v }));
    }

    if matches!(move_.kind, MoveKind::Skip) {
        return Ok(nb);
    }

    let (sp0, s_pw, s_pb) = match nb.space(move_.source) {
        Some(Space::Square { slot: Some(p), promotes_white, promotes_black }) => (
            p,
            promotes_white,
            promotes_black,
        ),
        Some(Space::Square { slot: None, .. }) => {
            return Err(IllegalTransition::SourceEmpty);
        },
        _ => {
            return Err(IllegalTransition::SourceNotSquare);
        },
    };
    nb.set_space(
        move_.source,
        Space::Square { slot: None, promotes_white: s_pw, promotes_black: s_pb },
    );
    let mut piece = match sp0.model {
        PieceModel::Pawn { .. } => Piece {
            side: sp0.side,
            model: PieceModel::Pawn { can_dash: false, just_dashed: false },
        },
        _ => sp0,
    };
    assert(piece == moved_piece(sp0));

    match move_.kind {
        MoveKind::Capture => {
            match nb.space(move_.target) {
                Some(Space::Square { slot: Some(q), .. }) => {
                    nb.captured.push(q);
                },
                _ => {
                    return Err(IllegalTransition::CaptureTargetEmpty);
                },
            }
        },
        MoveKind::Dash => {
            match piece.model {
                PieceModel::Pawn { .. } => {
                    piece = Piece {
                        side: piece.side,
                        model: PieceModel::Pawn { can_dash: false, just_dashed: true },
                    };
                },
                _ => {
                    return Err(IllegalTransition::DashSourceNotPawn);
                },
            }
        },
        MoveKind::EnPassant => {
            let cap = Coords { x: move_.target.x, y: move_.source.y };
            match nb.space(cap) {
                Some(Space::Square { slot: Some(q), promotes_white, promotes_black }) => {
                    nb.captured.push(q);
                    nb.set_space(cap, Space::Square { slot: None, promotes_white, promotes_black });
                },
                _ => {
                    return Err(IllegalTransition::EnPassantTargetInvalid);
                },
            }
        },
        MoveKind::Castle { rook_coords } => {
            let (rook, r_pw, r_pb) = match nb.space(rook_coords) {
                Some(Space::Square { slot: Some(q), promotes_white, promotes_black }) => {
                    if matches!(q.model, PieceModel::Rook { .. }) {
                        (q, promotes_white, promotes_black)
                    } else {
                        return Err(IllegalTransition::CastleRookMissing);
                    }
                },
                _ => {
                    return Err(IllegalTransition::CastleRookMissing);
                },
            };
            nb.set_space(
                rook_coords,
                Space::Square { slot: None, promotes_white: r_pw, promotes_black: r_pb },
            );
            let dx: isize = if move_.target.x > move_.source.x {
                1
            } else {
                -1
            };
            let rt_x = match move_.target.x.checked_sub(dx) {
                Some(x) => x,
                None => {
                    return Err(IllegalTransition::CastleRookTargetNotSquare);
                },
            };
            let rt = Coords { x: rt_x, y: move_.target.y };
            match nb.space(rt) {
                Some(Space::Square { slot: _, promotes_white, promotes_black }) => {
                    nb.set_space(
                        rt,
                        Space::Square {
                            slot: Some(
                                Piece {
                                    side: rook.side,
                                    model: PieceModel::Rook { can_castle: false },
                                },
                            ),
                            promotes_white,
                            promotes_black,
                        },
                    );
                },
                _ => {
                    return Err(IllegalTransition::CastleRookTargetNotSquare);
                },
            }
            match piece.model {
                PieceModel::King { .. } => {
                    piece = Piece {
                        side: piece.side,
                        model: PieceModel::King { can_castle: false },
                    };
                },
                _ => {
                    return Err(IllegalTransition::CastleSourceNotKing);
                },
            }
        },
        _ => {},
    }

    let final_piece = match move_.promotion {
        Some(model) => Piece { side: piece.side, model },
        None => piece,
    };
    match nb.space(move_.target) {
        Some(Space::Square { slot: _, promotes_white, promotes_black }) => {
            nb.set_space(
                move_.target,
                Space::Square { slot: Some(final_piece), promotes_white, promotes_black },
            );
        },
        _ => {
            return Err(IllegalTransition::TargetNotSquare);
        },
    }
    Ok(nb)
}

} // verus!
