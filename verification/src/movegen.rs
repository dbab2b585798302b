//! The move generator: every pseudo-legal move per piece kind, the
//! check-safety oracle built from the transition function and the unfiltered
//! generator, and the legal-move set that the oracle filters.
//!
//! Generation has two entry points, as the oracle demands: the unfiltered
//! one never consults check safety, so the oracle — which simulates a move
//! and regenerates the opponent's unfiltered replies — never recurses more
//! than one level.

use vstd::prelude::*;

use crate::board::Board;
use crate::board::BoardView;
use crate::board::Coords;
use crate::board::Piece;
use crate::board::PieceModel;
use crate::board::Side;
use crate::board::Space;
use crate::logic::apply_move_spec;
use crate::logic::get_next_board;
use crate::logic::skip_move;
use crate::logic::Move;
use crate::logic::MoveKind;
use crate::logic::MoveKindView;
use crate::logic::MoveView;

verus! {

/// Whether a rook that a pawn promotes into may later castle. The reference
/// behavior disables it: a promoted rook never counts as unmoved.
pub const CAN_CASTLE_WITH_PROMOTED_ROOK: bool = false;

/// The piece on the space at `c`, if any.
pub open spec fn piece_at(v: BoardView, c: (int, int)) -> Option<Piece> {
    match v.space_at(c) {
        Some(Space::Square { slot, .. }) => slot,
        _ => None,
    }
}

/// Whether `c` names an occupiable square with nothing on it.
pub open spec fn is_empty_square(v: BoardView, c: (int, int)) -> bool {
    v.space_at(c) matches Some(Space::Square { slot: None, .. })
}

/// Whether `c` holds a piece of the side opposing `side`.
pub open spec fn enemy_at(v: BoardView, c: (int, int), side: Side) -> bool {
    piece_at(v, c) matches Some(p) && p.side != side
}

/// Whether a piece of `side` arriving at `c` must promote.
pub open spec fn promotes_at(v: BoardView, c: (int, int), side: Side) -> bool {
    v.space_at(c) matches Some(sp) && sp.spec_promotes(side)
}

/// Whether `c` holds a king belonging to `side`.
pub open spec fn is_king_of(v: BoardView, side: Side, c: (int, int)) -> bool {
    piece_at(v, c) matches Some(p) && p.side == side && p.model is King
}

/// A plain move descriptor with no promotion.
pub open spec fn mv(src: (int, int), tgt: (int, int), kind: MoveKindView) -> MoveView {
    MoveView { source: src, target: tgt, kind, promotion: None }
}

/// A single step onto `t`: a standard move onto an empty square, a capture
/// onto an enemy-occupied one, nothing otherwise.
pub open spec fn step_move(v: BoardView, side: Side, src: (int, int), t: (int, int)) -> Option<
    MoveView,
> {
    if is_empty_square(v, t) {
        Some(mv(src, t, MoveKindView::Standard))
    } else if enemy_at(v, t, side) {
        Some(mv(src, t, MoveKindView::Capture))
    } else {
        None
    }
}

/// The step moves onto each target in `ts`, kept in order.
pub open spec fn step_moves(v: BoardView, side: Side, src: (int, int), ts: Seq<(int, int)>) -> Seq<
    MoveView,
>
    decreases ts.len(),
{
    if ts.len() == 0 {
        Seq::empty()
    } else {
        (match step_move(v, side, src, ts[0]) {
            Some(m) => seq![m],
            None => Seq::empty(),
        }) + step_moves(v, side, src, ts.drop_first())
    }
}

/// A sliding piece's moves along one direction, starting one step beyond
/// `(cx, cy)`: each empty square yields a standard move and the scan goes
/// on; an enemy-occupied square yields a capture and ends the scan; anything
/// else ends it with nothing.
pub open spec fn ray_moves(
    v: BoardView,
    side: Side,
    src: (int, int),
    dx: int,
    dy: int,
    cx: int,
    cy: int,
    fuel: nat,
) -> Seq<MoveView>
    decreases fuel,
{
    if fuel == 0 {
        Seq::empty()
    } else {
        let t = (cx + dx, cy + dy);
        if is_empty_square(v, t) {
            seq![mv(src, t, MoveKindView::Standard)] + ray_moves(
                v,
                side,
                src,
                dx,
                dy,
                t.0,
                t.1,
                (fuel - 1) as nat,
            )
        } else if enemy_at(v, t, side) {
            seq![mv(src, t, MoveKindView::Capture)]
        } else {
            Seq::empty()
        }
    }
}

/// Enough scan steps to cross the whole board in any direction.
pub open spec fn ray_fuel(v: BoardView) -> nat {
    if v.width + v.height + 1 >= 0 {
        (v.width + v.height + 1) as nat
    } else {
        0
    }
}

/// A sliding piece's moves along each direction in `dirs`, kept in order.
pub open spec fn rays_moves(
    v: BoardView,
    side: Side,
    src: (int, int),
    dirs: Seq<(int, int)>,
) -> Seq<MoveView>
    decreases dirs.len(),
{
    if dirs.len() == 0 {
        Seq::empty()
    } else {
        ray_moves(v, side, src, dirs[0].0, dirs[0].1, src.0, src.1, ray_fuel(v)) + rays_moves(
            v,
            side,
            src,
            dirs.drop_first(),
        )
    }
}

/// The queen's eight directions.
pub open spec fn queen_dirs() -> Seq<(int, int)> {
    seq![(-1, 1), (0, 1), (1, 1), (-1, 0), (1, 0), (-1, -1), (0, -1), (1, -1)]
}

/// The bishop's four diagonal directions.
pub open spec fn bishop_dirs() -> Seq<(int, int)> {
    seq![(-1, 1), (1, 1), (-1, -1), (1, -1)]
}

/// The rook's four orthogonal directions.
pub open spec fn rook_dirs() -> Seq<(int, int)> {
    seq![(-1, 0), (0, 1), (0, -1), (1, 0)]
}

/// The king's eight neighboring cells.
pub open spec fn king_targets(c: (int, int)) -> Seq<(int, int)> {
    seq![
        (c.0 - 1, c.1 + 1),
        (c.0, c.1 + 1),
        (c.0 + 1, c.1 + 1),
        (c.0 - 1, c.1),
        (c.0 + 1, c.1),
        (c.0 - 1, c.1 - 1),
        (c.0, c.1 - 1),
        (c.0 + 1, c.1 - 1),
    ]
}

/// The knight's eight L-shaped jumps.
pub open spec fn knight_targets(c: (int, int)) -> Seq<(int, int)> {
    seq![
        (c.0 - 1, c.1 + 2),
        (c.0 + 1, c.1 + 2),
        (c.0 + 2, c.1 - 1),
        (c.0 + 2, c.1 + 1),
        (c.0 - 1, c.1 - 2),
        (c.0 + 1, c.1 - 2),
        (c.0 - 2, c.1 - 1),
        (c.0 - 2, c.1 + 1),
    ]
}

/// Scan outward from the king at `kc` in horizontal direction `dx`, at
/// growing offset `off`: empty squares are stepped over; a rook of the
/// king's own side that may still castle, found beyond offset two, yields
/// the castle move two cells from the king; anything else ends the scan with
/// nothing.
pub open spec fn castle_scan(
    v: BoardView,
    side: Side,
    kc: (int, int),
    dx: int,
    off: int,
    fuel: nat,
) -> Option<MoveView>
    decreases fuel,
{
    if fuel == 0 {
        None
    } else {
        let rc = (kc.0 + dx * off, kc.1);
        if is_empty_square(v, rc) {
            castle_scan(v, side, kc, dx, off + 1, (fuel - 1) as nat)
        } else {
            match piece_at(v, rc) {
                Some(p) => if p.model == (PieceModel::Rook { can_castle: true }) && off > 2
                    && p.side == side {
                    Some(mv(kc, (kc.0 + dx * 2, kc.1), MoveKindView::Castle { rook: rc }))
                } else {
                    None
                },
                None => None,
            }
        }
    }
}

/// The castle move available in direction `dx` when no check filtering is
/// asked for: nothing unless the king may still castle.
pub open spec fn castle_part(v: BoardView, side: Side, kc: (int, int), can_castle: bool, dx: int) -> Seq<
    MoveView,
> {
    if !can_castle {
        Seq::empty()
    } else {
        match castle_scan(v, side, kc, dx, 1, ray_fuel(v)) {
            Some(m) => seq![m],
            None => Seq::empty(),
        }
    }
}

/// The four promotion variants of `m` when its target square forces `side`
/// to promote, else `m` itself: one move each becoming a queen, a bishop, a
/// knight and a rook, in that order.
pub open spec fn with_promotions(v: BoardView, side: Side, m: MoveView) -> Seq<MoveView> {
    if promotes_at(v, m.target, side) {
        seq![
            MoveView { promotion: Some(PieceModel::Queen), ..m },
            MoveView { promotion: Some(PieceModel::Bishop), ..m },
            MoveView { promotion: Some(PieceModel::Knight), ..m },
            MoveView {
                promotion: Some(PieceModel::Rook { can_castle: CAN_CASTLE_WITH_PROMOTED_ROOK }),
                ..m
            },
        ]
    } else {
        seq![m]
    }
}

/// Which way `side`'s pawns advance.
pub open spec fn pawn_dir(side: Side) -> int {
    if side is White {
        1
    } else {
        -1
    }
}

/// A pawn's en-passant candidate against the cell `sx` beside it: offered
/// when that cell holds an enemy pawn that just dashed, targeting the cell
/// diagonally beyond that pawn.
pub open spec fn ep_candidate(v: BoardView, c: (int, int), side: Side, sx: int) -> Seq<MoveView> {
    if piece_at(v, (sx, c.1)) matches Some(p) && p.side != side && (p.model matches
        PieceModel::Pawn {
        just_dashed: true,
        ..
    }) {
        with_promotions(v, side, mv(c, (sx, c.1 + pawn_dir(side)), MoveKindView::EnPassant))
    } else {
        Seq::empty()
    }
}

/// A pawn's diagonal capture candidate onto `t`.
pub open spec fn cap_candidate(v: BoardView, c: (int, int), side: Side, t: (int, int)) -> Seq<
    MoveView,
> {
    if enemy_at(v, t, side) {
        with_promotions(v, side, mv(c, t, MoveKindView::Capture))
    } else {
        Seq::empty()
    }
}

/// A pawn's forward moves: the forward step when that square is empty, then
/// — still behind an empty forward square — the double-step dash when
/// allowed and clear, and the two en-passant candidates. Every candidate is
/// promotion-expanded.
pub open spec fn pawn_forward_part(v: BoardView, c: (int, int), side: Side, can_dash: bool) -> Seq<
    MoveView,
> {
    let d = pawn_dir(side);
    let fwd = (c.0, c.1 + d);
    let dash = (c.0, c.1 + 2 * d);
    if is_empty_square(v, fwd) {
        with_promotions(v, side, mv(c, fwd, MoveKindView::Standard)) + (if can_dash
            && is_empty_square(v, dash) {
            with_promotions(v, side, mv(c, dash, MoveKindView::Dash))
        } else {
            Seq::empty()
        }) + ep_candidate(v, c, side, c.0 - 1) + ep_candidate(v, c, side, c.0 + 1)
    } else {
        Seq::empty()
    }
}

/// A pawn's moves: the forward moves, then the two diagonal captures, all
/// promotion-expanded.
pub open spec fn pawn_moves(v: BoardView, c: (int, int), side: Side, can_dash: bool) -> Seq<
    MoveView,
> {
    let d = pawn_dir(side);
    pawn_forward_part(v, c, side, can_dash) + cap_candidate(v, c, side, (c.0 - 1, c.1 + d))
        + cap_candidate(v, c, side, (c.0 + 1, c.1 + d))
}

/// A piece's pseudo-legal moves from `c`, with castling scanned without any
/// check probing.
pub open spec fn piece_moves_pseudo(v: BoardView, c: (int, int), p: Piece) -> Seq<MoveView> {
    match p.model {
        PieceModel::King { can_castle } => step_moves(v, p.side, c, king_targets(c)) + castle_part(
            v,
            p.side,
            c,
            can_castle,
            -1,
        ) + castle_part(v, p.side, c, can_castle, 1),
        PieceModel::Queen => rays_moves(v, p.side, c, queen_dirs()),
        PieceModel::Bishop => rays_moves(v, p.side, c, bishop_dirs()),
        PieceModel::Rook { .. } => rays_moves(v, p.side, c, rook_dirs()),
        PieceModel::Knight => step_moves(v, p.side, c, knight_targets(c)),
        PieceModel::Pawn { can_dash, .. } => pawn_moves(v, c, p.side, can_dash),
    }
}

/// The pseudo-legal moves from `c`: empty unless `c` holds a piece of the
/// side to move.
pub open spec fn pseudo_moves_at(v: BoardView, c: (int, int)) -> Seq<MoveView> {
    match piece_at(v, c) {
        Some(p) => if p.side == v.side {
            piece_moves_pseudo(v, c, p)
        } else {
            Seq::empty()
        },
        None => Seq::empty(),
    }
}

/// Whether `m` is an unfiltered reply on board `nv` that would capture a
/// king belonging to `side`.
pub open spec fn is_king_capture(nv: BoardView, m: MoveView, side: Side) -> bool {
    (m.kind is Capture || m.kind is EnPassant) && is_king_of(nv, side, m.target)
}

/// Whether the piece at `c` on board `nv` has an unfiltered reply capturing
/// a king of `side`.
pub open spec fn threatens_king(nv: BoardView, c: (int, int), side: Side) -> bool {
    exists|i: int|
        0 <= i < pseudo_moves_at(nv, c).len() && is_king_capture(
            nv,
            #[trigger] pseudo_moves_at(nv, c)[i],
            side,
        )
}

/// The check-safety oracle's answer: after applying `m` to `v`, some
/// opposing reply could capture a king of the mover's side. A move that
/// cannot be applied at all also counts as unsafe. A side with no king is
/// never in check; a side with several is in check when any of them can be
/// taken.
pub open spec fn in_check_after(v: BoardView, m: MoveView) -> bool {
    match apply_move_spec(v, m) {
        Err(_) => true,
        Ok(nv) => exists|c: (int, int)| #[trigger] threatens_king(nv, c, v.side),
    }
}

/// Scan outward from the king as `castle_scan` does, but step over an empty
/// square only when the king could stand there safely: a probe move of the
/// king onto that square must not leave it capturable.
pub open spec fn castle_scan_checked(
    v: BoardView,
    side: Side,
    kc: (int, int),
    dx: int,
    off: int,
    fuel: nat,
) -> Option<MoveView>
    decreases fuel,
{
    if fuel == 0 {
        None
    } else {
        let rc = (kc.0 + dx * off, kc.1);
        if is_empty_square(v, rc) {
            if !in_check_after(v, mv(kc, rc, MoveKindView::Standard)) {
                castle_scan_checked(v, side, kc, dx, off + 1, (fuel - 1) as nat)
            } else {
                None
            }
        } else {
            match piece_at(v, rc) {
                Some(p) => if p.model == (PieceModel::Rook { can_castle: true }) && off > 2
                    && p.side == side {
                    Some(mv(kc, (kc.0 + dx * 2, kc.1), MoveKindView::Castle { rook: rc }))
                } else {
                    None
                },
                None => None,
            }
        }
    }
}

/// The castle move available in direction `dx` under check filtering:
/// nothing unless the king may still castle and is not in check where it
/// stands.
pub open spec fn castle_part_checked(
    v: BoardView,
    side: Side,
    kc: (int, int),
    can_castle: bool,
    dx: int,
) -> Seq<MoveView> {
    if !can_castle || in_check_after(v, skip_move()) {
        Seq::empty()
    } else {
        match castle_scan_checked(v, side, kc, dx, 1, ray_fuel(v)) {
            Some(m) => seq![m],
            None => Seq::empty(),
        }
    }
}

/// A piece's candidate moves from `c` when check filtering is on: the same
/// as `piece_moves_pseudo` except that the castle scans probe for safety.
pub open spec fn piece_moves_checked(v: BoardView, c: (int, int), p: Piece) -> Seq<MoveView> {
    match p.model {
        PieceModel::King { can_castle } => step_moves(v, p.side, c, king_targets(c))
            + castle_part_checked(v, p.side, c, can_castle, -1) + castle_part_checked(
            v,
            p.side,
            c,
            can_castle,
            1,
        ),
        _ => piece_moves_pseudo(v, c, p),
    }
}

/// The candidate moves from `c` under check filtering, before the final
/// safety filter.
pub open spec fn checked_moves_at(v: BoardView, c: (int, int)) -> Seq<MoveView> {
    match piece_at(v, c) {
        Some(p) => if p.side == v.side {
            piece_moves_checked(v, c, p)
        } else {
            Seq::empty()
        },
        None => Seq::empty(),
    }
}

/// The moves of `ms` that the check-safety oracle accepts, in order.
pub open spec fn filter_safe(v: BoardView, ms: Seq<MoveView>) -> Seq<MoveView>
    decreases ms.len(),
{
    if ms.len() == 0 {
        Seq::empty()
    } else {
        (if !in_check_after(v, ms[0]) {
            seq![ms[0]]
        } else {
            Seq::empty()
        }) + filter_safe(v, ms.drop_first())
    }
}

/// The legal moves from `c`: the checked candidates that do not leave the
/// mover's own king capturable.
pub open spec fn legal_moves_at(v: BoardView, c: (int, int)) -> Seq<MoveView> {
    filter_safe(v, checked_moves_at(v, c))
}

/// The moves offered from `c`, with or without check filtering.
pub open spec fn moves_at(v: BoardView, c: (int, int), filtered: bool) -> Seq<MoveView> {
    if filtered {
        legal_moves_at(v, c)
    } else {
        pseudo_moves_at(v, c)
    }
}

/// One generated entry per piece of the side to move in column `x`, from row
/// `y` upward, in row order.
pub open spec fn col_entries(v: BoardView, x: int, y: int, filtered: bool) -> Seq<
    ((int, int), Seq<MoveView>),
>
    decreases v.height - y,
{
    if y < 0 || y >= v.height {
        Seq::empty()
    } else {
        (if piece_at(v, (x, y)) matches Some(p) && p.side == v.side {
            seq![(((x, y), moves_at(v, (x, y), filtered)))]
        } else {
            Seq::empty()
        }) + col_entries(v, x, y + 1, filtered)
    }
}

/// The generated entries for every column from `x` rightward, in column
/// order.
pub open spec fn cols_entries(v: BoardView, x: int, filtered: bool) -> Seq<
    ((int, int), Seq<MoveView>),
>
    decreases v.width - x,
{
    if x < 0 || x >= v.width {
        Seq::empty()
    } else {
        col_entries(v, x, 0, filtered) + cols_entries(v, x + 1, filtered)
    }
}

/// What move generation yields on `v`: one entry per piece of the side to
/// move, in column-then-row scan order, carrying that piece's offered moves
/// — the legal ones under filtering, else the pseudo-legal ones.
pub open spec fn possible_moves_spec(v: BoardView, filtered: bool) -> Seq<
    ((int, int), Seq<MoveView>),
> {
    cols_entries(v, 0, filtered)
}

/// The views of a vector of moves.
pub open spec fn views_of(ms: Seq<Move>) -> Seq<MoveView> {
    Seq::new(ms.len(), |i: int| ms[i]@)
}

/// The views of a vector of coordinates.
pub open spec fn coords_views(cs: Seq<Coords>) -> Seq<(int, int)> {
    Seq::new(cs.len(), |i: int| cs[i]@)
}

/// The view of an optional move.
pub open spec fn option_move_view(om: Option<Move>) -> Option<MoveView> {
    match om {
        Some(m) => Some(m@),
        None => None,
    }
}

/// Append the step moves onto each target in `ts`, in order.
fn step_moves_exec(b: &Board, side: Side, src: Coords, ts: &Vec<Coords>, out: &mut Vec<Move>)
    requires
        b.wf(),
    ensures
        views_of(final(out)@) == views_of(old(out)@) + step_moves(
            b@,
            side,
            src@,
            coords_views(ts@),
        ),
{
    let ghost base = views_of(out@);
    let ghost cvs = coords_views(ts@);
    proof {
        assert(cvs.skip(0) =~= cvs);
    }
    let mut i: usize = 0;
    while i < ts.len()
        invariant
            b.wf(),
            0 <= i <= ts@.len(),
            cvs == coords_views(ts@),
            base + step_moves(b@, side, src@, cvs) =~= views_of(out@) + step_moves(
                b@,
                side,
                src@,
                cvs.skip(i as int),
            ),
        decreases ts@.len() - i,
    {
        let t = ts[i];
        proof {
            assert(cvs.skip(i as int).len() > 0);
            assert(cvs.skip(i as int)[0] == t@);
            assert(cvs.skip(i as int).drop_first() =~= cvs.skip(i as int + 1));
        }
        let ghost pre = views_of(out@);
        match b.space(t) {
            Some(Space::Square { slot: None, .. }) => {
                out.push(
                    Move { source: src, target: t, kind: MoveKind::Standard, promotion: None },
                );
                proof {
                    assert(views_of(out@) =~= pre + seq![mv(src@, t@, MoveKindView::Standard)]);
                }
            },
            Some(Space::Square { slot: Some(q), .. }) => {
                if q.side != side {
                    out.push(
                        Move { source: src, target: t, kind: MoveKind::Capture, promotion: None },
                    );
                    proof {
                        assert(views_of(out@) =~= pre + seq![mv(src@, t@, MoveKindView::Capture)]);
                    }
                }
            },
            _ => {},
        }
        i = i + 1;
    }
    proof {
        assert(cvs.skip(ts@.len() as int) =~= Seq::<(int, int)>::empty());
        assert(views_of(out@) =~= base + step_moves(b@, side, src@, cvs));
    }
}

/// Append a sliding piece's moves along one direction, scanning outward from
/// `src` one cell at a time.
fn ray_moves_exec(b: &Board, side: Side, src: Coords, dx: isize, dy: isize, out: &mut Vec<Move>)
    requires
        b.wf(),
        b@.in_bounds(src@),
        -1 <= dx <= 1,
        -1 <= dy <= 1,
    ensures
        views_of(final(out)@) == views_of(old(out)@) + ray_moves(
            b@,
            side,
            src@,
            dx as int,
            dy as int,
            src@.0,
            src@.1,
            ray_fuel(b@),
        ),
{
    let ghost base = views_of(out@);
    let ghost full = ray_moves(b@, side, src@, dx as int, dy as int, src@.0, src@.1, ray_fuel(b@));
    let mut cx = src.x;
    let mut cy = src.y;
    let mut fuel: usize = b.width + b.height + 1;
    let mut done = false;
    assert(fuel as nat == ray_fuel(b@));
    while !done && fuel > 0
        invariant
            b.wf(),
            -1 <= dx <= 1,
            -1 <= dy <= 1,
            b@.in_bounds((cx as int, cy as int)),
            base + full =~= views_of(out@) + (if done {
                Seq::<MoveView>::empty()
            } else {
                ray_moves(b@, side, src@, dx as int, dy as int, cx as int, cy as int, fuel as nat)
            }),
        decreases (if done { 0int } else { 1int }), fuel,
    {
        let t = Coords { x: cx + dx, y: cy + dy };
        let ghost pre = views_of(out@);
        match b.space(t) {
            Some(Space::Square { slot: None, .. }) => {
                out.push(
                    Move { source: src, target: t, kind: MoveKind::Standard, promotion: None },
                );
                proof {
                    assert(views_of(out@) =~= pre + seq![mv(src@, t@, MoveKindView::Standard)]);
                }
                cx = t.x;
                cy = t.y;
                fuel = fuel - 1;
            },
            Some(Space::Square { slot: Some(q), .. }) => {
                if q.side != side {
                    out.push(
                        Move { source: src, target: t, kind: MoveKind::Capture, promotion: None },
                    );
                    proof {
                        assert(views_of(out@) =~= pre + seq![mv(src@, t@, MoveKindView::Capture)]);
                    }
                }
                done = true;
            },
            _ => {
                done = true;
            },
        }
    }
    proof {
        assert(views_of(out@) =~= base + full);
    }
}

/// Append `m`, or its four promotion variants when its target square forces
/// `side` to promote.
fn push_with_promotions(b: &Board, side: Side, m: Move, out: &mut Vec<Move>)
    requires
        b.wf(),
        m.promotion is None,
    ensures
        views_of(final(out)@) == views_of(old(out)@) + with_promotions(b@, side, m@),
{
    let ghost base = views_of(out@);
    let promotes = match b.space(m.target) {
        Some(Space::Square { promotes_white, promotes_black, .. }) => match side {
            Side::White => promotes_white,
            Side::Black => promotes_black,
        },
        _ => false,
    };
    if promotes {
        out.push(Move { promotion: Some(PieceModel::Queen), ..m });
        out.push(Move { promotion: Some(PieceModel::Bishop), ..m });
        out.push(Move { promotion: Some(PieceModel::Knight), ..m });
        out.push(
            Move {
                promotion: Some(PieceModel::Rook { can_castle: CAN_CASTLE_WITH_PROMOTED_ROOK }),
                ..m
            },
        );
    } else {
        out.push(m);
    }
    proof {
        assert(views_of(out@) =~= base + with_promotions(b@, side, m@));
    }
}

/// Append a pawn's en-passant candidate against the cell beside it at
/// column `sx`.
fn ep_one_exec(b: &Board, c: Coords, side: Side, sx: isize, d: isize, out: &mut Vec<Move>)
    requires
        b.wf(),
        b@.in_bounds(c@),
        -1 <= d <= 1,
        sx == c@.0 - 1 || sx == c@.0 + 1,
        d == pawn_dir(side),
    ensures
        views_of(final(out)@) == views_of(old(out)@) + ep_candidate(b@, c@, side, sx as int),
{
    let ghost base = views_of(out@);
    match b.space(Coords { x: sx, y: c.y }) {
        Some(
            Space::Square {
                slot: Some(Piece { side: ts, model: PieceModel::Pawn { just_dashed: true, .. } }),
                ..
            },
        ) => {
            if ts != side {
                push_with_promotions(
                    b,
                    side,
                    Move {
                        source: c,
                        target: Coords { x: sx, y: c.y + d },
                        kind: MoveKind::EnPassant,
                        promotion: None,
                    },
                    out,
                );
            }
        },
        _ => {},
    }
    proof {
        assert(views_of(out@) =~= base + ep_candidate(b@, c@, side, sx as int));
    }
}

/// Append a pawn's diagonal capture candidate onto `t`.
fn cap_one_exec(b: &Board, c: Coords, side: Side, t: Coords, out: &mut Vec<Move>)
    requires
        b.wf(),
    ensures
        views_of(final(out)@) == views_of(old(out)@) + cap_candidate(b@, c@, side, t@),
{
    let ghost base = views_of(out@);
    match b.space(t) {
        Some(Space::Square { slot: Some(q), .. }) => {
            if q.side != side {
                push_with_promotions(
                    b,
                    side,
                    Move { source: c, target: t, kind: MoveKind::Capture, promotion: None },
                    out,
                );
            }
        },
        _ => {},
    }
    proof {
        assert(views_of(out@) =~= base + cap_candidate(b@, c@, side, t@));
    }
}

/// Append a pawn's forward moves from the in-bounds cell `c`.
fn pawn_forward_exec(b: &Board, c: Coords, side: Side, can_dash: bool, out: &mut Vec<Move>)
    requires
        b.wf(),
        b@.in_bounds(c@),
    ensures
        views_of(final(out)@) == views_of(old(out)@) + pawn_forward_part(b@, c@, side, can_dash),
{
    let ghost base = views_of(out@);
    let d: isize = match side {
        Side::White => 1,
        Side::Black => -1,
    };
    let ghost dd = pawn_dir(side);
    let ghost fwdt = (c@.0, c@.1 + dd);
    let ghost dasht = (c@.0, c@.1 + 2 * dd);
    let fwd = Coords { x: c.x, y: c.y + d };
    if matches!(b.space(fwd), Some(Space::Square { slot: None, .. })) {
        push_with_promotions(
            b,
            side,
            Move { source: c, target: fwd, kind: MoveKind::Standard, promotion: None },
            out,
        );
        let ghost wp = with_promotions(b@, side, mv(c@, fwdt, MoveKindView::Standard));
        let dash = Coords { x: c.x, y: c.y + 2 * d };
        if can_dash && matches!(b.space(dash), Some(Space::Square { slot: None, .. })) {
            push_with_promotions(
                b,
                side,
                Move { source: c, target: dash, kind: MoveKind::Dash, promotion: None },
                out,
            );
        } else {
            assert(views_of(out@) == base + wp + Seq::<MoveView>::empty());
        }
        let ghost dp = (if can_dash && is_empty_square(b@, dasht) {
            with_promotions(b@, side, mv(c@, dasht, MoveKindView::Dash))
        } else {
            Seq::<MoveView>::empty()
        });
        assert(views_of(out@) == base + wp + dp);
        ep_one_exec(b, c, side, c.x - 1, d, out);
        ep_one_exec(b, c, side, c.x + 1, d, out);
        proof {
            let e1 = ep_candidate(b@, c@, side, c@.0 - 1);
            let e2 = ep_candidate(b@, c@, side, c@.0 + 1);
            assert(views_of(out@) == base + wp + dp + e1 + e2);
            vstd::seq_lib::lemma_concat_associative(base, wp, dp);
            vstd::seq_lib::lemma_concat_associative(base, wp + dp, e1);
            vstd::seq_lib::lemma_concat_associative(base, wp + dp + e1, e2);
            assert(views_of(out@) == base + pawn_forward_part(b@, c@, side, can_dash));
        }
    } else {
        proof {
            assert(views_of(out@) =~= base + pawn_forward_part(b@, c@, side, can_dash));
        }
    }
}

/// Append a pawn's moves from the in-bounds cell `c`.
fn pawn_moves_exec(b: &Board, c: Coords, side: Side, can_dash: bool, out: &mut Vec<Move>)
    requires
        b.wf(),
        b@.in_bounds(c@),
    ensures
        views_of(final(out)@) == views_of(old(out)@) + pawn_moves(b@, c@, side, can_dash),
{
    let ghost base = views_of(out@);
    let d: isize = match side {
        Side::White => 1,
        Side::Black => -1,
    };
    pawn_forward_exec(b, c, side, can_dash, out);
    cap_one_exec(b, c, side, Coords { x: c.x - 1, y: c.y + d }, out);
    cap_one_exec(b, c, side, Coords { x: c.x + 1, y: c.y + d }, out);
    proof {
        let dd = pawn_dir(side);
        let fp = pawn_forward_part(b@, c@, side, can_dash);
        let c1 = cap_candidate(b@, c@, side, (c@.0 - 1, c@.1 + dd));
        let c2 = cap_candidate(b@, c@, side, (c@.0 + 1, c@.1 + dd));
        assert(views_of(out@) == base + fp + c1 + c2);
        vstd::seq_lib::lemma_concat_associative(base, fp, c1);
        vstd::seq_lib::lemma_concat_associative(base, fp + c1, c2);
        assert(views_of(out@) == base + pawn_moves(b@, c@, side, can_dash));
    }
}

/// Append a sliding piece's moves along each unit direction in `dirs`.
fn rays_moves_exec(b: &Board, side: Side, src: Coords, dirs: &Vec<Coords>, out: &mut Vec<Move>)
    requires
        b.wf(),
        b@.in_bounds(src@),
        forall|i: int|
            0 <= i < dirs@.len() ==> -1 <= (#[trigger] dirs@[i]).x <= 1 && -1 <= dirs@[i].y <= 1,
    ensures
        views_of(final(out)@) == views_of(old(out)@) + rays_moves(
            b@,
            side,
            src@,
            coords_views(dirs@),
        ),
{
    let ghost base = views_of(out@);
    let ghost dvs = coords_views(dirs@);
    proof {
        assert(dvs.skip(0) =~= dvs);
    }
    let mut i: usize = 0;
    while i < dirs.len()
        invariant
            b.wf(),
            b@.in_bounds(src@),
            0 <= i <= dirs@.len(),
            dvs == coords_views(dirs@),
            forall|j: int|
                0 <= j < dirs@.len() ==> -1 <= (#[trigger] dirs@[j]).x <= 1 && -1 <= dirs@[j].y
                    <= 1,
            base + rays_moves(b@, side, src@, dvs) =~= views_of(out@) + rays_moves(
                b@,
                side,
                src@,
                dvs.skip(i as int),
            ),
        decreases dirs@.len() - i,
    {
        let dir = dirs[i];
        proof {
            assert(dvs.skip(i as int).len() > 0);
            assert(dvs.skip(i as int)[0] == dir@);
            assert(dvs.skip(i as int).drop_first() =~= dvs.skip(i as int + 1));
        }
        ray_moves_exec(b, side, src, dir.x, dir.y, out);
        i = i + 1;
    }
    proof {
        assert(dvs.skip(dirs@.len() as int) =~= Seq::<(int, int)>::empty());
        assert(views_of(out@) =~= base + rays_moves(b@, side, src@, dvs));
    }
}

/// Scan for a castle move in direction `dx` with no check probing.
fn castle_scan_plain_exec(b: &Board, side: Side, kc: Coords, dx: isize) -> (r: Option<Move>)
    requires
        b.wf(),
        b@.in_bounds(kc@),
        dx == 1 || dx == -1,
    ensures
        option_move_view(r) == castle_scan(b@, side, kc@, dx as int, 1, ray_fuel(b@)),
{
    let ghost full = castle_scan(b@, side, kc@, dx as int, 1, ray_fuel(b@));
    let mut off: usize = 1;
    let mut cur_x: isize = kc.x + dx;
    let mut fuel: usize = b.width + b.height + 1;
    assert(fuel as nat == ray_fuel(b@));
    while fuel > 0
        invariant
            b.wf(),
            b@.in_bounds(kc@),
            dx == 1 || dx == -1,
            1 <= off,
            off <= b@.width + b@.height + 1,
            -1 <= cur_x as int <= b@.width,
            cur_x as int == kc@.0 + dx * off,
            full == castle_scan(b@, side, kc@, dx as int, 1, ray_fuel(b@)),
            full == castle_scan(b@, side, kc@, dx as int, off as int, fuel as nat),
        decreases fuel,
    {
        let rc = Coords { x: cur_x, y: kc.y };
        match b.space(rc) {
            Some(Space::Square { slot: None, .. }) => {
                proof {
                    assert((dx as int) * (off as int + 1) == (dx as int) * (off as int) + dx)
                        by (nonlinear_arith);
                }
                off = off + 1;
                cur_x = cur_x + dx;
                fuel = fuel - 1;
            },
            Some(Space::Square { slot: Some(p), .. }) => {
                let same_side = match (p.side, side) {
                    (Side::White, Side::White) => true,
                    (Side::Black, Side::Black) => true,
                    _ => false,
                };
                proof {
                    assert(same_side == (p.side == side));
                    assert(piece_at(b@, rc@) == Some(p));
                    assert(!is_empty_square(b@, rc@));
                }
                if matches!(p.model, PieceModel::Rook { can_castle: true }) && off > 2
                    && same_side {
                    let r = Move {
                        source: kc,
                        target: Coords { x: kc.x + 2 * dx, y: kc.y },
                        kind: MoveKind::Castle { rook_coords: rc },
                        promotion: None,
                    };
                    proof {
                        assert(p.model == (PieceModel::Rook { can_castle: true }));
                        assert(castle_scan(b@, side, kc@, dx as int, off as int, fuel as nat)
                            == Some(
                            mv(kc@, (kc@.0 + dx * 2, kc@.1), MoveKindView::Castle { rook: rc@ }),
                        ));
                        assert(r@ == mv(
                            kc@,
                            (kc@.0 + dx * 2, kc@.1),
                            MoveKindView::Castle { rook: rc@ },
                        ));
                    }
                    return Some(r);
                } else {
                    proof {
                        assert(castle_scan(b@, side, kc@, dx as int, off as int, fuel as nat)
                            is None);
                    }
                    return None;
                }
            },
            _ => {
                return None;
            },
        }
    }
    None
}

/// Build the king's eight neighboring cells.
fn king_targets_exec(b: &Board, c: Coords) -> (r: Vec<Coords>)
    requires
        b.wf(),
        b@.in_bounds(c@),
    ensures
        coords_views(r@) == king_targets(c@),
{
    let r = vec![
        Coords { x: c.x - 1, y: c.y + 1 },
        Coords { x: c.x, y: c.y + 1 },
        Coords { x: c.x + 1, y: c.y + 1 },
        Coords { x: c.x - 1, y: c.y },
        Coords { x: c.x + 1, y: c.y },
        Coords { x: c.x - 1, y: c.y - 1 },
        Coords { x: c.x, y: c.y - 1 },
        Coords { x: c.x + 1, y: c.y - 1 },
    ];
    proof {
        assert(coords_views(r@) =~= king_targets(c@));
    }
    r
}

/// Build the knight's eight L-shaped jumps.
fn knight_targets_exec(b: &Board, c: Coords) -> (r: Vec<Coords>)
    requires
        b.wf(),
        b@.in_bounds(c@),
    ensures
        coords_views(r@) == knight_targets(c@),
{
    let r = vec![
        Coords { x: c.x - 1, y: c.y + 2 },
        Coords { x: c.x + 1, y: c.y + 2 },
        Coords { x: c.x + 2, y: c.y - 1 },
        Coords { x: c.x + 2, y: c.y + 1 },
        Coords { x: c.x - 1, y: c.y - 2 },
        Coords { x: c.x + 1, y: c.y - 2 },
        Coords { x: c.x - 2, y: c.y - 1 },
        Coords { x: c.x - 2, y: c.y + 1 },
    ];
    proof {
        assert(coords_views(r@) =~= knight_targets(c@));
    }
    r
}

/// Build a slider's unit directions from a fixed list.
fn dirs_vec(xs: [isize; 8], ys: [isize; 8], n: usize) -> (r: Vec<Coords>)
    requires
        n <= 8,
        forall|i: int| 0 <= i < 8 ==> -1 <= #[trigger] xs[i] <= 1,
        forall|i: int| 0 <= i < 8 ==> -1 <= #[trigger] ys[i] <= 1,
    ensures
        r@.len() == n,
        forall|i: int| 0 <= i < n ==> #[trigger] r@[i] == (Coords { x: xs[i], y: ys[i] }),
        forall|i: int| 0 <= i < n ==> -1 <= (#[trigger] r@[i]).x <= 1 && -1 <= r@[i].y <= 1,
{
    let mut r: Vec<Coords> = Vec::new();
    let mut i: usize = 0;
    while i < n
        invariant
            0 <= i <= n <= 8,
            r@.len() == i,
            forall|j: int| 0 <= j < 8 ==> -1 <= #[trigger] xs[j] <= 1,
            forall|j: int| 0 <= j < 8 ==> -1 <= #[trigger] ys[j] <= 1,
            forall|j: int| 0 <= j < i ==> #[trigger] r@[j] == (Coords { x: xs[j], y: ys[j] }),
        decreases n - i,
    {
        r.push(Coords { x: xs[i], y: ys[i] });
        i = i + 1;
    }
    r
}

/// A piece's pseudo-legal moves from the in-bounds cell `c`.
fn piece_moves_pseudo_exec(b: &Board, c: Coords, p: Piece) -> (r: Vec<Move>)
    requires
        b.wf(),
        b@.in_bounds(c@),
    ensures
        views_of(r@) == piece_moves_pseudo(b@, c@, p),
{
    let mut out: Vec<Move> = Vec::new();
    match p.model {
        PieceModel::King { can_castle } => {
            let ts = king_targets_exec(b, c);
            step_moves_exec(b, p.side, c, &ts, &mut out);
            let ghost ring = step_moves(b@, p.side, c@, king_targets(c@));
            if can_castle {
                match castle_scan_plain_exec(b, p.side, c, -1) {
                    Some(m) => {
                        out.push(m);
                    },
                    None => {},
                }
                proof {
                    assert(views_of(out@) =~= ring + castle_part(b@, p.side, c@, can_castle, -1));
                }
                match castle_scan_plain_exec(b, p.side, c, 1) {
                    Some(m) => {
                        out.push(m);
                    },
                    None => {},
                }
            }
            proof {
                assert(views_of(out@) =~= ring + castle_part(b@, p.side, c@, can_castle, -1)
                    + castle_part(b@, p.side, c@, can_castle, 1));
            }
        },
        PieceModel::Queen => {
            let dirs = dirs_vec(
                [-1, 0, 1, -1, 1, -1, 0, 1],
                [1, 1, 1, 0, 0, -1, -1, -1],
                8,
            );
            proof {
                assert(coords_views(dirs@) =~= queen_dirs());
            }
            rays_moves_exec(b, p.side, c, &dirs, &mut out);
        },
        PieceModel::Bishop => {
            let dirs = dirs_vec(
                [-1, 1, -1, 1, 0, 0, 0, 0],
                [1, 1, -1, -1, 0, 0, 0, 0],
                4,
            );
            proof {
                assert(coords_views(dirs@) =~= bishop_dirs());
            }
            rays_moves_exec(b, p.side, c, &dirs, &mut out);
        },
        PieceModel::Rook { .. } => {
            let dirs = dirs_vec(
                [-1, 0, 0, 1, 0, 0, 0, 0],
                [0, 1, -1, 0, 0, 0, 0, 0],
                4,
            );
            proof {
                assert(coords_views(dirs@) =~= rook_dirs());
            }
            rays_moves_exec(b, p.side, c, &dirs, &mut out);
        },
        PieceModel::Knight => {
            let ts = knight_targets_exec(b, c);
            step_moves_exec(b, p.side, c, &ts, &mut out);
        },
        PieceModel::Pawn { can_dash, .. } => {
            pawn_moves_exec(b, c, p.side, can_dash, &mut out);
        },
    }
    out
}

/// The pseudo-legal moves from `c`: empty unless `c` holds a piece of the
/// side to move.
pub fn moves_at_pseudo_exec(b: &Board, c: Coords) -> (r: Vec<Move>)
    requires
        b.wf(),
    ensures
        views_of(r@) == pseudo_moves_at(b@, c@),
{
    let p = match b.space(c) {
        Some(Space::Square { slot: Some(p), .. }) => p,
        _ => {
            let r: Vec<Move> = Vec::new();
            proof {
                assert(views_of(r@) =~= pseudo_moves_at(b@, c@));
            }
            return r;
        },
    };
    let own = match (p.side, b.side) {
        (Side::White, Side::White) => true,
        (Side::Black, Side::Black) => true,
        _ => false,
    };
    if !own {
        let r: Vec<Move> = Vec::new();
        proof {
            assert(views_of(r@) =~= pseudo_moves_at(b@, c@));
        }
        return r;
    }
    piece_moves_pseudo_exec(b, c, p)
}

/// Whether applying `move_` leaves the mover's own side in check: after the
/// move, some unfiltered opposing reply could capture a king of the side
/// that moved. A move the board cannot apply at all counts as unsafe.
pub fn is_in_check_after_move(board: &Board, move_: &Move) -> (r: bool)
    requires
        board.wf(),
    ensures
        r == in_check_after(board@, move_@),
{
    let side = board.side;
    let next = match get_next_board(board, move_) {
        Ok(nb) => nb,
        Err(_) => {
            return true;
        },
    };
    let ghost nv = next@;
    let mut x: usize = 0;
    while x < next.width
        invariant
            next.wf(),
            nv == next@,
            side == board@.side,
            0 <= x <= next@.width,
            apply_move_spec(board@, move_@) == Ok::<BoardView, crate::logic::IllegalTransition>(nv),
            forall|c: (int, int)| c.0 < x ==> !#[trigger] threatens_king(nv, c, side),
        decreases next@.width - x,
    {
        let mut y: usize = 0;
        while y < next.height
            invariant
                next.wf(),
                nv == next@,
                side == board@.side,
                0 <= x < next@.width,
                0 <= y <= next@.height,
                apply_move_spec(board@, move_@) == Ok::<BoardView, crate::logic::IllegalTransition>(
                    nv,
                ),
                forall|c: (int, int)| c.0 < x ==> !#[trigger] threatens_king(nv, c, side),
                forall|c: (int, int)|
                    c.0 == x && c.1 < y ==> !#[trigger] threatens_king(nv, c, side),
            decreases next@.height - y,
        {
            let c = Coords { x: x as isize, y: y as isize };
            let ms = moves_at_pseudo_exec(&next, c);
            let ghost mvs = pseudo_moves_at(nv, c@);
            let mut i: usize = 0;
            while i < ms.len()
                invariant
                    next.wf(),
                    nv == next@,
                    side == board@.side,
                    views_of(ms@) == mvs,
                    mvs == pseudo_moves_at(nv, c@),
                    ms@.len() == mvs.len(),
                    apply_move_spec(board@, move_@) == Ok::<
                        BoardView,
                        crate::logic::IllegalTransition,
                    >(nv),
                    0 <= i <= ms@.len(),
                    forall|j: int| 0 <= j < i ==> !is_king_capture(nv, #[trigger] mvs[j], side),
                decreases ms@.len() - i,
            {
                let m = ms[i];
                proof {
                    assert(m@ == mvs[i as int]);
                }
                if matches!(m.kind, MoveKind::Capture | MoveKind::EnPassant) {
                    match next.space(m.target) {
                        Some(Space::Square { slot: Some(q), .. }) => {
                            let q_own = match (q.side, side) {
                                (Side::White, Side::White) => true,
                                (Side::Black, Side::Black) => true,
                                _ => false,
                            };
                            if q_own && matches!(q.model, PieceModel::King { .. }) {
                                proof {
                                    assert(is_king_capture(
                                        nv,
                                        pseudo_moves_at(nv, c@)[i as int],
                                        side,
                                    ));
                                    assert(threatens_king(nv, c@, side));
                                    assert(in_check_after(board@, move_@));
                                }
                                return true;
                            }
                        },
                        _ => {},
                    }
                }
                i = i + 1;
            }
            proof {
                assert(!threatens_king(nv, (x as int, y as int), side));
                assert forall|cc: (int, int)|
                    cc.0 == x && cc.1 < y + 1 implies !#[trigger] threatens_king(
                    nv,
                    cc,
                    side,
                ) by {
                    if cc.1 < y {
                    } else {
                        assert(cc == (x as int, y as int));
                    }
                }
            }
            y = y + 1;
        }
        proof {
            assert forall|cc: (int, int)| cc.0 < x + 1 implies !#[trigger] threatens_king(
                nv,
                cc,
                side,
            ) by {
                if cc.0 < x {
                } else {
                    if !(0 <= cc.1 < nv.height) {
                        assert(pseudo_moves_at(nv, cc).len() == 0);
                    }
                }
            }
        }
        x = x + 1;
    }
    proof {
        assert forall|cc: (int, int)| !#[trigger] threatens_king(nv, cc, side) by {
            if 0 <= cc.0 < nv.width {
            } else {
                assert(pseudo_moves_at(nv, cc).len() == 0);
            }
        }
        assert(!in_check_after(board@, move_@));
    }
    false
}

/// Scan for a castle move in direction `dx`, probing each empty square the
/// king would cross for check safety.
fn castle_scan_checked_exec(b: &Board, side: Side, kc: Coords, dx: isize) -> (r: Option<Move>)
    requires
        b.wf(),
        b@.in_bounds(kc@),
        dx == 1 || dx == -1,
    ensures
        option_move_view(r) == castle_scan_checked(b@, side, kc@, dx as int, 1, ray_fuel(b@)),
{
    let ghost full = castle_scan_checked(b@, side, kc@, dx as int, 1, ray_fuel(b@));
    let mut off: usize = 1;
    let mut cur_x: isize = kc.x + dx;
    let mut fuel: usize = b.width + b.height + 1;
    assert(fuel as nat == ray_fuel(b@));
    while fuel > 0
        invariant
            b.wf(),
            b@.in_bounds(kc@),
            dx == 1 || dx == -1,
            1 <= off,
            off <= b@.width + b@.height + 1,
            -1 <= cur_x as int <= b@.width,
            cur_x as int == kc@.0 + dx * off,
            full == castle_scan_checked(b@, side, kc@, dx as int, 1, ray_fuel(b@)),
            full == castle_scan_checked(b@, side, kc@, dx as int, off as int, fuel as nat),
        decreases fuel,
    {
        let rc = Coords { x: cur_x, y: kc.y };
        match b.space(rc) {
            Some(Space::Square { slot: None, .. }) => {
                let probe = Move {
                    source: kc,
                    target: rc,
                    kind: MoveKind::Standard,
                    promotion: None,
                };
                proof {
                    assert(probe@ == mv(kc@, rc@, MoveKindView::Standard));
                }
                if is_in_check_after_move(b, &probe) {
                    proof {
                        assert(castle_scan_checked(
                            b@,
                            side,
                            kc@,
                            dx as int,
                            off as int,
                            fuel as nat,
                        ) is None);
                    }
                    return None;
                }
                proof {
                    assert((dx as int) * (off as int + 1) == (dx as int) * (off as int) + dx)
                        by (nonlinear_arith);
                }
                off = off + 1;
                cur_x = cur_x + dx;
                fuel = fuel - 1;
            },
            Some(Space::Square { slot: Some(p), .. }) => {
                let same_side = match (p.side, side) {
                    (Side::White, Side::White) => true,
                    (Side::Black, Side::Black) => true,
                    _ => false,
                };
                proof {
                    assert(same_side == (p.side == side));
                    assert(piece_at(b@, rc@) == Some(p));
                    assert(!is_empty_square(b@, rc@));
                }
                if matches!(p.model, PieceModel::Rook { can_castle: true }) && off > 2
                    && same_side {
                    let r = Move {
                        source: kc,
                        target: Coords { x: kc.x + 2 * dx, y: kc.y },
                        kind: MoveKind::Castle { rook_coords: rc },
                        promotion: None,
                    };
                    proof {
                        assert(p.model == (PieceModel::Rook { can_castle: true }));
                        assert(r@ == mv(
                            kc@,
                            (kc@.0 + dx * 2, kc@.1),
                            MoveKindView::Castle { rook: rc@ },
                        ));
                    }
                    return Some(r);
                } else {
                    return None;
                }
            },
            _ => {
                return None;
            },
        }
    }
    None
}

/// A piece's candidate moves from the in-bounds cell `c` under check
/// filtering: as the unfiltered generation, except that castling probes the
/// king's path for safety.
fn piece_moves_checked_exec(b: &Board, c: Coords, p: Piece) -> (r: Vec<Move>)
    requires
        b.wf(),
        b@.in_bounds(c@),
    ensures
        views_of(r@) == piece_moves_checked(b@, c@, p),
{
    match p.model {
        PieceModel::King { can_castle } => {
            let mut out: Vec<Move> = Vec::new();
            let ts = king_targets_exec(b, c);
            step_moves_exec(b, p.side, c, &ts, &mut out);
            let ghost ring = step_moves(b@, p.side, c@, king_targets(c@));
            if can_castle && !is_in_check_after_move(b, &Move::skip()) {
                match castle_scan_checked_exec(b, p.side, c, -1) {
                    Some(m) => {
                        out.push(m);
                    },
                    None => {},
                }
                proof {
                    assert(views_of(out@) =~= ring + castle_part_checked(
                        b@,
                        p.side,
                        c@,
                        can_castle,
                        -1,
                    ));
                }
                match castle_scan_checked_exec(b, p.side, c, 1) {
                    Some(m) => {
                        out.push(m);
                    },
                    None => {},
                }
            }
            proof {
                assert(views_of(out@) =~= ring + castle_part_checked(b@, p.side, c@, can_castle, -1)
                    + castle_part_checked(b@, p.side, c@, can_castle, 1));
            }
            out
        },
        _ => {
            let r = piece_moves_pseudo_exec(b, c, p);
            r
        },
    }
}

/// The legal moves from `c`: the checked candidates, kept only when the
/// check-safety oracle accepts them.
pub fn moves_at_legal_exec(b: &Board, c: Coords) -> (r: Vec<Move>)
    requires
        b.wf(),
    ensures
        views_of(r@) == legal_moves_at(b@, c@),
{
    let p = match b.space(c) {
        Some(Space::Square { slot: Some(p), .. }) => p,
        _ => {
            let r: Vec<Move> = Vec::new();
            proof {
                assert(views_of(r@) =~= legal_moves_at(b@, c@));
            }
            return r;
        },
    };
    let own = match (p.side, b.side) {
        (Side::White, Side::White) => true,
        (Side::Black, Side::Black) => true,
        _ => false,
    };
    if !own {
        let r: Vec<Move> = Vec::new();
        proof {
            assert(views_of(r@) =~= legal_moves_at(b@, c@));
        }
        return r;
    }
    let cand = piece_moves_checked_exec(b, c, p);
    let ghost cvs = views_of(cand@);
    proof {
        assert(cvs == checked_moves_at(b@, c@));
        assert(cvs.skip(0) =~= cvs);
    }
    let mut out: Vec<Move> = Vec::new();
    let mut i: usize = 0;
    while i < cand.len()
        invariant
            b.wf(),
            0 <= i <= cand@.len(),
            cvs == views_of(cand@),
            filter_safe(b@, cvs) =~= views_of(out@) + filter_safe(b@, cvs.skip(i as int)),
        decreases cand@.len() - i,
    {
        let m = cand[i];
        proof {
            assert(cvs.skip(i as int).len() > 0);
            assert(cvs.skip(i as int)[0] == m@);
            assert(cvs.skip(i as int).drop_first() =~= cvs.skip(i as int + 1));
        }
        let ghost pre = views_of(out@);
        if !is_in_check_after_move(b, &m) {
            out.push(m);
            proof {
                assert(views_of(out@) =~= pre + seq![m@]);
            }
        }
        i = i + 1;
    }
    proof {
        assert(cvs.skip(cand@.len() as int) =~= Seq::<MoveView>::empty());
        assert(views_of(out@) =~= filter_safe(b@, cvs));
        assert(views_of(out@) == legal_moves_at(b@, c@));
    }
    out
}

/// The mapping that move generation yields: one entry per piece of the side
/// to move, in column-then-row scan order, carrying that piece's offered
/// moves.
pub struct PossibleMoves(pub Vec<(Coords, Vec<Move>)>);

impl View for PossibleMoves {
    type V = Seq<((int, int), Seq<MoveView>)>;

    open spec fn view(&self) -> Seq<((int, int), Seq<MoveView>)> {
        Seq::new(self.0@.len(), |i: int| (self.0@[i].0@, views_of(self.0@[i].1@)))
    }
}

/// The moves recorded for `c`: those of the first entry whose coordinates
/// are `c`, if any.
pub open spec fn lookup_moves(entries: Seq<((int, int), Seq<MoveView>)>, c: (int, int)) -> Option<
    Seq<MoveView>,
>
    decreases entries.len(),
{
    if entries.len() == 0 {
        None
    } else if entries[0].0 == c {
        Some(entries[0].1)
    } else {
        lookup_moves(entries.drop_first(), c)
    }
}

impl PossibleMoves {
    /// The moves recorded for `c`, if any entry carries them.
    pub fn get(&self, c: Coords) -> (r: Option<&Vec<Move>>)
        ensures
            match r {
                Some(ms) => lookup_moves(self@, c@) == Some(views_of(ms@)),
                None => lookup_moves(self@, c@) is None,
            },
    {
        let ghost entries = self@;
        proof {
            assert(entries.skip(0) =~= entries);
        }
        let mut i: usize = 0;
        while i < self.0.len()
            invariant
                0 <= i <= self.0@.len(),
                entries == self@,
                entries.len() == self.0@.len(),
                lookup_moves(entries, c@) == lookup_moves(entries.skip(i as int), c@),
            decreases self.0@.len() - i,
        {
            proof {
                assert(entries.skip(i as int).len() > 0);
                assert(entries.skip(i as int)[0] == entries[i as int]);
                assert(entries.skip(i as int).drop_first() =~= entries.skip(i as int + 1));
            }
            let e = &self.0[i];
            if e.0.x == c.x && e.0.y == c.y {
                proof {
                    assert(e.0@ == c@);
                    assert(entries[i as int].0 == c@);
                }
                return Some(&e.1);
            }
            proof {
                assert(entries[i as int].0 != c@);
            }
            i = i + 1;
        }
        proof {
            assert(entries.skip(entries.len() as int) =~= Seq::<
                ((int, int), Seq<MoveView>),
            >::empty());
        }
        None
    }
}

/// Compute the complete move mapping for the side to move: every piece's
/// moves in column-then-row scan order — the legal moves when
/// `filter_checks` is set, the pseudo-legal ones otherwise.
pub fn compute_possible_moves(board: &Board, filter_checks: bool) -> (r: PossibleMoves)
    requires
        board.wf(),
    ensures
        r@ == possible_moves_spec(board@, filter_checks),
{
    let ghost v = board@;
    let mut entries: Vec<(Coords, Vec<Move>)> = Vec::new();
    let mut x: usize = 0;
    while x < board.width
        invariant
            board.wf(),
            v == board@,
            0 <= x <= v.width,
            cols_entries(v, 0, filter_checks) =~= (PossibleMoves(entries))@ + cols_entries(
                v,
                x as int,
                filter_checks,
            ),
        decreases v.width - x,
    {
        let mut y: usize = 0;
        while y < board.height
            invariant
                board.wf(),
                v == board@,
                0 <= x < v.width,
                0 <= y <= v.height,
                cols_entries(v, 0, filter_checks) =~= (PossibleMoves(entries))@ + col_entries(
                    v,
                    x as int,
                    y as int,
                    filter_checks,
                ) + cols_entries(v, x as int + 1, filter_checks),
            decreases v.height - y,
        {
            let c = Coords { x: x as isize, y: y as isize };
            let own = match board.space(c) {
                Some(Space::Square { slot: Some(p), .. }) => {
                    match (p.side, board.side) {
                        (Side::White, Side::White) => true,
                        (Side::Black, Side::Black) => true,
                        _ => false,
                    }
                },
                _ => false,
            };
            proof {
                assert(own == (piece_at(v, c@) matches Some(p) && p.side == v.side));
            }
            if own {
                let ms = if filter_checks {
                    moves_at_legal_exec(board, c)
                } else {
                    moves_at_pseudo_exec(board, c)
                };
                let ghost pre = (PossibleMoves(entries))@;
                entries.push((c, ms));
                proof {
                    assert((PossibleMoves(entries))@ =~= pre + seq![
                        (c@, moves_at(v, c@, filter_checks)),
                    ]);
                }
            }
            y = y + 1;
        }
        x = x + 1;
    }
    proof {
        assert((PossibleMoves(entries))@ =~= cols_entries(v, 0, filter_checks));
    }
    PossibleMoves(entries)
}

} // verus!
