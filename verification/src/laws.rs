//! Engine-wide laws: properties of move generation and the transition
//! function that hold on every board, stated over the same specifications
//! the executable functions are proved against.

use vstd::prelude::*;

use crate::board::BoardView;
use crate::board::Piece;
use crate::board::PieceModel;
use crate::board::Side;
use crate::layout::board_from_layouts;
use crate::logic::apply_move_spec;
use crate::logic::MoveKindView;
use crate::logic::MoveView;
use crate::movegen::cap_candidate;
use crate::movegen::castle_part;
use crate::movegen::castle_part_checked;
use crate::movegen::castle_scan;
use crate::movegen::castle_scan_checked;
use crate::movegen::checked_moves_at;
use crate::movegen::ep_candidate;
use crate::movegen::filter_safe;
use crate::movegen::in_check_after;
use crate::movegen::legal_moves_at;
use crate::movegen::moves_at;
use crate::movegen::mv;
use crate::movegen::pawn_dir;
use crate::movegen::pawn_forward_part;
use crate::movegen::pawn_moves;
use crate::movegen::piece_at;
use crate::movegen::piece_moves_checked;
use crate::movegen::piece_moves_pseudo;
use crate::movegen::pseudo_moves_at;
use crate::movegen::ray_moves;
use crate::movegen::rays_moves;
use crate::movegen::step_move;
use crate::movegen::step_moves;
use crate::movegen::with_promotions;

verus! {

/// Every move the safety filter keeps is one of the candidates, and one the
/// check-safety oracle accepts.
pub proof fn lemma_filter_safe_member(v: BoardView, ms: Seq<MoveView>, i: int)
    requires
        0 <= i < filter_safe(v, ms).len(),
    ensures
        exists|j: int|
            0 <= j < ms.len() && #[trigger] ms[j] == filter_safe(v, ms)[i] && !in_check_after(
                v,
                ms[j],
            ),
    decreases ms.len(),
{
    if ms.len() == 0 {
    } else {
        let head = (if !in_check_after(v, ms[0]) {
            seq![ms[0]]
        } else {
            Seq::<MoveView>::empty()
        });
        if i < head.len() {
            assert(ms[0] == filter_safe(v, ms)[i] && !in_check_after(v, ms[0]));
        } else {
            lemma_filter_safe_member(v, ms.drop_first(), i - head.len());
            let j0 = choose|j0: int|
                0 <= j0 < ms.drop_first().len() && #[trigger] ms.drop_first()[j0] == filter_safe(
                    v,
                    ms.drop_first(),
                )[i - head.len()] && !in_check_after(v, ms.drop_first()[j0]);
            assert(ms[j0 + 1] == filter_safe(v, ms)[i] && !in_check_after(v, ms[j0 + 1]));
        }
    }
}

/// A successfully applied move always passes the turn to the other side.
pub proof fn lemma_apply_flips_side(v: BoardView, m: MoveView)
    requires
        apply_move_spec(v, m) is Ok,
    ensures
        apply_move_spec(v, m)->Ok_0.side == v.side.spec_other(),
{
}

/// Every legal move applies successfully, and the board it yields has the
/// turn passed to the other side.
pub proof fn lemma_legal_moves_apply(v: BoardView, c: (int, int), i: int)
    requires
        0 <= i < legal_moves_at(v, c).len(),
    ensures
        apply_move_spec(v, legal_moves_at(v, c)[i]) is Ok,
        apply_move_spec(v, legal_moves_at(v, c)[i])->Ok_0.side == v.side.spec_other(),
{
    lemma_filter_safe_member(v, checked_moves_at(v, c), i);
    let m = legal_moves_at(v, c)[i];
    assert(!in_check_after(v, m));
    assert(apply_move_spec(v, m) is Ok);
    lemma_apply_flips_side(v, m);
}

/// Construction is a function of the two layout strings alone: equal layout
/// strings describe equal boards.
pub proof fn lemma_construction_deterministic(
    bs1: Seq<char>,
    ps1: Seq<char>,
    bs2: Seq<char>,
    ps2: Seq<char>,
)
    requires
        bs1 == bs2,
        ps1 == ps2,
    ensures
        board_from_layouts(bs1, ps1) == board_from_layouts(bs2, ps2),
{
}

/// Any move a pawn makes ends its double-step eligibility for good, and its
/// just-dashed marker afterwards reads true exactly when that move was the
/// dash itself.
pub proof fn lemma_pawn_flags_cleared(v: BoardView, m: MoveView)
    requires
        apply_move_spec(v, m) is Ok,
        m.kind !is Skip,
        m.promotion is None,
        piece_at(v, m.source) matches Some(p) && p.model is Pawn,
    ensures
        piece_at(apply_move_spec(v, m)->Ok_0, m.target) matches Some(q) && q.side == piece_at(
            v,
            m.source,
        )->Some_0.side && q.model == (PieceModel::Pawn {
            can_dash: false,
            just_dashed: m.kind is Dash,
        }),
{
}

/// When the safety filter keeps nothing — every candidate move from `c`
/// would leave the mover's own king capturable — the legal-move list for `c`
/// is empty.
pub proof fn lemma_filter_safe_empty(v: BoardView, ms: Seq<MoveView>)
    requires
        forall|i: int| 0 <= i < ms.len() ==> in_check_after(v, #[trigger] ms[i]),
    ensures
        filter_safe(v, ms).len() == 0,
    decreases ms.len(),
{
    if ms.len() == 0 {
    } else {
        assert(in_check_after(v, ms[0]));
        assert(forall|i: int|
            0 <= i < ms.drop_first().len() ==> in_check_after(v, #[trigger] ms.drop_first()[i]));
        lemma_filter_safe_empty(v, ms.drop_first());
    }
}

/// Check filtering can empty a piece's move list: when every checked
/// candidate from `c` is unsafe, generation with filtering yields no move
/// from `c`, whatever the unfiltered generation offers.
pub proof fn lemma_check_filtering_empties(v: BoardView, c: (int, int))
    requires
        forall|i: int|
            0 <= i < checked_moves_at(v, c).len() ==> in_check_after(
                v,
                #[trigger] checked_moves_at(v, c)[i],
            ),
    ensures
        legal_moves_at(v, c).len() == 0,
{
    lemma_filter_safe_empty(v, checked_moves_at(v, c));
}

/// Each step move goes out from `src`, carries no promotion, and is a plain
/// relocation or a capture.
pub proof fn lemma_step_moves_props(
    v: BoardView,
    side: Side,
    src: (int, int),
    ts: Seq<(int, int)>,
    i: int,
)
    requires
        0 <= i < step_moves(v, side, src, ts).len(),
    ensures
        step_moves(v, side, src, ts)[i].source == src,
        step_moves(v, side, src, ts)[i].promotion is None,
        step_moves(v, side, src, ts)[i].kind is Standard || step_moves(v, side, src, ts)[i].kind
            is Capture,
    decreases ts.len(),
{
    if ts.len() == 0 {
    } else {
        let head = (match step_move(v, side, src, ts[0]) {
            Some(m) => seq![m],
            None => Seq::<MoveView>::empty(),
        });
        if i >= head.len() {
            lemma_step_moves_props(v, side, src, ts.drop_first(), i - head.len());
        }
    }
}

/// Each ray move goes out from `src`, carries no promotion, and is a plain
/// relocation or a capture.
pub proof fn lemma_ray_moves_props(
    v: BoardView,
    side: Side,
    src: (int, int),
    dx: int,
    dy: int,
    cx: int,
    cy: int,
    fuel: nat,
    i: int,
)
    requires
        0 <= i < ray_moves(v, side, src, dx, dy, cx, cy, fuel).len(),
    ensures
        ray_moves(v, side, src, dx, dy, cx, cy, fuel)[i].source == src,
        ray_moves(v, side, src, dx, dy, cx, cy, fuel)[i].promotion is None,
        ray_moves(v, side, src, dx, dy, cx, cy, fuel)[i].kind is Standard || ray_moves(
            v,
            side,
            src,
            dx,
            dy,
            cx,
            cy,
            fuel,
        )[i].kind is Capture,
    decreases fuel,
{
    if fuel == 0 {
    } else {
        let t = (cx + dx, cy + dy);
        if crate::movegen::is_empty_square(v, t) {
            if i >= 1 {
                lemma_ray_moves_props(v, side, src, dx, dy, t.0, t.1, (fuel - 1) as nat, i - 1);
            }
        }
    }
}

/// Each slider move goes out from `src`, carries no promotion, and is a
/// plain relocation or a capture.
pub proof fn lemma_rays_moves_props(
    v: BoardView,
    side: Side,
    src: (int, int),
    dirs: Seq<(int, int)>,
    i: int,
)
    requires
        0 <= i < rays_moves(v, side, src, dirs).len(),
    ensures
        rays_moves(v, side, src, dirs)[i].source == src,
        rays_moves(v, side, src, dirs)[i].promotion is None,
        rays_moves(v, side, src, dirs)[i].kind is Standard || rays_moves(v, side, src, dirs)[i].kind
            is Capture,
    decreases dirs.len(),
{
    if dirs.len() == 0 {
    } else {
        let head = ray_moves(v, side, src, dirs[0].0, dirs[0].1, src.0, src.1, crate::movegen::ray_fuel(v));
        if i < head.len() {
            lemma_ray_moves_props(
                v,
                side,
                src,
                dirs[0].0,
                dirs[0].1,
                src.0,
                src.1,
                crate::movegen::ray_fuel(v),
                i,
            );
        } else {
            lemma_rays_moves_props(v, side, src, dirs.drop_first(), i - head.len());
        }
    }
}

/// A castle scan yields nothing or one castle move of the king at `kc`.
pub proof fn lemma_castle_scan_props(
    v: BoardView,
    side: Side,
    kc: (int, int),
    dx: int,
    off: int,
    fuel: nat,
)
    ensures
        castle_scan(v, side, kc, dx, off, fuel) matches Some(m) ==> m.source == kc && m.kind
            is Castle && m.promotion is None,
    decreases fuel,
{
    if fuel != 0 {
        let rc = (kc.0 + dx * off, kc.1);
        if crate::movegen::is_empty_square(v, rc) {
            lemma_castle_scan_props(v, side, kc, dx, off + 1, (fuel - 1) as nat);
        }
    }
}

/// A probing castle scan yields nothing or one castle move of the king at
/// `kc`.
pub proof fn lemma_castle_scan_checked_props(
    v: BoardView,
    side: Side,
    kc: (int, int),
    dx: int,
    off: int,
    fuel: nat,
)
    ensures
        castle_scan_checked(v, side, kc, dx, off, fuel) matches Some(m) ==> m.source == kc && m.kind
            is Castle && m.promotion is None,
    decreases fuel,
{
    if fuel != 0 {
        let rc = (kc.0 + dx * off, kc.1);
        if crate::movegen::is_empty_square(v, rc) {
            lemma_castle_scan_checked_props(v, side, kc, dx, off + 1, (fuel - 1) as nat);
        }
    }
}

/// Whether the pawn move at index `i` stands inside a run of four moves,
/// beginning at index `jb`, that are exactly its four promotion variants.
pub open spec fn promotion_block_at(
    v: BoardView,
    c: (int, int),
    side: Side,
    can_dash: bool,
    i: int,
    jb: int,
) -> bool {
    let ms = pawn_moves(v, c, side, can_dash);
    let m = ms[i];
    &&& 0 <= jb <= i < jb + 4
    &&& jb + 4 <= ms.len()
    &&& forall|k: int|
        0 <= k < 4 ==> #[trigger] ms[jb + k] == with_promotions(
            v,
            side,
            mv(m.source, m.target, m.kind),
        )[k]
}

/// Each promotion-expanded move keeps its base move's endpoints and kind,
/// and carries a promotion choice exactly when the target square forces one.
pub proof fn lemma_with_promotions_props(v: BoardView, side: Side, m: MoveView, i: int)
    requires
        m.promotion is None,
        0 <= i < with_promotions(v, side, m).len(),
    ensures
        with_promotions(v, side, m)[i].source == m.source,
        with_promotions(v, side, m)[i].target == m.target,
        with_promotions(v, side, m)[i].kind == m.kind,
        with_promotions(v, side, m)[i].promotion is Some <==> crate::movegen::promotes_at(
            v,
            m.target,
            side,
        ),
{
}

/// What one pawn move looks like: it leaves from `c`; it is a step, dash,
/// capture or en-passant capture; it carries a promotion choice exactly when
/// its target square forces one, and then it stands in a run of four moves
/// that differ only in the piece chosen; an en-passant capture is offered
/// only against an adjacent enemy pawn that just dashed, and targets the
/// cell diagonally beyond it.
#[verifier::rlimit(100)]
pub proof fn lemma_pawn_move_props(v: BoardView, c: (int, int), side: Side, can_dash: bool, i: int)
    requires
        0 <= i < pawn_moves(v, c, side, can_dash).len(),
    ensures
        pawn_moves(v, c, side, can_dash)[i].source == c,
        pawn_moves(v, c, side, can_dash)[i].kind is Standard || pawn_moves(v, c, side, can_dash)[i].kind
            is Dash || pawn_moves(v, c, side, can_dash)[i].kind is Capture || pawn_moves(
            v,
            c,
            side,
            can_dash,
        )[i].kind is EnPassant,
        pawn_moves(v, c, side, can_dash)[i].promotion is Some <==> crate::movegen::promotes_at(
            v,
            pawn_moves(v, c, side, can_dash)[i].target,
            side,
        ),
        pawn_moves(v, c, side, can_dash)[i].kind is EnPassant ==> (piece_at(
            v,
            (pawn_moves(v, c, side, can_dash)[i].target.0, c.1),
        ) matches Some(q) && q.side != side && q.model matches PieceModel::Pawn {
            just_dashed: true,
            ..
        }) && pawn_moves(v, c, side, can_dash)[i].target.1 == c.1 + pawn_dir(side),
        crate::movegen::promotes_at(v, pawn_moves(v, c, side, can_dash)[i].target, side)
            ==> exists|jb: int| #[trigger] promotion_block_at(v, c, side, can_dash, i, jb),
{
    let ms = pawn_moves(v, c, side, can_dash);
    let m = ms[i];
    let d = pawn_dir(side);
    let fwd = (c.0, c.1 + d);
    let dash = (c.0, c.1 + 2 * d);
    let fp = pawn_forward_part(v, c, side, can_dash);
    let c1 = cap_candidate(v, c, side, (c.0 - 1, c.1 + d));
    let c2 = cap_candidate(v, c, side, (c.0 + 1, c.1 + d));
    if i < fp.len() {
        let wp = with_promotions(v, side, mv(c, fwd, MoveKindView::Standard));
        let dp = (if can_dash && crate::movegen::is_empty_square(v, dash) {
            with_promotions(v, side, mv(c, dash, MoveKindView::Dash))
        } else {
            Seq::<MoveView>::empty()
        });
        let e1 = ep_candidate(v, c, side, c.0 - 1);
        let e2 = ep_candidate(v, c, side, c.0 + 1);
        assert(fp =~= wp + dp + e1 + e2);
        if i < wp.len() {
            lemma_with_promotions_props(v, side, mv(c, fwd, MoveKindView::Standard), i);
            assert(m == wp[i]);
            lemma_pawn_block(v, c, side, can_dash, i, 0, mv(c, fwd, MoveKindView::Standard));
        } else if i < wp.len() + dp.len() {
            lemma_with_promotions_props(v, side, mv(c, dash, MoveKindView::Dash), i - wp.len());
            assert(m == dp[i - wp.len()]);
            lemma_pawn_block(
                v,
                c,
                side,
                can_dash,
                i,
                wp.len() as int,
                mv(c, dash, MoveKindView::Dash),
            );
        } else if i < wp.len() + dp.len() + e1.len() {
            let base = mv(c, (c.0 - 1, c.1 + d), MoveKindView::EnPassant);
            lemma_with_promotions_props(v, side, base, i - wp.len() - dp.len());
            assert(m == e1[i - wp.len() - dp.len()]);
            lemma_pawn_block(v, c, side, can_dash, i, (wp.len() + dp.len()) as int, base);
        } else {
            let base = mv(c, (c.0 + 1, c.1 + d), MoveKindView::EnPassant);
            lemma_with_promotions_props(v, side, base, i - wp.len() - dp.len() - e1.len());
            assert(m == e2[i - wp.len() - dp.len() - e1.len()]);
            lemma_pawn_block(v, c, side, can_dash, i, (wp.len() + dp.len() + e1.len()) as int, base);
        }
    } else if i < fp.len() + c1.len() {
        let base = mv(c, (c.0 - 1, c.1 + d), MoveKindView::Capture);
        lemma_with_promotions_props(v, side, base, i - fp.len());
        assert(m == c1[i - fp.len()]);
        lemma_pawn_block(v, c, side, can_dash, i, fp.len() as int, base);
    } else {
        let base = mv(c, (c.0 + 1, c.1 + d), MoveKindView::Capture);
        lemma_with_promotions_props(v, side, base, i - fp.len() - c1.len());
        assert(m == c2[i - fp.len() - c1.len()]);
        lemma_pawn_block(v, c, side, can_dash, i, (fp.len() + c1.len()) as int, base);
    }
}

/// When index `i` of a pawn's move list falls in the promotion-expanded
/// block that starts at `jb` and was built from `base`, and the base's
/// target forces promotion, the whole run of four variants stands there.
proof fn lemma_pawn_block(
    v: BoardView,
    c: (int, int),
    side: Side,
    can_dash: bool,
    i: int,
    jb: int,
    base: MoveView,
)
    requires
        base.promotion is None,
        0 <= jb <= i < jb + with_promotions(v, side, base).len(),
        jb + with_promotions(v, side, base).len() <= pawn_moves(v, c, side, can_dash).len(),
        forall|k: int|
            0 <= k < with_promotions(v, side, base).len() ==> #[trigger] pawn_moves(
                v,
                c,
                side,
                can_dash,
            )[jb + k] == with_promotions(v, side, base)[k],
    ensures
        crate::movegen::promotes_at(v, pawn_moves(v, c, side, can_dash)[i].target, side)
            ==> exists|jb2: int| #[trigger] promotion_block_at(v, c, side, can_dash, i, jb2),
{
    let ms = pawn_moves(v, c, side, can_dash);
    let m = ms[i];
    assert(ms[jb + (i - jb)] == with_promotions(v, side, base)[i - jb]);
    assert(m == with_promotions(v, side, base)[i - jb]);
    lemma_with_promotions_props(v, side, base, i - jb);
    if crate::movegen::promotes_at(v, m.target, side) {
        assert(m.target == base.target);
        assert(mv(m.source, m.target, m.kind) == base);
        assert(with_promotions(v, side, base).len() == 4);
        assert(promotion_block_at(v, c, side, can_dash, i, jb));
    }
}

/// A king that has lost its castling right never yields a castle move,
/// whatever the rooks' positions, with or without check filtering.
pub proof fn lemma_no_castle_without_right(v: BoardView, c: (int, int), filtered: bool, i: int)
    requires
        piece_at(v, c) matches Some(p) && p.model == (PieceModel::King { can_castle: false }),
        0 <= i < moves_at(v, c, filtered).len(),
    ensures
        moves_at(v, c, filtered)[i].kind !is Castle,
{
    let p = piece_at(v, c)->Some_0;
    if p.side == v.side {
        let ring = step_moves(v, p.side, c, crate::movegen::king_targets(c));
        if filtered {
            assert(castle_part_checked(v, p.side, c, false, -1) =~= Seq::<MoveView>::empty());
            assert(castle_part_checked(v, p.side, c, false, 1) =~= Seq::<MoveView>::empty());
            assert(checked_moves_at(v, c) =~= ring);
            lemma_filter_safe_member(v, checked_moves_at(v, c), i);
            let j = choose|j: int|
                0 <= j < checked_moves_at(v, c).len() && #[trigger] checked_moves_at(v, c)[j]
                    == legal_moves_at(v, c)[i] && !in_check_after(v, checked_moves_at(v, c)[j]);
            lemma_step_moves_props(v, p.side, c, crate::movegen::king_targets(c), j);
        } else {
            assert(castle_part(v, p.side, c, false, -1) =~= Seq::<MoveView>::empty());
            assert(castle_part(v, p.side, c, false, 1) =~= Seq::<MoveView>::empty());
            assert(pseudo_moves_at(v, c) =~= ring);
            lemma_step_moves_props(v, p.side, c, crate::movegen::king_targets(c), i);
        }
    }
}

/// What one generated candidate move looks like, for any piece kind: it
/// leaves from `c`, and an en-passant capture is offered only by a pawn
/// standing beside an enemy pawn that just dashed, targeting the cell
/// diagonally beyond it; a pawn move onto a square that forces promotion
/// always carries a promotion choice.
proof fn lemma_piece_member_props(v: BoardView, c: (int, int), p: Piece, checked: bool, j: int)
    requires
        0 <= j < (if checked {
            piece_moves_checked(v, c, p)
        } else {
            piece_moves_pseudo(v, c, p)
        }).len(),
    ensures
        ({
            let ms = if checked {
                piece_moves_checked(v, c, p)
            } else {
                piece_moves_pseudo(v, c, p)
            };
            &&& ms[j].source == c
            &&& ms[j].kind is EnPassant ==> p.model is Pawn && (piece_at(
                v,
                (ms[j].target.0, c.1),
            ) matches Some(q) && q.side != p.side && q.model matches PieceModel::Pawn {
                just_dashed: true,
                ..
            }) && ms[j].target.1 == c.1 + pawn_dir(p.side)
            &&& p.model is Pawn && crate::movegen::promotes_at(v, ms[j].target, p.side)
                ==> ms[j].promotion is Some
        }),
{
    let ms = if checked {
        piece_moves_checked(v, c, p)
    } else {
        piece_moves_pseudo(v, c, p)
    };
    match p.model {
        PieceModel::King { can_castle } => {
            let ring = step_moves(v, p.side, c, crate::movegen::king_targets(c));
            if checked {
                let cp1 = castle_part_checked(v, p.side, c, can_castle, -1);
                let cp2 = castle_part_checked(v, p.side, c, can_castle, 1);
                assert(ms == ring + cp1 + cp2);
                if j < ring.len() {
                    lemma_step_moves_props(v, p.side, c, crate::movegen::king_targets(c), j);
                    assert(ms[j] == ring[j]);
                } else if j < ring.len() + cp1.len() {
                    lemma_castle_scan_checked_props(
                        v,
                        p.side,
                        c,
                        -1,
                        1,
                        crate::movegen::ray_fuel(v),
                    );
                    assert(ms[j] == cp1[j - ring.len()]);
                } else {
                    lemma_castle_scan_checked_props(v, p.side, c, 1, 1, crate::movegen::ray_fuel(v));
                    assert(ms[j] == cp2[j - ring.len() - cp1.len()]);
                }
            } else {
                let cp1 = castle_part(v, p.side, c, can_castle, -1);
                let cp2 = castle_part(v, p.side, c, can_castle, 1);
                assert(ms == ring + cp1 + cp2);
                if j < ring.len() {
                    lemma_step_moves_props(v, p.side, c, crate::movegen::king_targets(c), j);
                    assert(ms[j] == ring[j]);
                } else if j < ring.len() + cp1.len() {
                    lemma_castle_scan_props(v, p.side, c, -1, 1, crate::movegen::ray_fuel(v));
                    assert(ms[j] == cp1[j - ring.len()]);
                } else {
                    lemma_castle_scan_props(v, p.side, c, 1, 1, crate::movegen::ray_fuel(v));
                    assert(ms[j] == cp2[j - ring.len() - cp1.len()]);
                }
            }
        },
        PieceModel::Queen => {
            lemma_rays_moves_props(v, p.side, c, crate::movegen::queen_dirs(), j);
        },
        PieceModel::Bishop => {
            lemma_rays_moves_props(v, p.side, c, crate::movegen::bishop_dirs(), j);
        },
        PieceModel::Rook { .. } => {
            lemma_rays_moves_props(v, p.side, c, crate::movegen::rook_dirs(), j);
        },
        PieceModel::Knight => {
            lemma_step_moves_props(v, p.side, c, crate::movegen::knight_targets(c), j);
        },
        PieceModel::Pawn { can_dash, .. } => {
            lemma_pawn_move_props(v, c, p.side, can_dash, j);
        },
    }
}

/// An en-passant capture is offered from `c` — with or without check
/// filtering — only when `c` holds a pawn of the side to move and the cell
/// beside it on the target's file holds an enemy pawn that just dashed; the
/// capture goes to the cell diagonally beyond that pawn.
pub proof fn lemma_en_passant_precondition(v: BoardView, c: (int, int), filtered: bool, i: int)
    requires
        0 <= i < moves_at(v, c, filtered).len(),
        moves_at(v, c, filtered)[i].kind is EnPassant,
    ensures
        piece_at(v, c) matches Some(p) && p.side == v.side && p.model is Pawn,
        moves_at(v, c, filtered)[i].source == c,
        piece_at(v, (moves_at(v, c, filtered)[i].target.0, c.1)) matches Some(q) && q.side
            != v.side && q.model matches PieceModel::Pawn { just_dashed: true, .. },
        moves_at(v, c, filtered)[i].target.1 == c.1 + pawn_dir(v.side),
{
    let m = moves_at(v, c, filtered)[i];
    let p = piece_at(v, c)->Some_0;
    assert(piece_at(v, c) matches Some(p2) && p2.side == v.side);
    if filtered {
        lemma_filter_safe_member(v, checked_moves_at(v, c), i);
        let j = choose|j: int|
            0 <= j < checked_moves_at(v, c).len() && #[trigger] checked_moves_at(v, c)[j]
                == filter_safe(v, checked_moves_at(v, c))[i] && !in_check_after(
                v,
                checked_moves_at(v, c)[j],
            );
        lemma_piece_member_props(v, c, p, true, j);
        if !(p.model is Pawn) {
            assert(piece_moves_checked(v, c, p)[j].kind is EnPassant);
            assert(false);
        }
    } else {
        lemma_piece_member_props(v, c, p, false, i);
        if !(p.model is Pawn) {
            assert(piece_moves_pseudo(v, c, p)[i].kind is EnPassant);
            assert(false);
        }
    }
}

/// A pawn move onto a square that forces promotion always carries a
/// promotion choice — never a plain step, dash or capture — with or without
/// check filtering.
pub proof fn lemma_promotion_never_plain(v: BoardView, c: (int, int), filtered: bool, i: int)
    requires
        piece_at(v, c) matches Some(p) && p.model is Pawn,
        0 <= i < moves_at(v, c, filtered).len(),
        crate::movegen::promotes_at(v, moves_at(v, c, filtered)[i].target, v.side),
    ensures
        moves_at(v, c, filtered)[i].promotion is Some,
{
    let p = piece_at(v, c)->Some_0;
    assert(p.side == v.side);
    if filtered {
        lemma_filter_safe_member(v, checked_moves_at(v, c), i);
        let j = choose|j: int|
            0 <= j < checked_moves_at(v, c).len() && #[trigger] checked_moves_at(v, c)[j]
                == filter_safe(v, checked_moves_at(v, c))[i] && !in_check_after(
                v,
                checked_moves_at(v, c)[j],
            );
        lemma_piece_member_props(v, c, p, true, j);
    } else {
        lemma_piece_member_props(v, c, p, false, i);
    }
}

/// Promotion expansion, for the unfiltered generation: a pawn move onto a
/// square that forces promotion stands in a run of exactly four variants of
/// one base move — becoming a queen, a bishop, a knight and a rook, in that
/// order — and carries one of those choices itself.
pub proof fn lemma_promotion_expansion(v: BoardView, c: (int, int), i: int)
    requires
        piece_at(v, c) matches Some(p) && p.side == v.side && p.model is Pawn,
        0 <= i < pseudo_moves_at(v, c).len(),
        crate::movegen::promotes_at(v, pseudo_moves_at(v, c)[i].target, v.side),
    ensures
        pseudo_moves_at(v, c)[i].promotion is Some,
        exists|jb: int|
            #[trigger] promotion_block_at(
                v,
                c,
                v.side,
                piece_at(v, c)->Some_0.model->can_dash,
                i,
                jb,
            ),
{
    let p = piece_at(v, c)->Some_0;
    let can_dash = p.model->can_dash;
    assert(pseudo_moves_at(v, c) == pawn_moves(v, c, v.side, can_dash));
    lemma_pawn_move_props(v, c, v.side, can_dash, i);
}

} // verus!
