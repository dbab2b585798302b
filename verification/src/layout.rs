//! Board construction from a pair of text layouts: one block of bytes naming
//! the pieces, one naming the promotion zones. Rows are trimmed, blank rows
//! discarded, and the remaining rows are read bottom-to-top, so the last
//! non-blank line of the text becomes row `y = 0`.

use vstd::prelude::*;

use crate::board::Board;
use crate::board::BoardView;
use crate::board::Piece;
use crate::board::PieceModel;
use crate::board::Side;
use crate::board::Space;
use crate::board::MAX_DIM;
use crate::grid::grid_new;

verus! {

/// The row separator.
pub const NEWLINE: u8 = 10;

/// The bytes that row trimming removes at either end of a row: ASCII
/// whitespace, that is space and the control characters tab through carriage
/// return.
pub open spec fn is_layout_ws(b: u8) -> bool {
    b == 32 || (9 <= b && b <= 13)
}

/// The bytes of an ASCII string, one per character.
pub open spec fn ascii_bytes(s: Seq<char>) -> Seq<u8> {
    Seq::new(s.len(), |i: int| s[i] as u8)
}

/// Index of the first byte at or after `i` that is not whitespace, or the
/// length when only whitespace follows.
pub open spec fn trim_start_idx(s: Seq<u8>, i: int) -> int
    decreases s.len() - i,
{
    if 0 <= i < s.len() && is_layout_ws(s[i]) {
        trim_start_idx(s, i + 1)
    } else {
        i
    }
}

/// Index just past the last byte before `i` that is not whitespace, or zero
/// when only whitespace precedes.
pub open spec fn trim_end_idx(s: Seq<u8>, i: int) -> int
    decreases i,
{
    if 0 < i <= s.len() && is_layout_ws(s[i - 1]) {
        trim_end_idx(s, i - 1)
    } else {
        i
    }
}

/// A row with the whitespace at both ends removed.
pub open spec fn trim_row(s: Seq<u8>) -> Seq<u8> {
    let a = trim_start_idx(s, 0);
    let b = trim_end_idx(s, s.len() as int);
    if a <= b {
        s.subrange(a, b)
    } else {
        Seq::empty()
    }
}

/// A trimmed row as a zero- or one-element sequence of rows: blank rows are
/// discarded.
pub open spec fn opt_row(line: Seq<u8>) -> Seq<Seq<u8>> {
    if trim_row(line).len() == 0 {
        Seq::empty()
    } else {
        seq![trim_row(line)]
    }
}

/// The trimmed, non-blank rows of `s` in text order, scanning from byte `i`
/// with the current row beginning at `start`.
pub open spec fn rows_from(s: Seq<u8>, start: int, i: int) -> Seq<Seq<u8>>
    decreases s.len() - i,
{
    if i >= s.len() {
        opt_row(s.subrange(start, s.len() as int))
    } else if s[i] == NEWLINE {
        opt_row(s.subrange(start, i)) + rows_from(s, i + 1, i + 1)
    } else {
        rows_from(s, start, i + 1)
    }
}

/// The rows of a layout, bottom-to-top: the trimmed, non-blank lines of the
/// text in reverse order.
pub open spec fn layout_rows(s: Seq<u8>) -> Seq<Seq<u8>> {
    rows_from(s, 0, 0).reverse()
}

/// The piece a layout byte stands for: uppercase letters are White pieces,
/// lowercase Black; any unrecognized byte is an empty slot. Kings and rooks
/// start able to castle; pawns start able to dash.
pub open spec fn decode_slot(b: u8) -> Option<Piece> {
    if b == 75 {  // K
        Some(Piece { side: Side::White, model: PieceModel::King { can_castle: true } })
    } else if b == 81 {  // Q
        Some(Piece { side: Side::White, model: PieceModel::Queen })
    } else if b == 82 {  // R
        Some(Piece { side: Side::White, model: PieceModel::Rook { can_castle: true } })
    } else if b == 66 {  // B
        Some(Piece { side: Side::White, model: PieceModel::Bishop })
    } else if b == 78 {  // N
        Some(Piece { side: Side::White, model: PieceModel::Knight })
    } else if b == 80 {  // P
        Some(
            Piece {
                side: Side::White,
                model: PieceModel::Pawn { can_dash: true, just_dashed: false },
            },
        )
    } else if b == 107 {  // k
        Some(Piece { side: Side::Black, model: PieceModel::King { can_castle: true } })
    } else if b == 113 {  // q
        Some(Piece { side: Side::Black, model: PieceModel::Queen })
    } else if b == 114 {  // r
        Some(Piece { side: Side::Black, model: PieceModel::Rook { can_castle: true } })
    } else if b == 98 {  // b
        Some(Piece { side: Side::Black, model: PieceModel::Bishop })
    } else if b == 110 {  // n
        Some(Piece { side: Side::Black, model: PieceModel::Knight })
    } else if b == 112 {  // p
        Some(
            Piece {
                side: Side::Black,
                model: PieceModel::Pawn { can_dash: true, just_dashed: false },
            },
        )
    } else {
        None
    }
}

/// The promotion flags a layout byte stands for, as (White promotes, Black
/// promotes): `P`, `w` or `W` marks a White zone, `p`, `b` or `B` a Black
/// zone, `*` both, anything else neither.
pub open spec fn decode_promotes(b: u8) -> (bool, bool) {
    if b == 80 || b == 119 || b == 87 {  // P w W
        (true, false)
    } else if b == 112 || b == 98 || b == 66 {  // p b B
        (false, true)
    } else if b == 42 {  // *
        (true, true)
    } else {
        (false, false)
    }
}

/// The space one cell of the two layouts stands for: the piece-layout byte
/// `X` is a hole; anything else is a square whose slot and promotion flags
/// the two bytes decode to.
pub open spec fn decode_space(bb: u8, pb: u8) -> Space {
    if bb == 88 {  // X
        Space::Hole
    } else {
        Space::Square {
            slot: decode_slot(bb),
            promotes_white: decode_promotes(pb).0,
            promotes_black: decode_promotes(pb).1,
        }
    }
}

/// Whether every row of a layout is exactly `w` bytes wide.
pub open spec fn all_width(rows: Seq<Seq<u8>>, w: int) -> bool {
    forall|k: int| 0 <= k < rows.len() ==> (#[trigger] rows[k]).len() == w
}

/// Whether every row of both layouts is exactly `w` bytes wide.
pub open spec fn rows_consistent(brows: Seq<Seq<u8>>, prows: Seq<Seq<u8>>, w: int) -> bool {
    all_width(brows, w) && all_width(prows, w)
}

/// The board two layout byte blocks describe, or the message telling why they
/// describe none: the two blocks must have the same number of non-blank rows,
/// at least one, and every row of either block must be as wide as the first.
/// White moves first and nothing is captured yet.
pub open spec fn board_from_layout_bytes(bb: Seq<u8>, pb: Seq<u8>) -> Result<
    BoardView,
    Seq<char>,
> {
    let brows = layout_rows(bb);
    let prows = layout_rows(pb);
    if brows.len() != prows.len() {
        Err("Board strings have different row counts"@)
    } else if brows.len() == 0 {
        Err("Board strings are empty"@)
    } else {
        let h = brows.len() as int;
        let w = brows[0].len() as int;
        if !rows_consistent(brows, prows, w) {
            Err("Inconsistent row sizes across board strings"@)
        } else {
            Ok(
                BoardView {
                    width: w,
                    height: h,
                    grid: Map::new(
                        |c: (int, int)| 0 <= c.0 < w && 0 <= c.1 < h,
                        |c: (int, int)| decode_space(brows[c.1][c.0], prows[c.1][c.0]),
                    ),
                    side: Side::White,
                    captured: Seq::empty(),
                },
            )
        }
    }
}

/// The board two layout strings describe, or the message telling why they
/// describe none. Both strings must be ASCII; the rest is
/// `board_from_layout_bytes` on their bytes.
pub open spec fn board_from_layouts(bs: Seq<char>, ps: Seq<char>) -> Result<
    BoardView,
    Seq<char>,
> {
    if !(vstd::utf8::is_ascii_chars(bs) && vstd::utf8::is_ascii_chars(ps)) {
        Err("Non-ASCII characters in board strings"@)
    } else {
        board_from_layout_bytes(ascii_bytes(bs), ascii_bytes(ps))
    }
}

/// The views of a sequence of byte vectors.
pub open spec fn rows_view(rs: Seq<Vec<u8>>) -> Seq<Seq<u8>> {
    Seq::new(rs.len(), |i: int| rs[i]@)
}

proof fn lemma_trim_start_idx(s: Seq<u8>, i: int)
    requires
        0 <= i <= s.len(),
    ensures
        i <= trim_start_idx(s, i) <= s.len(),
    decreases s.len() - i,
{
    if 0 <= i < s.len() && is_layout_ws(s[i]) {
        lemma_trim_start_idx(s, i + 1);
    }
}

proof fn lemma_trim_end_idx(s: Seq<u8>, i: int)
    requires
        0 <= i <= s.len(),
    ensures
        0 <= trim_end_idx(s, i) <= i,
    decreases i,
{
    if 0 < i <= s.len() && is_layout_ws(s[i - 1]) {
        lemma_trim_end_idx(s, i - 1);
    }
}

proof fn lemma_trim_row_len(s: Seq<u8>)
    ensures
        trim_row(s).len() <= s.len(),
{
    lemma_trim_start_idx(s, 0);
    lemma_trim_end_idx(s, s.len() as int);
}

/// A layout has at most one row per byte scanned plus the final one; rows are
/// never blank and never wider than the whole text.
proof fn lemma_rows_from_bounds(s: Seq<u8>, start: int, i: int)
    requires
        0 <= start <= i <= s.len(),
    ensures
        rows_from(s, start, i).len() <= s.len() - i + 1,
        forall|k: int|
            0 <= k < rows_from(s, start, i).len() ==> 1 <= #[trigger] rows_from(
                s,
                start,
                i,
            )[k].len() <= s.len(),
    decreases s.len() - i,
{
    if i >= s.len() {
        lemma_trim_row_len(s.subrange(start, s.len() as int));
    } else if s[i] == NEWLINE {
        lemma_trim_row_len(s.subrange(start, i));
        lemma_rows_from_bounds(s, i + 1, i + 1);
    } else {
        lemma_rows_from_bounds(s, start, i + 1);
    }
}

/// Remove the whitespace at both ends of a row.
fn trim_bytes(v: &Vec<u8>) -> (r: Vec<u8>)
    ensures
        r@ == trim_row(v@),
{
    let mut a: usize = 0;
    while a < v.len() && (v[a] == 32 || (9 <= v[a] && v[a] <= 13))
        invariant
            0 <= a <= v@.len(),
            trim_start_idx(v@, 0) == trim_start_idx(v@, a as int),
        decreases v@.len() - a,
    {
        a = a + 1;
    }
    let mut b: usize = v.len();
    while b > 0 && (v[b - 1] == 32 || (9 <= v[b - 1] && v[b - 1] <= 13))
        invariant
            0 <= b <= v@.len(),
            trim_end_idx(v@, v@.len() as int) == trim_end_idx(v@, b as int),
        decreases b,
    {
        b = b - 1;
    }
    assert(trim_start_idx(v@, 0) == a as int);
    assert(trim_end_idx(v@, v@.len() as int) == b as int);
    let mut r: Vec<u8> = Vec::new();
    if a >= b {
        assert(r@ =~= trim_row(v@));
        return r;
    }
    let mut i: usize = a;
    while i < b
        invariant
            a <= i <= b <= v@.len(),
            r@ == v@.subrange(a as int, i as int),
        decreases b - i,
    {
        r.push(v[i]);
        i = i + 1;
    }
    proof {
        assert(r@ =~= trim_row(v@));
    }
    r
}

/// Split a layout into its trimmed, non-blank rows, in text order.
fn parse_rows(b: &[u8]) -> (rows: Vec<Vec<u8>>)
    ensures
        rows_view(rows@) == rows_from(b@, 0, 0),
{
    let mut rows: Vec<Vec<u8>> = Vec::new();
    let mut cur: Vec<u8> = Vec::new();
    let ghost mut start: int = 0;
    let mut i: usize = 0;
    while i < b.len()
        invariant
            0 <= i <= b@.len(),
            0 <= start <= i,
            cur@ == b@.subrange(start, i as int),
            rows_from(b@, 0, 0) =~= rows_view(rows@) + rows_from(b@, start, i as int),
        decreases b@.len() - i,
    {
        let byte = b[i];
        if byte == NEWLINE {
            let t = trim_bytes(&cur);
            if t.len() > 0 {
                let ghost old_rows = rows@;
                rows.push(t);
                proof {
                    assert(rows_view(rows@) =~= rows_view(old_rows) + opt_row(
                        b@.subrange(start, i as int),
                    ));
                }
            } else {
                assert(opt_row(b@.subrange(start, i as int)) =~= Seq::<Seq<u8>>::empty());
            }
            cur = Vec::new();
            proof {
                start = i + 1;
            }
        } else {
            cur.push(byte);
        }
        i = i + 1;
        assert(cur@ =~= b@.subrange(start, i as int));
    }
    let t = trim_bytes(&cur);
    if t.len() > 0 {
        let ghost old_rows = rows@;
        rows.push(t);
        proof {
            assert(rows_view(rows@) =~= rows_view(old_rows) + opt_row(
                b@.subrange(start, b@.len() as int),
            ));
        }
    }
    proof {
        assert(rows_view(rows@) =~= rows_from(b@, 0, 0));
    }
    rows
}

/// Reverse a sequence of rows, so text order becomes bottom-to-top order.
fn reverse_rows(v: Vec<Vec<u8>>) -> (r: Vec<Vec<u8>>)
    ensures
        rows_view(r@) == rows_view(v@).reverse(),
{
    let ghost orig = v@;
    let mut v = v;
    let mut r: Vec<Vec<u8>> = Vec::new();
    while v.len() > 0
        invariant
            r@.len() + v@.len() == orig.len(),
            v@ == orig.subrange(0, v@.len() as int),
            forall|k: int| 0 <= k < r@.len() ==> #[trigger] r@[k]@ == orig[orig.len() - 1 - k]@,
        decreases v@.len(),
    {
        let ghost prev = v@;
        let t = v.pop().unwrap();
        assert(prev.subrange(0, prev.len() - 1) =~= orig.subrange(0, prev.len() - 1));
        r.push(t);
    }
    proof {
        assert(rows_view(r@) =~= rows_view(orig).reverse());
    }
    r
}

/// Flat column-major indices stay inside the vector: with `0 <= b < h` and
/// `0 <= a <= x`, the index `a * h + b` lies below `(x + 1) * h`.
proof fn lemma_col_index(x: int, h: int, a: int, b: int)
    requires
        0 <= b < h,
        0 <= a <= x,
    ensures
        (x + 1) * h == x * h + h,
        0 <= a * h + b,
        a * h + b < (x + 1) * h,
{
    assert((x + 1) * h == x * h + h) by (nonlinear_arith);
    assert(0 <= a * h + b) by (nonlinear_arith)
        requires
            0 <= h,
            0 <= b,
            0 <= a,
    ;
    assert(a * h + b < (x + 1) * h) by (nonlinear_arith)
        requires
            0 <= b < h,
            0 <= a <= x,
    ;
}

/// Decode one cell of the two layouts.
fn decode_space_exec(bb: u8, pb: u8) -> (s: Space)
    ensures
        s == decode_space(bb, pb),
{
    if bb == 88 {
        Space::Hole
    } else {
        let slot = if bb == 75 {
            Some(Piece { side: Side::White, model: PieceModel::King { can_castle: true } })
        } else if bb == 81 {
            Some(Piece { side: Side::White, model: PieceModel::Queen })
        } else if bb == 82 {
            Some(Piece { side: Side::White, model: PieceModel::Rook { can_castle: true } })
        } else if bb == 66 {
            Some(Piece { side: Side::White, model: PieceModel::Bishop })
        } else if bb == 78 {
            Some(Piece { side: Side::White, model: PieceModel::Knight })
        } else if bb == 80 {
            Some(
                Piece {
                    side: Side::White,
                    model: PieceModel::Pawn { can_dash: true, just_dashed: false },
                },
            )
        } else if bb == 107 {
            Some(Piece { side: Side::Black, model: PieceModel::King { can_castle: true } })
        } else if bb == 113 {
            Some(Piece { side: Side::Black, model: PieceModel::Queen })
        } else if bb == 114 {
            Some(Piece { side: Side::Black, model: PieceModel::Rook { can_castle: true } })
        } else if bb == 98 {
            Some(Piece { side: Side::Black, model: PieceModel::Bishop })
        } else if bb == 110 {
            Some(Piece { side: Side::Black, model: PieceModel::Knight })
        } else if bb == 112 {
            Some(
                Piece {
                    side: Side::Black,
                    model: PieceModel::Pawn { can_dash: true, just_dashed: false },
                },
            )
        } else {
            None
        };
        let promotes = if pb == 80 || pb == 119 || pb == 87 {
            (true, false)
        } else if pb == 112 || pb == 98 || pb == 66 {
            (false, true)
        } else if pb == 42 {
            (true, true)
        } else {
            (false, false)
        };
        Space::Square { slot, promotes_white: promotes.0, promotes_black: promotes.1 }
    }
}

impl Board {
    /// Build the starting board two layout strings describe, reading their
    /// rows bottom-to-top, or report why they describe none, exactly as
    /// `board_from_layouts` says. The length bound keeps the board's extent
    /// within what coordinates can address on this machine.
    pub fn from_strings(board_string: &str, promotion_string: &str) -> (r: Result<
        Board,
        &'static str,
    >)
        requires
            board_string@.len() < MAX_DIM,
        ensures
            r is Ok <==> board_from_layouts(board_string@, promotion_string@) is Ok,
            r matches Ok(b) ==> b.wf() && b@ == board_from_layouts(
                board_string@,
                promotion_string@,
            )->Ok_0,
            r matches Err(m) ==> board_from_layouts(board_string@, promotion_string@) matches Err(
                s,
            ) && m@ == s,
    {
        if !(board_string.is_ascii() && promotion_string.is_ascii()) {
            return Err("Non-ASCII characters in board strings");
        }
        proof {
            vstd::string::is_ascii_spec_bytes(board_string);
            vstd::string::is_ascii_spec_bytes(promotion_string);
        }
        let bb = board_string.as_bytes();
        let pb = promotion_string.as_bytes();
        proof {
            assert(bb@ =~= ascii_bytes(board_string@));
            assert(pb@ =~= ascii_bytes(promotion_string@));
        }

        let brows = reverse_rows(parse_rows(bb));
        let prows = reverse_rows(parse_rows(pb));
        let ghost sbrows = layout_rows(bb@);
        let ghost sprows = layout_rows(pb@);
        assert(rows_view(brows@) == sbrows);
        assert(rows_view(prows@) == sprows);

        let h = brows.len();
        if h != prows.len() {
            return Err("Board strings have different row counts");
        }
        if h == 0 {
            return Err("Board strings are empty");
        }
        let w = brows[0].len();
        proof {
            lemma_rows_from_bounds(bb@, 0, 0);
            assert(sbrows[0] == rows_from(bb@, 0, 0)[h - 1]);
            assert(sbrows[0] == brows@[0]@);
            assert(0 < w < MAX_DIM);
            assert(h <= MAX_DIM);
        }

        let ghost bsb = ascii_bytes(board_string@);
        let ghost psb = ascii_bytes(promotion_string@);
        let mut k: usize = 0;
        while k < h
            invariant
                0 <= k <= h,
                h == sbrows.len(),
                h == sprows.len(),
                sbrows == layout_rows(bsb),
                sprows == layout_rows(psb),
                bsb == ascii_bytes(board_string@),
                psb == ascii_bytes(promotion_string@),
                vstd::utf8::is_ascii_chars(board_string@),
                vstd::utf8::is_ascii_chars(promotion_string@),
                rows_view(brows@) == sbrows,
                rows_view(prows@) == sprows,
                brows@.len() == h,
                prows@.len() == h,
                w == sbrows[0].len(),
                forall|j: int| 0 <= j < k ==> (#[trigger] sbrows[j]).len() == w,
                forall|j: int| 0 <= j < k ==> (#[trigger] sprows[j]).len() == w,
            decreases h - k,
        {
            assert(sbrows[k as int] == brows@[k as int]@);
            assert(sprows[k as int] == prows@[k as int]@);
            if brows[k].len() != w || prows[k].len() != w {
                proof {
                    assert(sbrows[k as int].len() != w || sprows[k as int].len() != w);
                    assert(!rows_consistent(sbrows, sprows, w as int));
                    assert(board_from_layout_bytes(bsb, psb) == Err::<BoardView, Seq<char>>(
                        "Inconsistent row sizes across board strings"@,
                    ));
                }
                return Err("Inconsistent row sizes across board strings");
            }
            k = k + 1;
        }
        assert(rows_consistent(sbrows, sprows, w as int));

        let mut cells: Vec<Space> = Vec::new();
        let mut x: usize = 0;
        while x < w
            invariant
                0 <= x <= w,
                h == sbrows.len(),
                h == sprows.len(),
                0 < h <= MAX_DIM,
                0 < w < MAX_DIM,
                sbrows == layout_rows(bsb),
                sprows == layout_rows(psb),
                bsb == ascii_bytes(board_string@),
                psb == ascii_bytes(promotion_string@),
                vstd::utf8::is_ascii_chars(board_string@),
                vstd::utf8::is_ascii_chars(promotion_string@),
                rows_view(brows@) == sbrows,
                rows_view(prows@) == sprows,
                brows@.len() == h,
                prows@.len() == h,
                rows_consistent(sbrows, sprows, w as int),
                cells@.len() == x * h,
                forall|a: int, b: int|
                    0 <= a < x && 0 <= b < h ==> cells@[a * (h as int) + b] == #[trigger] decode_space(
                        sbrows[b][a],
                        sprows[b][a],
                    ),
            decreases w - x,
        {
            let mut y: usize = 0;
            while y < h
                invariant
                    0 <= y <= h,
                    0 <= x < w,
                    h == sbrows.len(),
                    h == sprows.len(),
                    0 < h <= MAX_DIM,
                    0 < w < MAX_DIM,
                    rows_view(brows@) == sbrows,
                    rows_view(prows@) == sprows,
                    brows@.len() == h,
                    prows@.len() == h,
                    rows_consistent(sbrows, sprows, w as int),
                    cells@.len() == x * h + y,
                    forall|a: int, b: int|
                        0 <= a < x && 0 <= b < h ==> cells@[a * (h as int) + b]
                            == #[trigger] decode_space(sbrows[b][a], sprows[b][a]),
                    forall|b: int|
                        0 <= b < y ==> cells@[(x as int) * (h as int) + b] == #[trigger] decode_space(
                            sbrows[b][x as int],
                            sprows[b][x as int],
                        ),
                decreases h - y,
            {
                assert(sbrows[y as int] == brows@[y as int]@);
                assert(sprows[y as int] == prows@[y as int]@);
                assert(sbrows[y as int].len() == w && sprows[y as int].len() == w);
                let cell = decode_space_exec(brows[y][x], prows[y][x]);
                let ghost old_cells = cells@;
                cells.push(cell);
                proof {
                    assert forall|a: int, b: int|
                        0 <= a < x && 0 <= b < h implies cells@[a * (h as int) + b]
                        == #[trigger] decode_space(sbrows[b][a], sprows[b][a]) by {
                        lemma_col_index(x as int - 1, h as int, a, b);
                        assert(a * (h as int) + b < old_cells.len());
                        assert(cells@[a * (h as int) + b] == old_cells[a * (h as int) + b]);
                    }
                }
                y = y + 1;
            }
            proof {
                assert((x as int + 1) * (h as int) == x as int * (h as int) + h as int)
                    by (nonlinear_arith);
                assert forall|a: int, b: int|
                    0 <= a < x as int + 1 && 0 <= b < h implies cells@[a * (h as int) + b]
                    == #[trigger] decode_space(sbrows[b][a], sprows[b][a]) by {
                    lemma_col_index(x as int, h as int, a, b);
                    if a == x as int {
                        assert(cells@[(x as int) * (h as int) + b] == decode_space(
                            sbrows[b][x as int],
                            sprows[b][x as int],
                        ));
                    }
                }
            }
            x = x + 1;
        }

        let grid = grid_new(w, h, cells);
        let board = Board {
            spaces: grid,
            width: w,
            height: h,
            side: Side::White,
            captured: Vec::new(),
        };
        proof {
            let spec_b = board_from_layout_bytes(bsb, psb)->Ok_0;
            assert forall|cx: int, cy: int|
                0 <= cx < w && 0 <= cy < h implies crate::grid::grid_cells(board.spaces)[(cx, cy)]
                == decode_space(sbrows[cy][cx], sprows[cy][cx]) by {
                lemma_col_index(w as int - 1, h as int, cx, cy);
                assert(crate::grid::grid_cells(board.spaces)[(cx, cy)] == cells@[cx * (h as int)
                    + cy]);
            }
            assert(board@.grid =~= spec_b.grid);
            assert(board@ =~= spec_b);
            assert(board_from_layouts(board_string@, promotion_string@) == Ok::<
                BoardView,
                Seq<char>,
            >(spec_b));
        }
        Ok(board)
    }
}

} // verus!
