//! The board data model: coordinates, sides, pieces, spaces, and the board
//! itself together with its construction from a pair of text layouts.

use vstd::prelude::*;

use crate::grid::grid_cells;
use crate::grid::grid_dims;
use crate::grid::grid_get;
use crate::grid::grid_set;
use crate::grid::Grid;

verus! {

/// Signed coordinates, useful for computations before filtering out-of-bounds
/// squares.
#[derive(Clone, Copy, PartialEq, Eq, Structural, Hash, Debug)]
pub struct Coords {
    pub x: isize,
    pub y: isize,
}

impl View for Coords {
    type V = (int, int);

    open spec fn view(&self) -> (int, int) {
        (self.x as int, self.y as int)
    }
}

/// Which of the two players a piece or a turn belongs to.
#[derive(Clone, Copy, PartialEq, Eq, Structural, Debug)]
pub enum Side {
    White,
    Black,
}

impl Side {
    /// The opposing side.
    pub open spec fn spec_other(&self) -> Side {
        match self {
            Side::White => Side::Black,
            Side::Black => Side::White,
        }
    }

    /// The opposing side.
    #[verifier::when_used_as_spec(spec_other)]
    pub fn other(&self) -> (r: Side)
        ensures
            r == self.spec_other(),
    {
        match self {
            Side::White => Side::Black,
            Side::Black => Side::White,
        }
    }
}

/// A piece kind together with the mutable state its movement rules need.
///
/// `can_castle` on a king or rook means the piece has not moved yet and may
/// still take part in castling. `can_dash` on a pawn means it has not moved
/// and may still advance two squares; `just_dashed` marks a pawn that made
/// such a double advance on its latest move, which is the sole enabler of an
/// en-passant capture against it.
#[derive(Clone, Copy, PartialEq, Eq, Structural, Debug)]
pub enum PieceModel {
    King { can_castle: bool },
    Queen,
    Bishop,
    Knight,
    Rook { can_castle: bool },
    Pawn { can_dash: bool, just_dashed: bool },
}

/// A piece on the board: an owning side and a kind with its state.
#[derive(Clone, Copy, PartialEq, Eq, Structural, Debug)]
pub struct Piece {
    pub side: Side,
    pub model: PieceModel,
}

impl Piece {
    /// Index of this piece's sprite in a texture atlas that holds the six
    /// white piece images followed by the six black ones.
    pub open spec fn spec_texture_index(self) -> int {
        (match self.model {
            PieceModel::King { .. } => 0,
            PieceModel::Queen => 1,
            PieceModel::Bishop => 2,
            PieceModel::Knight => 3,
            PieceModel::Rook { .. } => 4,
            PieceModel::Pawn { .. } => 5int,
        }) + if self.side is Black {
            6int
        } else {
            0int
        }
    }

    /// Index of this piece's sprite in a texture atlas that holds the six
    /// white piece images followed by the six black ones.
    pub fn texture_index(&self) -> (r: usize)
        ensures
            r == self.spec_texture_index(),
    {
        (match self.model {
            PieceModel::King { .. } => 0,
            PieceModel::Queen => 1,
            PieceModel::Bishop => 2,
            PieceModel::Knight => 3,
            PieceModel::Rook { .. } => 4,
            PieceModel::Pawn { .. } => 5usize,
        }) + if matches!(self.side, Side::Black) {
            6usize
        } else {
            0usize
        }
    }
}

/// The widest and tallest a board may be. Keeping both extents under this
/// bound lets every coordinate computation, even two steps past an edge,
/// stay inside `isize` on any machine.
pub const MAX_DIM: usize = 0x0FFF_FFF0;

/// One cell of the board: either a permanent hole that no piece may ever
/// occupy, or a square that may hold a piece and may be a promotion zone for
/// either side.
#[derive(Clone, Copy, PartialEq, Eq, Structural, Debug)]
pub enum Space {
    Hole,
    Square { slot: Option<Piece>, promotes_white: bool, promotes_black: bool },
}

impl Space {
    /// Whether a piece of `side` reaching this space must promote.
    pub open spec fn spec_promotes(self, side: Side) -> bool {
        match self {
            Space::Hole => false,
            Space::Square { promotes_white, promotes_black, .. } => match side {
                Side::White => promotes_white,
                Side::Black => promotes_black,
            },
        }
    }
}

/// The mathematical content of a board: its extent, the space at every
/// in-bounds coordinate pair, the side to move, and the pieces captured so
/// far in chronological order.
#[verifier::ext_equal]
pub struct BoardView {
    pub width: int,
    pub height: int,
    pub grid: Map<(int, int), Space>,
    pub side: Side,
    pub captured: Seq<Piece>,
}

impl BoardView {
    pub open spec fn in_bounds(self, c: (int, int)) -> bool {
        0 <= c.0 < self.width && 0 <= c.1 < self.height
    }

    /// The space at `c`, or `None` when `c` lies off the board.
    pub open spec fn space_at(self, c: (int, int)) -> Option<Space> {
        if self.in_bounds(c) {
            Some(self.grid[c])
        } else {
            None
        }
    }

    /// Extents small enough that coordinate arithmetic never leaves `isize`.
    pub open spec fn bounded(self) -> bool {
        0 <= self.width <= MAX_DIM && 0 <= self.height <= MAX_DIM
    }
}

/// The full state of one game position. The grid's extent is fixed at
/// construction; every later board is a fresh value produced by the
/// transition function.
pub struct Board {
    pub spaces: Grid,
    pub width: usize,
    pub height: usize,
    pub side: Side,
    pub captured: Vec<Piece>,
}

impl View for Board {
    type V = BoardView;

    open spec fn view(&self) -> BoardView {
        BoardView {
            width: self.width as int,
            height: self.height as int,
            grid: Map::new(
                |c: (int, int)| 0 <= c.0 < self.width && 0 <= c.1 < self.height,
                |c: (int, int)| grid_cells(self.spaces)[c],
            ),
            side: self.side,
            captured: self.captured@,
        }
    }
}

impl Board {
    /// The stored extent agrees with the grid's and is small enough for
    /// coordinate arithmetic.
    pub open spec fn wf(self) -> bool {
        &&& grid_dims(self.spaces) == (self.width as int, self.height as int)
        &&& self.width <= MAX_DIM
        &&& self.height <= MAX_DIM
    }

    /// Bounds-checked lookup: the space at `c`, or `None` when `c` lies off
    /// the board.
    pub fn space(&self, c: Coords) -> (r: Option<Space>)
        requires
            self.wf(),
        ensures
            r == self@.space_at(c@),
    {
        if c.x < 0 || c.y < 0 {
            None
        } else {
            grid_get(&self.spaces, c.x as usize, c.y as usize)
        }
    }

    /// Whether two boards are the same position: equal extent, equal space
    /// at every cell, the same side to move, and the same capture list.
    pub fn equals(&self, other: &Board) -> (r: bool)
        requires
            self.wf(),
            other.wf(),
        ensures
            r == (self@ == other@),
    {
        if self.width != other.width || self.height != other.height || self.side != other.side {
            return false;
        }
        if self.captured.len() != other.captured.len() {
            proof {
                assert(self@.captured.len() != other@.captured.len());
            }
            return false;
        }
        let mut i: usize = 0;
        while i < self.captured.len()
            invariant
                self.wf(),
                other.wf(),
                0 <= i <= self.captured@.len(),
                self.captured@.len() == other.captured@.len(),
                forall|j: int|
                    0 <= j < i ==> #[trigger] self.captured@[j] == other.captured@[j],
            decreases self.captured@.len() - i,
        {
            if self.captured[i] != other.captured[i] {
                proof {
                    assert(self@.captured[i as int] != other@.captured[i as int]);
                }
                return false;
            }
            i = i + 1;
        }
        let mut x: usize = 0;
        while x < self.width
            invariant
                self.wf(),
                other.wf(),
                self.width == other.width,
                self.height == other.height,
                0 <= x <= self.width,
                forall|c: (int, int)|
                    0 <= c.0 < x && 0 <= c.1 < self.height ==> #[trigger] grid_cells(self.spaces)[c]
                        == grid_cells(other.spaces)[c],
            decreases self.width - x,
        {
            let mut y: usize = 0;
            while y < self.height
                invariant
                    self.wf(),
                    other.wf(),
                    self.width == other.width,
                    self.height == other.height,
                    0 <= x < self.width,
                    0 <= y <= self.height,
                    forall|c: (int, int)|
                        0 <= c.0 < x && 0 <= c.1 < self.height ==> #[trigger] grid_cells(
                            self.spaces,
                        )[c] == grid_cells(other.spaces)[c],
                    forall|c: (int, int)|
                        c.0 == x && 0 <= c.1 < y ==> #[trigger] grid_cells(self.spaces)[c]
                            == grid_cells(other.spaces)[c],
                decreases self.height - y,
            {
                let c = Coords { x: x as isize, y: y as isize };
                let sa = self.space(c);
                let sb = other.space(c);
                match (sa, sb) {
                    (Some(a), Some(b)) => {
                        if a != b {
                            proof {
                                assert(self@.grid[(x as int, y as int)] != other@.grid[
                                    (x as int, y as int)]);
                            }
                            return false;
                        }
                    },
                    _ => {
                        proof {
                            assert(false);
                        }
                    },
                }
                proof {
                    assert forall|c2: (int, int)|
                        c2.0 == x && 0 <= c2.1 < y + 1 implies #[trigger] grid_cells(
                        self.spaces,
                    )[c2] == grid_cells(other.spaces)[c2] by {
                        if c2.1 < y {
                        } else {
                            assert(c2 == (x as int, y as int));
                        }
                    }
                }
                y = y + 1;
            }
            proof {
                assert forall|c2: (int, int)|
                    0 <= c2.0 < x + 1 && 0 <= c2.1 < self.height implies #[trigger] grid_cells(
                    self.spaces,
                )[c2] == grid_cells(other.spaces)[c2] by {
                }
            }
            x = x + 1;
        }
        proof {
            assert(self@.grid =~= other@.grid);
            assert(self@.captured =~= other@.captured);
            assert(self@ =~= other@);
        }
        true
    }

    /// Replace the space at the in-bounds coordinate `c`.
    pub(crate) fn set_space(&mut self, c: Coords, s: Space)
        requires
            old(self).wf(),
            old(self)@.in_bounds(c@),
        ensures
            final(self).wf(),
            final(self)@ == (BoardView { grid: old(self)@.grid.insert(c@, s), ..old(self)@ }),
    {
        grid_set(&mut self.spaces, c.x as usize, c.y as usize, s);
        proof {
            assert(self@.grid =~= old(self)@.grid.insert(c@, s));
        }
    }
}

} // verus!
