//! The board: cell state for every coordinate of a bounded rectangle,
//! Moore-neighborhood enumeration, and the two-phase generation step.

use vstd::prelude::*;

verus! {

/// A grid coordinate: row, then column. Negative values and values at or
/// beyond the grid's dimensions are out of bounds.
#[derive(PartialEq, Eq, Hash, Debug)]
pub struct Point(pub i16, pub i16);

/// The state of one cell. The payload is the count of living neighbors
/// recorded during the first phase of a step; outside a step it is
/// transient scratch data, not part of the cell's identity.
#[derive(Copy, Clone, Debug)]
pub enum Cell {
    Dead(u8),
    Live(u8),
}

/// Everything that can go wrong when addressing or constructing a board.
#[derive(Copy, Clone, PartialEq, Eq, Structural, Debug)]
pub enum GridError {
    /// A coordinate outside `[0, height) x [0, width)` was supplied.
    OutOfBounds,
    /// A board was requested with a zero dimension.
    InvalidDimensions,
}

impl Point {
    /// Builds a coordinate from two unsigned row/column indices.
    pub fn from_u8(x: u8, y: u8) -> (p: Point)
        ensures
            p.0 == x as int,
            p.1 == y as int,
    {
        Point(x as i16, y as i16)
    }
}

impl Cell {
    /// Whether the cell is alive, ignoring the transient neighbor count.
    pub open spec fn is_live(self) -> bool {
        match self {
            Cell::Dead(_) => false,
            Cell::Live(_) => true,
        }
    }

    /// The transient neighbor count carried by the cell.
    pub open spec fn count(self) -> u8 {
        match self {
            Cell::Dead(n) => n,
            Cell::Live(n) => n,
        }
    }
}

/// A bounded rectangular board of cells. Dimensions are fixed at
/// construction; every in-bounds coordinate holds exactly one cell.
#[derive(Debug)]
pub struct Board {
    pub height: u8,
    pub width: u8,
    pub map: Vec<Vec<Cell>>,
}

/// 1 for a live condition, 0 otherwise; the unit of neighbor counting.
pub open spec fn one_if(b: bool) -> int {
    if b {
        1
    } else {
        0
    }
}

/// The Life rule applied to one cell whose recorded count is trusted: a live
/// cell survives on a count of two or three, a dead cell is born on exactly
/// three, and the new cell starts with a zero count.
pub open spec fn transition(c: Cell) -> Cell {
    if (c.is_live() && (c.count() == 2 || c.count() == 3)) || (!c.is_live() && c.count() == 3) {
        Cell::Live(0u8)
    } else {
        Cell::Dead(0u8)
    }
}

impl Board {
    /// The shape invariant: the cell matrix matches the stated dimensions.
    pub open spec fn wf(self) -> bool {
        &&& self.map@.len() == self.height as int
        &&& forall|i: int|
            0 <= i < self.map@.len() ==> (#[trigger] self.map@[i])@.len() == self.width as int
    }

    /// Whether a (row, column) pair addresses a cell of this board.
    pub open spec fn spec_in_bounds(self, r: int, c: int) -> bool {
        0 <= r < self.height as int && 0 <= c < self.width as int
    }

    /// The cell stored at an in-bounds coordinate.
    pub open spec fn cell_at(self, r: int, c: int) -> Cell
        recommends
            self.wf(),
            self.spec_in_bounds(r, c),
    {
        self.map@[r]@[c]
    }

    /// Whether the coordinate is in bounds and holds a live cell. Off-board
    /// coordinates are never live: the plane outside the board is excluded
    /// from neighbor counting, not wrapped.
    pub open spec fn live_at(self, r: int, c: int) -> bool {
        self.spec_in_bounds(r, c) && self.cell_at(r, c).is_live()
    }

    /// Builds a board of the given dimensions with every cell dead, or
    /// reports `InvalidDimensions` when either dimension is zero. A zero
    /// dimension is rejected rather than treated as a legal empty board.
    pub fn new(height: u8, width: u8) -> (r: Result<Board, GridError>)
        ensures
            (height == 0 || width == 0) <==> r is Err,
            r is Err ==> r == Err::<Board, GridError>(GridError::InvalidDimensions),
            r matches Ok(b) ==> {
                &&& b.wf()
                &&& b.height == height
                &&& b.width == width
                &&& forall|i: int, j: int|
                    b.spec_in_bounds(i, j) ==> #[trigger] b.cell_at(i, j) == Cell::Dead(0u8)
            },
    {
        if height == 0 || width == 0 {
            return Err(GridError::InvalidDimensions);
        }
        let mut map: Vec<Vec<Cell>> = Vec::new();
        for i in 0..height
            invariant
                map@.len() == i as int,
                forall|a: int|
                    0 <= a < i as int ==> (#[trigger] map@[a])@.len() == width as int,
                forall|a: int, b: int|
                    0 <= a < i as int && 0 <= b < width as int ==> #[trigger] map@[a]@[b]
                        == Cell::Dead(0u8),
        {
            let mut row: Vec<Cell> = Vec::new();
            for j in 0..width
                invariant
                    row@.len() == j as int,
                    forall|b: int| 0 <= b < j as int ==> #[trigger] row@[b] == Cell::Dead(0u8),
            {
                row.push(Cell::Dead(0));
            }
            map.push(row);
        }
        Ok(Board { height, width, map })
    }

    /// Overwrites the cell at an in-bounds coordinate, leaving every other
    /// cell and the dimensions untouched.
    pub fn set(&mut self, hw: &Point, cell: Cell)
        requires
            old(self).wf(),
            old(self).spec_in_bounds(hw.0 as int, hw.1 as int),
        ensures
            final(self).wf(),
            final(self).height == old(self).height,
            final(self).width == old(self).width,
            final(self).cell_at(hw.0 as int, hw.1 as int) == cell,
            forall|i: int, j: int|
                old(self).spec_in_bounds(i, j) && !(i == hw.0 as int && j == hw.1 as int)
                    ==> #[trigger] final(self).cell_at(i, j) == old(self).cell_at(i, j),
    {
        let r = hw.0 as usize;
        let c = hw.1 as usize;
        let row = &mut self.map[r];
        row[c] = cell;
    }

    /// Sets the cell at `hw` to `Live`, or reports `OutOfBounds` and leaves
    /// the board unchanged when `hw` lies outside `[0, height) x [0, width)`.
    pub fn revive(&mut self, hw: Point) -> (r: Result<(), GridError>)
        requires
            old(self).wf(),
        ensures
            final(self).wf(),
            final(self).height == old(self).height,
            final(self).width == old(self).width,
            old(self).spec_in_bounds(hw.0 as int, hw.1 as int) <==> r is Ok,
            r is Err ==> r == Err::<(), GridError>(GridError::OutOfBounds) && *final(self)
                == *old(self),
            r is Ok ==> final(self).cell_at(hw.0 as int, hw.1 as int) == Cell::Live(0u8),
            forall|i: int, j: int|
                old(self).spec_in_bounds(i, j) && !(i == hw.0 as int && j == hw.1 as int)
                    ==> #[trigger] final(self).cell_at(i, j) == old(self).cell_at(i, j),
    {
        if self.in_bounds(&hw) {
            self.set(&hw, Cell::Live(0));
            Ok(())
        } else {
            Err(GridError::OutOfBounds)
        }
    }

    /// The current cell at `hw`, or `OutOfBounds` when `hw` lies outside
    /// `[0, height) x [0, width)`.
    pub fn at(&self, hw: &Point) -> (r: Result<Cell, GridError>)
        requires
            self.wf(),
        ensures
            self.spec_in_bounds(hw.0 as int, hw.1 as int) <==> r is Ok,
            r matches Ok(cell) ==> cell == self.cell_at(hw.0 as int, hw.1 as int),
            r is Err ==> r == Err::<Cell, GridError>(GridError::OutOfBounds),
    {
        if self.in_bounds(hw) {
            Ok(self.map[hw.0 as usize][hw.1 as usize])
        } else {
            Err(GridError::OutOfBounds)
        }
    }

    /// The executable bounds test, agreeing with `spec_in_bounds`.
    pub fn in_bounds(&self, hw: &Point) -> (r: bool)
        ensures
            r == self.spec_in_bounds(hw.0 as int, hw.1 as int),
    {
        0 <= hw.0 && (hw.0 as u16) < (self.height as u16) && 0 <= hw.1 && (hw.1 as u16) < (
        self.width as u16)
    }

    /// The candidate neighbor at (r, c) as a sequence: a singleton when the
    /// coordinate is on the board, empty when it falls off the edge.
    pub open spec fn nbr_if_in(self, r: int, c: int) -> Seq<(int, int)> {
        if self.spec_in_bounds(r, c) {
            seq![(r, c)]
        } else {
            Seq::empty()
        }
    }

    /// The Moore neighborhood of (r, c) that lies on the board, in the fixed
    /// enumeration order of the eight offsets: the row above left to right,
    /// the two sideways neighbors, then the row below left to right.
    /// Off-board candidates are omitted, not wrapped.
    pub open spec fn neighbor_seq(self, r: int, c: int) -> Seq<(int, int)> {
        self.nbr_if_in(r - 1, c - 1) + self.nbr_if_in(r - 1, c) + self.nbr_if_in(r - 1, c + 1)
            + self.nbr_if_in(r, c - 1) + self.nbr_if_in(r, c + 1) + self.nbr_if_in(r + 1, c - 1)
            + self.nbr_if_in(r + 1, c) + self.nbr_if_in(r + 1, c + 1)
    }

    /// The number of live cells among the eight Moore neighbors of (r, c);
    /// neighbors off the board count as dead.
    pub open spec fn living_neighbor_spec(self, r: int, c: int) -> int {
        one_if(self.live_at(r - 1, c - 1)) + one_if(self.live_at(r - 1, c)) + one_if(
            self.live_at(r - 1, c + 1),
        ) + one_if(self.live_at(r, c - 1)) + one_if(self.live_at(r, c + 1)) + one_if(
            self.live_at(r + 1, c - 1),
        ) + one_if(self.live_at(r + 1, c)) + one_if(self.live_at(r + 1, c + 1))
    }

    /// How many of the listed coordinates hold a live cell of this board.
    pub open spec fn live_count_in(self, ps: Seq<(int, int)>) -> int
        decreases ps.len(),
    {
        if ps.len() == 0 {
            0
        } else {
            self.live_count_in(ps.drop_last()) + one_if(self.live_at(ps.last().0, ps.last().1))
        }
    }

    /// Appends (rr, cc) to the vector exactly when it is on the board.
    fn push_if_in(&self, v: &mut Vec<Point>, rr: i32, cc: i32)
        ensures
            self.spec_in_bounds(rr as int, cc as int) ==> final(v)@ == old(v)@.push(
                Point(rr as i16, cc as i16),
            ),
            !self.spec_in_bounds(rr as int, cc as int) ==> final(v)@ == old(v)@,
    {
        if 0 <= rr && rr < self.height as i32 && 0 <= cc && cc < self.width as i32 {
            v.push(Point(rr as i16, cc as i16));
        }
    }

    /// Every Moore neighbor of `hw` that lies on the board, in the fixed
    /// enumeration order of `neighbor_seq`.
    pub fn neighbor_points(&self, hw: &Point) -> (v: Vec<Point>)
        ensures
            pairs_of(v@) == self.neighbor_seq(hw.0 as int, hw.1 as int),
    {
        let r = hw.0 as i32;
        let c = hw.1 as i32;
        let ghost ri = hw.0 as int;
        let ghost ci = hw.1 as int;
        let mut v: Vec<Point> = Vec::new();
        let ghost s0 = v@;
        self.push_if_in(&mut v, r - 1, c - 1);
        proof {
            lemma_pairs_of_step(s0, v@, *self, ri - 1, ci - 1);
        }
        let ghost s1 = v@;
        self.push_if_in(&mut v, r - 1, c);
        proof {
            lemma_pairs_of_step(s1, v@, *self, ri - 1, ci);
        }
        let ghost s2 = v@;
        self.push_if_in(&mut v, r - 1, c + 1);
        proof {
            lemma_pairs_of_step(s2, v@, *self, ri - 1, ci + 1);
        }
        let ghost s3 = v@;
        self.push_if_in(&mut v, r, c - 1);
        proof {
            lemma_pairs_of_step(s3, v@, *self, ri, ci - 1);
        }
        let ghost s4 = v@;
        self.push_if_in(&mut v, r, c + 1);
        proof {
            lemma_pairs_of_step(s4, v@, *self, ri, ci + 1);
        }
        let ghost s5 = v@;
        self.push_if_in(&mut v, r + 1, c - 1);
        proof {
            lemma_pairs_of_step(s5, v@, *self, ri + 1, ci - 1);
        }
        let ghost s6 = v@;
        self.push_if_in(&mut v, r + 1, c);
        proof {
            lemma_pairs_of_step(s6, v@, *self, ri + 1, ci);
        }
        let ghost s7 = v@;
        self.push_if_in(&mut v, r + 1, c + 1);
        proof {
            lemma_pairs_of_step(s7, v@, *self, ri + 1, ci + 1);
            assert(pairs_of(v@) =~= self.neighbor_seq(ri, ci));
        }
        v
    }

    /// Whether the cell at (r, c) is live in the next generation, judged
    /// entirely from this board's current state: a live cell survives with
    /// two or three live neighbors, a dead in-bounds cell is born with
    /// exactly three, and everything else is dead.
    pub open spec fn next_live(self, r: int, c: int) -> bool {
        if self.live_at(r, c) {
            self.living_neighbor_spec(r, c) == 2 || self.living_neighbor_spec(r, c) == 3
        } else {
            self.spec_in_bounds(r, c) && self.living_neighbor_spec(r, c) == 3
        }
    }

    /// The cell stored at an in-bounds coordinate, for callers that have
    /// already established the bounds.
    fn cell(&self, hw: &Point) -> (c: Cell)
        requires
            self.wf(),
            self.spec_in_bounds(hw.0 as int, hw.1 as int),
        ensures
            c == self.cell_at(hw.0 as int, hw.1 as int),
    {
        self.map[hw.0 as usize][hw.1 as usize]
    }

    /// Phase one of a step: records in every cell the count of its living
    /// neighbors, judged against the board as it stood at entry. No cell's
    /// liveness changes, so every count is taken from the old generation.
    pub fn update_neighbor_counts(&mut self)
        requires
            old(self).wf(),
        ensures
            final(self).wf(),
            final(self).height == old(self).height,
            final(self).width == old(self).width,
            forall|a: int, b: int|
                old(self).spec_in_bounds(a, b) ==> (#[trigger] final(self).cell_at(
                    a,
                    b,
                )).is_live() == old(self).cell_at(a, b).is_live(),
            forall|a: int, b: int|
                old(self).spec_in_bounds(a, b) ==> (#[trigger] final(self).cell_at(
                    a,
                    b,
                )).count() as int == old(self).living_neighbor_spec(a, b),
    {
        let ghost orig = *old(self);
        let mut i: u8 = 0;
        while i < self.height
            invariant
                self.wf(),
                self.height == orig.height,
                self.width == orig.width,
                i <= self.height,
                forall|a: int, b: int|
                    orig.spec_in_bounds(a, b) ==> (#[trigger] self.cell_at(a, b)).is_live()
                        == orig.cell_at(a, b).is_live(),
                forall|a: int, b: int|
                    orig.spec_in_bounds(a, b) && a < i as int ==> (#[trigger] self.cell_at(
                        a,
                        b,
                    )).count() as int == orig.living_neighbor_spec(a, b),
            decreases self.height as int - i as int,
        {
            let mut j: u8 = 0;
            while j < self.width
                invariant
                    self.wf(),
                    self.height == orig.height,
                    self.width == orig.width,
                    i < self.height,
                    j <= self.width,
                    forall|a: int, b: int|
                        orig.spec_in_bounds(a, b) ==> (#[trigger] self.cell_at(a, b)).is_live()
                            == orig.cell_at(a, b).is_live(),
                    forall|a: int, b: int|
                        orig.spec_in_bounds(a, b) && (a < i as int || (a == i as int && b
                            < j as int)) ==> (#[trigger] self.cell_at(a, b)).count() as int
                            == orig.living_neighbor_spec(a, b),
                decreases self.width as int - j as int,
            {
                let p = Point::from_u8(i, j);
                proof {
                    lemma_living_neighbor_spec_depends_on_liveness(*self, orig, i as int, j as int);
                }
                let n = self.living_neighbors(&p);
                match self.cell(&p) {
                    Cell::Dead(_) => self.set(&p, Cell::Dead(n)),
                    Cell::Live(_) => self.set(&p, Cell::Live(n)),
                }
                j = j + 1;
            }
            i = i + 1;
        }
    }

    /// Phase two of a step: rewrites every cell from its recorded neighbor
    /// count by the Life rule, resetting the count to zero. The counts are
    /// only read, never recomputed, so the writes of this phase cannot
    /// influence one another.
    pub fn update_cell_status(&mut self)
        requires
            old(self).wf(),
        ensures
            final(self).wf(),
            final(self).height == old(self).height,
            final(self).width == old(self).width,
            forall|a: int, b: int|
                old(self).spec_in_bounds(a, b) ==> #[trigger] final(self).cell_at(a, b)
                    == transition(old(self).cell_at(a, b)),
    {
        let ghost orig = *old(self);
        let mut i: u8 = 0;
        while i < self.height
            invariant
                self.wf(),
                self.height == orig.height,
                self.width == orig.width,
                i <= self.height,
                forall|a: int, b: int|
                    orig.spec_in_bounds(a, b) && a < i as int ==> #[trigger] self.cell_at(a, b)
                        == transition(orig.cell_at(a, b)),
                forall|a: int, b: int|
                    orig.spec_in_bounds(a, b) && a >= i as int ==> #[trigger] self.cell_at(a, b)
                        == orig.cell_at(a, b),
            decreases self.height as int - i as int,
        {
            let mut j: u8 = 0;
            while j < self.width
                invariant
                    self.wf(),
                    self.height == orig.height,
                    self.width == orig.width,
                    i < self.height,
                    j <= self.width,
                    forall|a: int, b: int|
                        orig.spec_in_bounds(a, b) && (a < i as int || (a == i as int && b
                            < j as int)) ==> #[trigger] self.cell_at(a, b) == transition(
                            orig.cell_at(a, b),
                        ),
                    forall|a: int, b: int|
                        orig.spec_in_bounds(a, b) && (a > i as int || (a == i as int && b
                            >= j as int)) ==> #[trigger] self.cell_at(a, b) == orig.cell_at(a, b),
                decreases self.width as int - j as int,
            {
                let p = Point::from_u8(i, j);
                match self.cell(&p) {
                    Cell::Dead(3) => self.set(&p, Cell::Live(0)),
                    Cell::Dead(_) => self.set(&p, Cell::Dead(0)),
                    Cell::Live(0) | Cell::Live(1) => self.set(&p, Cell::Dead(0)),
                    Cell::Live(2) | Cell::Live(3) => self.set(&p, Cell::Live(0)),
                    Cell::Live(_) => self.set(&p, Cell::Dead(0)),
                }
                j = j + 1;
            }
            i = i + 1;
        }
    }

    /// Advances the board one generation in place. The update is two-phase:
    /// every neighbor count is recorded against the unmodified board before
    /// any cell's state is rewritten, so no write of this step is visible to
    /// any rule evaluation of the same step. Every cell of the new
    /// generation is exactly what the Life rule prescribes from the old one,
    /// with its transient count reset to zero.
    pub fn step(&mut self)
        requires
            old(self).wf(),
        ensures
            final(self).wf(),
            final(self).height == old(self).height,
            final(self).width == old(self).width,
            forall|i: int, j: int|
                old(self).spec_in_bounds(i, j) ==> #[trigger] final(self).cell_at(i, j) == (
                if old(self).next_live(i, j) {
                    Cell::Live(0u8)
                } else {
                    Cell::Dead(0u8)
                }),
    {
        self.update_neighbor_counts();
        self.update_cell_status();
    }

    /// The number of live cells among the on-board Moore neighbors of `hw`,
    /// read from the board as it stands now.
    pub fn living_neighbors(&self, hw: &Point) -> (n: u8)
        requires
            self.wf(),
        ensures
            n as int == self.living_neighbor_spec(hw.0 as int, hw.1 as int),
    {
        let neighbors = self.neighbor_points(hw);
        let ghost ns = self.neighbor_seq(hw.0 as int, hw.1 as int);
        let mut n: u8 = 0;
        let mut k: usize = 0;
        assert(ns.len() <= 8);
        while k < neighbors.len()
            invariant
                self.wf(),
                pairs_of(neighbors@) == ns,
                ns.len() <= 8,
                k <= neighbors@.len(),
                n as int <= k as int,
                n as int == self.live_count_in(ns.take(k as int)),
            decreases neighbors@.len() - k as int,
        {
            let p = &neighbors[k];
            proof {
                assert(ns.take(k as int + 1).drop_last() =~= ns.take(k as int));
                assert(ns.take(k as int + 1).last() == ns[k as int]);
                assert(ns[k as int] == (p.0 as int, p.1 as int));
            }
            if let Ok(Cell::Live(_)) = self.at(p) {
                n = n + 1;
            }
            k = k + 1;
        }
        proof {
            assert(ns.take(neighbors@.len() as int) =~= ns);
            lemma_count_matches_neighbors(*self, hw.0 as int, hw.1 as int);
        }
        n
    }
}

/// Every coordinate strictly inside the board, away from all four edges,
/// has exactly eight neighbor coordinates.
pub proof fn lemma_interior_neighbor_count(b: Board, r: int, c: int)
    requires
        1 <= r < b.height as int - 1,
        1 <= c < b.width as int - 1,
    ensures
        b.neighbor_seq(r, c).len() == 8,
{
}

/// A corner coordinate of a board of at least two rows and two columns has
/// exactly three neighbor coordinates.
pub proof fn lemma_corner_neighbor_count(b: Board, r: int, c: int)
    requires
        b.height >= 2,
        b.width >= 2,
        r == 0 || r == b.height as int - 1,
        c == 0 || c == b.width as int - 1,
    ensures
        b.neighbor_seq(r, c).len() == 3,
{
}

/// A coordinate lying on exactly one edge line of the board — a non-corner
/// edge cell — has exactly five neighbor coordinates.
pub proof fn lemma_edge_neighbor_count(b: Board, r: int, c: int)
    requires
        b.spec_in_bounds(r, c),
        one_if(r == 0) + one_if(r == b.height as int - 1) + one_if(c == 0) + one_if(
            c == b.width as int - 1,
        ) == 1,
    ensures
        b.neighbor_seq(r, c).len() == 5,
{
}

/// A board with no live cells breeds none: every cell of the next
/// generation of an empty board is dead as well.
pub proof fn lemma_empty_board_stays_empty(b: Board)
    requires
        forall|i: int, j: int| !(#[trigger] b.live_at(i, j)),
    ensures
        forall|i: int, j: int| !(#[trigger] b.next_live(i, j)),
{
    assert forall|i: int, j: int| !(#[trigger] b.next_live(i, j)) by {
        assert(b.living_neighbor_spec(i, j) == 0);
    }
}

/// The living-neighbor count reads nothing but liveness: two boards of the
/// same dimensions that agree on which cells are live agree on every
/// neighbor count, whatever transient counts their cells carry.
pub proof fn lemma_living_neighbor_spec_depends_on_liveness(
    cur: Board,
    orig: Board,
    r: int,
    c: int,
)
    requires
        cur.height == orig.height,
        cur.width == orig.width,
        forall|a: int, b: int|
            orig.spec_in_bounds(a, b) ==> (#[trigger] cur.cell_at(a, b)).is_live() == orig.cell_at(
                a,
                b,
            ).is_live(),
    ensures
        cur.living_neighbor_spec(r, c) == orig.living_neighbor_spec(r, c),
{
    assert forall|a: int, b: int| #[trigger] cur.live_at(a, b) == orig.live_at(a, b) by {
        if orig.spec_in_bounds(a, b) {
            assert(cur.cell_at(a, b).is_live() == orig.cell_at(a, b).is_live());
        }
    }
}

/// Counting live cells distributes over concatenation of coordinate lists.
proof fn lemma_live_count_add(b: Board, s: Seq<(int, int)>, t: Seq<(int, int)>)
    ensures
        b.live_count_in(s + t) == b.live_count_in(s) + b.live_count_in(t),
    decreases t.len(),
{
    if t.len() == 0 {
        assert(s + t =~= s);
    } else {
        assert((s + t).drop_last() =~= s + t.drop_last());
        lemma_live_count_add(b, s, t.drop_last());
    }
}

/// The living-neighbor count of a cell is exactly the number of live cells
/// among its on-board Moore neighbors, and therefore never exceeds the
/// number of those neighbors.
pub proof fn lemma_count_matches_neighbors(b: Board, r: int, c: int)
    ensures
        b.living_neighbor_spec(r, c) == b.live_count_in(b.neighbor_seq(r, c)),
        0 <= b.living_neighbor_spec(r, c) <= b.neighbor_seq(r, c).len(),
{
    let n1 = b.nbr_if_in(r - 1, c - 1);
    let n2 = b.nbr_if_in(r - 1, c);
    let n3 = b.nbr_if_in(r - 1, c + 1);
    let n4 = b.nbr_if_in(r, c - 1);
    let n5 = b.nbr_if_in(r, c + 1);
    let n6 = b.nbr_if_in(r + 1, c - 1);
    let n7 = b.nbr_if_in(r + 1, c);
    let n8 = b.nbr_if_in(r + 1, c + 1);
    lemma_live_count_singleton(b, r - 1, c - 1);
    lemma_live_count_singleton(b, r - 1, c);
    lemma_live_count_singleton(b, r - 1, c + 1);
    lemma_live_count_singleton(b, r, c - 1);
    lemma_live_count_singleton(b, r, c + 1);
    lemma_live_count_singleton(b, r + 1, c - 1);
    lemma_live_count_singleton(b, r + 1, c);
    lemma_live_count_singleton(b, r + 1, c + 1);
    lemma_live_count_add(b, n1, n2);
    lemma_live_count_add(b, n1 + n2, n3);
    lemma_live_count_add(b, n1 + n2 + n3, n4);
    lemma_live_count_add(b, n1 + n2 + n3 + n4, n5);
    lemma_live_count_add(b, n1 + n2 + n3 + n4 + n5, n6);
    lemma_live_count_add(b, n1 + n2 + n3 + n4 + n5 + n6, n7);
    lemma_live_count_add(b, n1 + n2 + n3 + n4 + n5 + n6 + n7, n8);
}

/// The candidate list at one offset holds as many live cells as the offset
/// contributes to the neighbor count: one when it is on the board and live,
/// none otherwise.
proof fn lemma_live_count_singleton(b: Board, r: int, c: int)
    ensures
        b.live_count_in(b.nbr_if_in(r, c)) == one_if(b.live_at(r, c)),
        b.nbr_if_in(r, c).len() <= 1,
{
    if b.spec_in_bounds(r, c) {
        let s = b.nbr_if_in(r, c);
        assert(s.drop_last() =~= Seq::<(int, int)>::empty());
        assert(b.live_count_in(s.drop_last()) == 0);
    }
}

/// The (row, column) pairs named by a sequence of points.
pub open spec fn pairs_of(s: Seq<Point>) -> Seq<(int, int)> {
    s.map_values(|p: Point| (p.0 as int, p.1 as int))
}

/// One step of building a neighbor list: appending the candidate at (r, c)
/// when it is in bounds extends the pair view by `nbr_if_in(r, c)`.
proof fn lemma_pairs_of_step(pre: Seq<Point>, post: Seq<Point>, b: Board, r: int, c: int)
    requires
        b.spec_in_bounds(r, c) ==> -32768 <= r < 32768 && -32768 <= c < 32768 && post == pre.push(
            Point(r as i16, c as i16),
        ),
        !b.spec_in_bounds(r, c) ==> post == pre,
    ensures
        pairs_of(post) == pairs_of(pre) + b.nbr_if_in(r, c),
{
    assert(pairs_of(post) =~= pairs_of(pre) + b.nbr_if_in(r, c));
}

} // verus!
