//! A rectangular grid addressed by row/column pairs, stored row-major.

use vstd::prelude::*;

verus! {

/// A row/column pair for indexing into the grid.
/// Distinct from an x/y pair.
#[derive(PartialEq, Eq, Structural, Clone, Copy, Debug)]
pub struct RC(pub usize, pub usize);

/// An x/y pair for indexing into the grid.
/// Distinct from a row/column pair.
#[derive(PartialEq, Eq, Structural, Clone, Copy, Debug)]
pub struct XY(pub usize, pub usize);

/// The mathematical abstraction of a [`Grid`]: its dimensions and the
/// row-major sequence of its cells.
pub ghost struct GridView<CellType> {
    pub width: nat,
    pub height: nat,
    pub cells: Seq<CellType>,
}

impl<CellType> GridView<CellType> {
    /// The backing sequence holds exactly one cell per position.
    pub open spec fn wf(self) -> bool {
        self.cells.len() == self.width * self.height
    }

    /// Whether a row/column pair addresses a cell of this grid.
    pub open spec fn in_bounds(self, rc: RC) -> bool {
        rc.0 < self.height && rc.1 < self.width
    }

    /// The row-major index of a row/column pair.
    pub open spec fn index_of(self, rc: RC) -> int {
        rc.0 * self.width + rc.1
    }

    /// The cell at a row/column pair.
    pub open spec fn at(self, rc: RC) -> CellType {
        self.cells[self.index_of(rc)]
    }

    /// The cell at a row and column given as mathematical integers.
    pub open spec fn at_rc(self, r: int, c: int) -> CellType {
        self.cells[r * self.width + c]
    }

    /// This grid with the cell at `rc` replaced by `v`.
    pub open spec fn with_cell(self, rc: RC, v: CellType) -> GridView<CellType> {
        GridView { cells: self.cells.update(self.index_of(rc), v), ..self }
    }

    /// Row-major indices of distinct in-bounds positions are distinct.
    pub proof fn lemma_index_of_injective(self, a: RC, b: RC)
        requires
            self.wf(),
            self.in_bounds(a),
            self.in_bounds(b),
        ensures
            0 <= self.index_of(a) < self.cells.len(),
            0 <= self.index_of(b) < self.cells.len(),
            self.index_of(a) == self.index_of(b) ==> a == b,
    {
        self.lemma_index_of_in_range(a);
        self.lemma_index_of_in_range(b);
        if self.index_of(a) == self.index_of(b) {
            assert(a.0 == b.0 && a.1 == b.1) by (nonlinear_arith)
                requires
                    a.1 < self.width,
                    b.1 < self.width,
                    a.0 * self.width + a.1 == b.0 * self.width + b.1,
            {}
        }
    }

    /// An in-bounds position has an in-range row-major index.
    pub proof fn lemma_index_of_in_range(self, rc: RC)
        requires
            self.wf(),
            self.in_bounds(rc),
        ensures
            0 <= self.index_of(rc) < self.cells.len(),
    {
        assert(rc.0 * self.width + rc.1 < self.width * self.height) by (nonlinear_arith)
            requires
                rc.0 < self.height,
                rc.1 < self.width,
        {}
    }
}

/// A simple grid of user-defined objects, indexed by `(row, column)` pairs.
pub struct Grid<CellType> where CellType: Clone {
    width: usize,
    height: usize,
    cells: Vec<CellType>,
}

impl<CellType: Clone> View for Grid<CellType> {
    type V = GridView<CellType>;

    closed spec fn view(&self) -> GridView<CellType> {
        GridView { width: self.width as nat, height: self.height as nat, cells: self.cells@ }
    }
}

impl<CellType: Clone> Clone for Grid<CellType> {
    /// Clones the grid; each cell is a clone of the corresponding original cell.
    fn clone(&self) -> (res: Self)
        ensures
            res@.width == self@.width,
            res@.height == self@.height,
            res@.cells.len() == self@.cells.len(),
            forall|i: int|
                0 <= i < self@.cells.len() ==> cloned::<CellType>(self@.cells[i], res@.cells[i]),
    {
        Grid { width: self.width, height: self.height, cells: self.cells.clone() }
    }
}

impl<CellType> Grid<CellType> where CellType: Clone {
    /// The width of the grid in cells.
    pub fn width(&self) -> (w: usize)
        ensures
            w == self@.width,
    {
        self.width
    }

    /// The height of the grid in cells.
    pub fn height(&self) -> (h: usize)
        ensures
            h == self@.height,
    {
        self.height
    }

    /// Converts an index into the cells vector into an XY coordinate.
    pub fn index_to_xy(&self, index: usize) -> (xy: XY)
        requires
            self@.width > 0,
        ensures
            xy == (XY { 0: (index as int % self@.width as int) as usize,
                        1: (index as int / self@.width as int) as usize }),
    {
        XY(index % self.width, index / self.width)
    }

    /// Create a grid with the given dimensions, every cell a clone of `template`.
    pub fn new(width: usize, height: usize, template: &CellType) -> (g: Grid<CellType>)
        ensures
            g@.width == width,
            g@.height == height,
            g@.wf(),
            forall|i: int| 0 <= i < g@.cells.len() ==> cloned::<CellType>(*template, g@.cells[i]),
    {
        let mut cells: Vec<CellType> = Vec::new();
        let mut r: usize = 0;
        while r < height
            invariant
                r <= height,
                cells@.len() == r * width,
                forall|i: int| 0 <= i < cells@.len() ==> cloned::<CellType>(*template, cells@[i]),
            decreases height - r,
        {
            let mut c: usize = 0;
            while c < width
                invariant
                    c <= width,
                    cells@.len() == r * width + c,
                    forall|i: int|
                        0 <= i < cells@.len() ==> cloned::<CellType>(*template, cells@[i]),
                decreases width - c,
            {
                cells.push(template.clone());
                c = c + 1;
            }
            assert((r + 1) * width == r * width + width) by (nonlinear_arith);
            r = r + 1;
        }
        assert(height * width == width * height) by (nonlinear_arith);
        Grid { width, height, cells }
    }

    /// The backing store of the grid, in row-major order.
    pub fn cells(&self) -> (cs: &Vec<CellType>)
        ensures
            cs@ == self@.cells,
    {
        &self.cells
    }

    /// The backing store of the grid, in row-major order, for direct
    /// manipulation. Writing through it can change the cells but never the
    /// grid's dimensions; shrinking it below width times height leaves the
    /// grid without its well-formedness.
    pub fn cells_mut(&mut self) -> (cs: &mut Vec<CellType>)
        ensures
            cs@ == old(self)@.cells,
            final(self)@.cells == final(cs)@,
            final(self)@.width == old(self)@.width,
            final(self)@.height == old(self)@.height,
    {
        &mut self.cells
    }

    /// The cell at the given row/column pair.
    pub fn get(&self, rc: &RC) -> (cell: &CellType)
        requires
            self@.wf(),
            self@.in_bounds(*rc),
        ensures
            *cell == self@.at(*rc),
    {
        let n = self.cells.len();
        proof {
            self@.lemma_index_of_in_range(*rc);
        }
        &self.cells[rc.0 * self.width + rc.1]
    }

    /// Replaces the cell at the given row/column pair.
    pub fn set(&mut self, rc: &RC, value: CellType)
        requires
            old(self)@.wf(),
            old(self)@.in_bounds(*rc),
        ensures
            final(self)@ == old(self)@.with_cell(*rc, value),
            final(self)@.wf(),
    {
        let n = self.cells.len();
        proof {
            self@.lemma_index_of_in_range(*rc);
        }
        let i = rc.0 * self.width + rc.1;
        self.cells.set(i, value);
    }

    /// Every position of the grid exactly once, ascending row then column.
    /// Basically reading order.
    pub fn enumerate_row_col(&self) -> (positions: Vec<RC>)
        requires
            self@.wf(),
        ensures
            positions@.len() == self@.cells.len(),
            forall|k: int|
                0 <= k < positions@.len() ==> self@.in_bounds(#[trigger] positions@[k])
                    && self@.index_of(positions@[k]) == k,
    {
        let mut positions: Vec<RC> = Vec::new();
        let mut r: usize = 0;
        while r < self.height
            invariant
                r <= self@.height,
                self@.wf(),
                self.width == self@.width,
                self.height == self@.height,
                positions@.len() == r * self@.width,
                forall|k: int|
                    0 <= k < positions@.len() ==> self@.in_bounds(#[trigger] positions@[k])
                        && self@.index_of(positions@[k]) == k,
            decreases self@.height - r,
        {
            let mut c: usize = 0;
            while c < self.width
                invariant
                    r < self@.height,
                    c <= self@.width,
                    self@.wf(),
                    self.width == self@.width,
                    self.height == self@.height,
                    positions@.len() == r * self@.width + c,
                    forall|k: int|
                        0 <= k < positions@.len() ==> self@.in_bounds(#[trigger] positions@[k])
                            && self@.index_of(positions@[k]) == k,
                decreases self@.width - c,
            {
                proof {
                    self@.lemma_index_of_in_range(RC(r, c));
                }
                positions.push(RC(r, c));
                c = c + 1;
            }
            assert((r + 1) * self@.width == r * self@.width + self@.width) by (nonlinear_arith);
            r = r + 1;
        }
        proof {
            assert(positions@.len() == self@.height * self@.width);
            assert(self@.height * self@.width == self@.width * self@.height) by (nonlinear_arith);
        }
        positions
    }
}

} // verus!
