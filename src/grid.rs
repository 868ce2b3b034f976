use vstd::prelude::*;

verus! {

/// A cell coordinate on a grid; `x` grows to the right, `y` grows upward.
#[derive(Clone, Copy, Debug, PartialEq, Eq, Structural)]
pub struct Position {
    pub x: i32,
    pub y: i32,
}

impl Position {
    pub fn new(x: i32, y: i32) -> (r: Position)
        ensures
            r.x == x,
            r.y == y,
    {
        Position { x, y }
    }
}

/// The linear index of cell `(x, y)` on a grid `w` cells wide.
pub open spec fn cell_index(w: int, x: int, y: int) -> int {
    y * w + x
}

/// Whether `(x, y)` lies on a grid of `w` by `h` cells.
pub open spec fn in_rect(w: int, h: int, x: int, y: int) -> bool {
    0 <= x < w && 0 <= y < h
}

pub proof fn lemma_cell_index_bounds(w: int, h: int, x: int, y: int)
    requires
        in_rect(w, h, x, y),
    ensures
        0 <= cell_index(w, x, y) < w * h,
{
    assert(0 <= y * w + x < w * h) by (nonlinear_arith)
        requires 0 <= x < w, 0 <= y < h;
}

pub proof fn lemma_cell_index_injective(w: int, x1: int, y1: int, x2: int, y2: int)
    requires
        0 <= x1 < w,
        0 <= x2 < w,
        0 <= y1,
        0 <= y2,
        cell_index(w, x1, y1) == cell_index(w, x2, y2),
    ensures
        x1 == x2,
        y1 == y2,
{
    if y1 < y2 {
        assert(y1 * w + w <= y2 * w) by (nonlinear_arith)
            requires y1 < y2, 0 <= w;
    } else if y2 < y1 {
        assert(y2 * w + w <= y1 * w) by (nonlinear_arith)
            requires y2 < y1, 0 <= w;
    }
}

/// A rectangular array of cells stored row by row.
pub struct Grid<T> {
    pub width: usize,
    pub height: usize,
    pub cells: Vec<T>,
}

impl<T: Copy> Grid<T> {
    pub open spec fn wf(&self) -> bool {
        self.cells@.len() == self.width * self.height
    }

    pub open spec fn w(&self) -> int {
        self.width as int
    }

    pub open spec fn h(&self) -> int {
        self.height as int
    }

    pub open spec fn has(&self, x: int, y: int) -> bool {
        in_rect(self.w(), self.h(), x, y)
    }

    /// The value at cell `(x, y)`.
    pub open spec fn at(&self, x: int, y: int) -> T {
        self.cells@[cell_index(self.w(), x, y)]
    }

    /// A grid of `width` by `height` cells, each holding `fill`.
    pub fn new(width: usize, height: usize, fill: T) -> (r: Grid<T>)
        requires
            width * height <= usize::MAX,
        ensures
            r.wf(),
            r.width == width,
            r.height == height,
            forall|i: int| 0 <= i < r.cells@.len() ==> r.cells@[i] == fill,
    {
        let n: usize = width * height;
        let mut cells: Vec<T> = Vec::with_capacity(n);
        let mut i: usize = 0;
        while i < n
            invariant
                i <= n,
                cells@.len() == i,
                forall|k: int| 0 <= k < i ==> cells@[k] == fill,
            decreases n - i,
        {
            cells.push(fill);
            i = i + 1;
        }
        Grid { width, height, cells }
    }

    /// The number of cells.
    pub fn tile_count(&self) -> (r: usize)
        requires
            self.wf(),
        ensures
            r == self.width * self.height,
    {
        self.cells.len()
    }

    /// Whether `(x, y)` lies on the grid.
    pub fn in_bounds(&self, x: i32, y: i32) -> (r: bool)
        ensures
            r == self.has(x as int, y as int),
    {
        0 <= x && 0 <= y && (x as usize) < self.width && (y as usize) < self.height
    }

    /// The linear index of an on-grid cell.
    pub fn index_of(&self, x: i32, y: i32) -> (r: usize)
        requires
            self.wf(),
            self.has(x as int, y as int),
        ensures
            r as int == cell_index(self.w(), x as int, y as int),
            r < self.cells@.len(),
    {
        let n = self.cells.len();
        proof {
            lemma_cell_index_bounds(self.w(), self.h(), x as int, y as int);
            assert((y as int) * self.w() + (x as int) < n);
        }
        (y as usize) * self.width + (x as usize)
    }

    pub fn get(&self, x: i32, y: i32) -> (r: T)
        requires
            self.wf(),
            self.has(x as int, y as int),
        ensures
            r == self.at(x as int, y as int),
    {
        let i = self.index_of(x, y);
        self.cells[i]
    }

    pub fn set(&mut self, x: i32, y: i32, v: T)
        requires
            old(self).wf(),
            old(self).has(x as int, y as int),
        ensures
            final(self).wf(),
            final(self).width == old(self).width,
            final(self).height == old(self).height,
            final(self).cells@ == old(self).cells@.update(
                cell_index(old(self).w(), x as int, y as int),
                v,
            ),
            forall|a: int, b: int|
                #![trigger final(self).at(a, b)]
                old(self).has(a, b) ==> final(self).at(a, b) == (if a == x && b == y {
                    v
                } else {
                    old(self).at(a, b)
                }),
    {
        let i = self.index_of(x, y);
        self.cells.set(i, v);
        proof {
            assert forall|a: int, b: int|
                #![trigger self.at(a, b)]
                old(self).has(a, b) implies self.at(a, b) == (if a == x && b == y {
                    v
                } else {
                    old(self).at(a, b)
                }) by {
                lemma_cell_index_bounds(self.w(), self.h(), a, b);
                if cell_index(self.w(), a, b) == cell_index(self.w(), x as int, y as int) {
                    lemma_cell_index_injective(self.w(), a, b, x as int, y as int);
                }
            }
        }
    }

    /// Writes `v` into every cell.
    pub fn fill(&mut self, v: T)
        requires
            old(self).wf(),
        ensures
            final(self).wf(),
            final(self).width == old(self).width,
            final(self).height == old(self).height,
            forall|i: int| 0 <= i < final(self).cells@.len() ==> final(self).cells@[i] == v,
    {
        let n = self.cells.len();
        let mut i: usize = 0;
        while i < n
            invariant
                i <= n,
                self.wf(),
                self.cells@.len() == n,
                self.width == old(self).width,
                self.height == old(self).height,
                forall|k: int| 0 <= k < i ==> self.cells@[k] == v,
            decreases n - i,
        {
            self.cells.set(i, v);
            i = i + 1;
        }
    }
}

} // verus!
