use vstd::prelude::*;
use vstd::arithmetic::div_mod::{
    lemma_mod_bound, lemma_mod_multiples_vanish, lemma_mod_self_0, lemma_multiply_divide_lt,
    lemma_small_mod,
};
use crate::cell::Cell;
use crate::grid::{
    cell_index, col_of, lemma_cell_index_bounds, live_neighbors, next_cell, next_gen, row_of,
    wrap_dec, wrap_inc,
};
use crate::raster::{
    cell_color, raster_as_bytes, raster_bytes, raster_dims, raster_from_bytes, rendered, Raster,
};

verus! {

/// Largest accepted grid width or height; keeps every index and buffer-size
/// computation within machine bounds.
pub const MAX_DIM: u32 = 4096;

/// A toroidal cellular-automaton grid together with its derived pixel
/// raster.
pub struct Universe {
    width: u32,
    height: u32,
    cells: Vec<Cell>,
    image_buffer: Raster,
}

/// The exec form of the wraparound: decrementing a coordinate that is in
/// range wraps zero to `n - 1`, incrementing wraps `n - 1` to zero.
pub(crate) proof fn lemma_wrap_exec(i: int, n: int)
    requires
        0 <= i < n,
    ensures
        wrap_dec(i, n) == if i == 0 {
            n - 1
        } else {
            i - 1
        },
        wrap_inc(i, n) == if i + 1 == n {
            0
        } else {
            i + 1
        },
{
    if i == 0 {
        lemma_small_mod((n - 1) as nat, n as nat);
    } else {
        lemma_mod_multiples_vanish(1, i - 1, n);
        lemma_small_mod((i - 1) as nat, n as nat);
    }
    if i + 1 == n {
        lemma_mod_self_0(n);
    } else {
        lemma_small_mod((i + 1) as nat, n as nat);
    }
}

/// Applies the generation rule to one cell: a live cell survives with 2 or
/// 3 live neighbors and otherwise dies; a dead cell comes alive with
/// exactly 3 live neighbors and otherwise stays dead.
fn advance_cell(c: Cell, n: u8) -> (r: Cell)
    ensures
        r == next_cell(c, n as int),
{
    match c {
        Cell::Alive => {
            if n < 2 {
                Cell::Dead
            } else if n <= 3 {
                Cell::Alive
            } else {
                Cell::Dead
            }
        },
        Cell::Dead => {
            if n == 3 {
                Cell::Alive
            } else {
                Cell::Dead
            }
        },
    }
}

/// Channel `k` of the RGBA color a cell is painted with: a dead cell gets
/// the fixed dead color, a live one the palette color selected by `pick`.
fn color_byte(c: Cell, pick: u8, k: usize) -> (b: u8)
    requires
        pick < 3,
        k < 4,
    ensures
        b == cell_color(c, pick)[k as int],
{
    match c {
        Cell::Dead => {
            if k == 3 {
                255
            } else {
                40
            }
        },
        Cell::Alive => {
            if pick == 0 {
                if k == 0 {
                    141
                } else if k == 1 {
                    173
                } else if k == 2 {
                    130
                } else {
                    255
                }
            } else if pick == 1 {
                if k == 0 {
                    181
                } else if k == 1 {
                    110
                } else if k == 2 {
                    48
                } else {
                    255
                }
            } else {
                if k == 0 {
                    135
                } else if k == 1 {
                    173
                } else if k == 2 {
                    163
                } else {
                    255
                }
            }
        },
    }
}

/// Copies a byte vector.
fn copy_bytes(v: &Vec<u8>) -> (r: Vec<u8>)
    ensures
        r@ == v@,
{
    let mut r: Vec<u8> = Vec::new();
    let mut i: usize = 0;
    while i < v.len()
        invariant
            i <= v@.len(),
            r@.len() == i,
            forall|j: int| 0 <= j < i ==> r@[j] == v@[j],
        decreases v@.len() - i,
    {
        r.push(v[i]);
        i = i + 1;
    }
    proof {
        assert(r@ =~= v@);
    }
    r
}

impl Universe {
    /// Grid width in cells.
    pub closed spec fn spec_width(&self) -> u32 {
        self.width
    }

    /// Grid height in cells.
    pub closed spec fn spec_height(&self) -> u32 {
        self.height
    }

    /// The cells, row-major.
    pub closed spec fn spec_cells(&self) -> Seq<Cell> {
        self.cells@
    }

    /// The bytes of the pixel raster.
    pub closed spec fn spec_raster(&self) -> Seq<u8> {
        raster_bytes(self.image_buffer)
    }

    /// The raster was made with dimensions `4 * width` by `4 * height`.
    pub closed spec fn raster_dims_ok(&self) -> bool {
        raster_dims(self.image_buffer).0 == 4 * self.width && raster_dims(self.image_buffer).1
            == 4 * self.height
    }

    /// A well-formed grid: dimensions within bounds, one cell per grid
    /// position, and a raster of `4 * width` by `4 * height` RGBA pixels.
    pub open spec fn wf(&self) -> bool {
        &&& self.spec_width() <= MAX_DIM
        &&& self.spec_height() <= MAX_DIM
        &&& self.spec_cells().len() == self.spec_width() * self.spec_height()
        &&& self.raster_dims_ok()
        &&& self.spec_raster().len() == 64 * self.spec_width() * self.spec_height()
    }

    /// Builds a grid of the given dimensions. Cell `i` starts alive exactly
    /// where `seed[i]` holds; the caller draws the seed from its random
    /// source, one draw per cell. The raster starts all zero and gets its
    /// contents from the first render.
    pub fn new(width: u32, height: u32, seed: &Vec<bool>) -> (u: Universe)
        requires
            width <= MAX_DIM,
            height <= MAX_DIM,
            seed@.len() == width * height,
        ensures
            u.wf(),
            u.spec_width() == width,
            u.spec_height() == height,
            forall|i: int|
                0 <= i < seed@.len() ==> u.spec_cells()[i] == (if seed@[i] {
                    Cell::Alive
                } else {
                    Cell::Dead
                }),
    {
        proof {
            assert(width * height <= 0x100_0000 && 64 * width * height <= 0x4000_0000)
                by (nonlinear_arith)
                requires
                    width <= 4096,
                    height <= 4096,
            ;
        }
        let n: usize = (width as usize) * (height as usize);
        let mut cells: Vec<Cell> = Vec::new();
        let mut i: usize = 0;
        while i < n
            invariant
                i <= n,
                n == width * height,
                seed@.len() == n,
                cells@.len() == i,
                forall|j: int|
                    0 <= j < i ==> cells@[j] == (if seed@[j] {
                        Cell::Alive
                    } else {
                        Cell::Dead
                    }),
            decreases n - i,
        {
            if seed[i] {
                cells.push(Cell::Alive);
            } else {
                cells.push(Cell::Dead);
            }
            i = i + 1;
        }
        let total: usize = 64 * n;
        let mut zeros: Vec<u8> = Vec::new();
        let mut p: usize = 0;
        while p < total
            invariant
                p <= total,
                zeros@.len() == p,
            decreases total - p,
        {
            zeros.push(0u8);
            p = p + 1;
        }
        proof {
            assert(64 * ((width * height) as int) == 4 * (4 * width) * (4 * height)
                && 64 * ((width * height) as int) == 64 * width * height) by (nonlinear_arith);
        }
        let buffer: Raster = raster_from_bytes(4 * width, 4 * height, zeros);
        Universe { width, height, cells, image_buffer: buffer }
    }

    /// Linear index of the cell at `(row, column)`: both coordinates are
    /// reduced modulo the grid dimensions before indexing, so any
    /// coordinates map into the grid and neighbor lookups never leave it.
    pub fn get_index(&self, row: u32, column: u32) -> (index: usize)
        requires
            self.wf(),
            self.spec_width() > 0,
            self.spec_height() > 0,
        ensures
            index == cell_index(
                self.spec_width() as int,
                self.spec_height() as int,
                row as int,
                column as int,
            ),
            index < self.spec_cells().len(),
    {
        proof {
            lemma_cell_index_bounds(
                self.width as int,
                self.height as int,
                row as int,
                column as int,
            );
            assert(self.width * self.height <= 0x100_0000) by (nonlinear_arith)
                requires
                    self.width <= 4096,
                    self.height <= 4096,
            ;
        }
        let overflowed_row: u32 = row % self.height;
        let overflowed_column: u32 = column % self.width;
        (overflowed_row * self.width + overflowed_column) as usize
    }

    /// Inverse mapping: the `(row, column)` position of a linear cell
    /// index.
    pub fn get_pos(&self, index: u32) -> (pos: (usize, usize))
        requires
            self.wf(),
            self.spec_width() > 0,
        ensures
            pos.0 == row_of(self.spec_width() as int, index as int),
            pos.1 == col_of(self.spec_width() as int, index as int),
    {
        let row: u32 = index / self.width;
        let column: u32 = index % self.width;
        (row as usize, column as usize)
    }

    /// Grid width in cells.
    pub fn width(&self) -> (w: u32)
        ensures
            w == self.spec_width(),
    {
        self.width
    }

    /// Grid height in cells.
    pub fn height(&self) -> (h: u32)
        ensures
            h == self.spec_height(),
    {
        self.height
    }

    /// The cells, row-major, as a fresh vector.
    pub fn cells(&self) -> (r: Vec<Cell>)
        ensures
            r@ == self.spec_cells(),
    {
        let mut r: Vec<Cell> = Vec::new();
        let mut i: usize = 0;
        while i < self.cells.len()
            invariant
                i <= self.spec_cells().len(),
                r@.len() == i,
                forall|j: int| 0 <= j < i ==> r@[j] == self.spec_cells()[j],
            decreases self.spec_cells().len() - i,
        {
            r.push(self.cells[i]);
            i = i + 1;
        }
        proof {
            assert(r@ =~= self.spec_cells());
        }
        r
    }

    /// Number of live cells among the 8 neighbors (orthogonal and
    /// diagonal) of the cell at `(row, col)`. Offsets wrap around the grid
    /// edges instead of being dropped, so corner and edge cells see a full
    /// ring of neighbors; the count never exceeds 8.
    pub fn live_neighbor_count(&self, row: u32, col: u32) -> (n: u8)
        requires
            self.wf(),
            row < self.spec_height(),
            col < self.spec_width(),
        ensures
            n == live_neighbors(
                self.spec_cells(),
                self.spec_width() as int,
                self.spec_height() as int,
                row as int,
                col as int,
            ),
            n <= 8,
    {
        let up: u32 = if row == 0 {
            self.height - 1
        } else {
            row - 1
        };
        let down: u32 = if row + 1 == self.height {
            0
        } else {
            row + 1
        };
        let left: u32 = if col == 0 {
            self.width - 1
        } else {
            col - 1
        };
        let right: u32 = if col + 1 == self.width {
            0
        } else {
            col + 1
        };
        proof {
            lemma_wrap_exec(row as int, self.height as int);
            lemma_wrap_exec(col as int, self.width as int);
        }
        let mut n: u8 = 0;
        n = n + self.cells[self.get_index(up, left)].weight();
        n = n + self.cells[self.get_index(up, col)].weight();
        n = n + self.cells[self.get_index(up, right)].weight();
        n = n + self.cells[self.get_index(row, left)].weight();
        n = n + self.cells[self.get_index(row, right)].weight();
        n = n + self.cells[self.get_index(down, left)].weight();
        n = n + self.cells[self.get_index(down, col)].weight();
        n = n + self.cells[self.get_index(down, right)].weight();
        n
    }

    /// Advances the grid one generation. Every cell is advanced by the
    /// rule, each from its current state and its current neighbor count,
    /// and the cell array is replaced wholesale, never updated in place.
    /// The raster is untouched.
    pub fn tick(&mut self)
        requires
            old(self).wf(),
        ensures
            final(self).wf(),
            final(self).spec_width() == old(self).spec_width(),
            final(self).spec_height() == old(self).spec_height(),
            final(self).spec_cells() == next_gen(
                old(self).spec_cells(),
                old(self).spec_width() as int,
                old(self).spec_height() as int,
            ),
            final(self).spec_raster() == old(self).spec_raster(),
    {
        let w: u32 = self.width;
        let h: u32 = self.height;
        let n: usize = self.cells.len();
        proof {
            assert(w * h <= 0x100_0000) by (nonlinear_arith)
                requires
                    w <= 4096,
                    h <= 4096,
            ;
        }
        let mut next: Vec<Cell> = Vec::new();
        let mut i: usize = 0;
        while i < n
            invariant
                self.wf(),
                w == self.spec_width(),
                h == self.spec_height(),
                n == self.spec_cells().len(),
                n <= 0x100_0000,
                i <= n,
                next@.len() == i,
                forall|j: int|
                    0 <= j < i ==> next@[j] == next_gen(
                        self.spec_cells(),
                        w as int,
                        h as int,
                    )[j],
            decreases n - i,
        {
            proof {
                assert(w > 0 && h > 0) by (nonlinear_arith)
                    requires
                        n == w * h,
                        0 <= i < n,
                ;
                lemma_multiply_divide_lt(i as int, w as int, h as int);
                lemma_mod_bound(i as int, w as int);
            }
            let pos: (usize, usize) = self.get_pos(i as u32);
            let count: u8 = self.live_neighbor_count(pos.0 as u32, pos.1 as u32);
            let cur: Cell = self.cells[i];
            let stepped: Cell = advance_cell(cur, count);
            next.push(stepped);
            i = i + 1;
        }
        proof {
            assert(next@ =~= next_gen(self.spec_cells(), w as int, h as int));
        }
        self.cells = next;
    }

    /// Renders the grid into the pixel raster: each cell becomes a solid
    /// 4x4 block of RGBA pixels, a live cell in the palette color selected
    /// by its pick, a dead cell in the fixed dead color. The caller draws
    /// one pick per cell from its random source, fresh on every call. The
    /// raster is replaced wholesale, and the same bytes are returned for
    /// the caller to hand to its display.
    pub fn paint_state(&mut self, picks: &Vec<u8>) -> (bytes: Vec<u8>)
        requires
            old(self).wf(),
            picks@.len() == old(self).spec_cells().len(),
            forall|i: int| 0 <= i < picks@.len() ==> picks@[i] < 3,
        ensures
            final(self).wf(),
            final(self).spec_width() == old(self).spec_width(),
            final(self).spec_height() == old(self).spec_height(),
            final(self).spec_cells() == old(self).spec_cells(),
            bytes@ == rendered(
                old(self).spec_cells(),
                picks@,
                old(self).spec_width() as int,
                old(self).spec_height() as int,
            ),
            final(self).spec_raster() == bytes@,
    {
        let w: u32 = self.width;
        let h: u32 = self.height;
        proof {
            assert(w * h <= 0x100_0000 && (64 * (w as int)) * (h as int) <= 0x4000_0000)
                by (nonlinear_arith)
                requires
                    w <= 4096,
                    h <= 4096,
            ;
        }
        let wu: usize = w as usize;
        let total: usize = 64 * wu * (h as usize);
        let mut bytes: Vec<u8> = Vec::new();
        let mut p: usize = 0;
        while p < total
            invariant
                self.wf(),
                w == self.spec_width(),
                h == self.spec_height(),
                wu == w,
                total == 64 * w * h,
                total <= 0x4000_0000,
                picks@.len() == self.spec_cells().len(),
                forall|i: int| 0 <= i < picks@.len() ==> picks@[i] < 3,
                p <= total,
                bytes@.len() == p,
                forall|j: int|
                    0 <= j < p ==> bytes@[j] == rendered(
                        self.spec_cells(),
                        picks@,
                        w as int,
                        h as int,
                    )[j],
            decreases total - p,
        {
            proof {
                assert(w > 0 && h > 0) by (nonlinear_arith)
                    requires
                        total == 64 * w * h,
                        0 <= p < total,
                ;
            }
            let k: usize = p % 4;
            let q: usize = p / 4;
            let rw: usize = 4 * wu;
            let x: usize = q % rw;
            let y: usize = q / rw;
            let row: usize = y / 4;
            let col: usize = x / 4;
            proof {
                assert(64 * (w as int) * (h as int) == 4 * ((4 * (w as int)) * (4 * (h as int))))
                    by (nonlinear_arith);
                lemma_multiply_divide_lt(p as int, 4, (4 * (w as int)) * (4 * (h as int)));
                lemma_multiply_divide_lt(q as int, 4 * (w as int), 4 * (h as int));
                lemma_mod_bound(q as int, 4 * (w as int));
                lemma_multiply_divide_lt(y as int, 4, h as int);
                lemma_multiply_divide_lt(x as int, 4, w as int);
                assert((row as int) * (w as int) + (col as int) < (w as int) * (h as int)
                    && (row as int) * (w as int) >= 0 && (w as int) * (h as int) <= 0x100_0000)
                    by (nonlinear_arith)
                    requires
                        0 < w <= 4096,
                        0 < h <= 4096,
                        0 <= (row as int) < h,
                        0 <= (col as int) < w,
                ;
            }
            let ci: usize = row * wu + col;
            let c: Cell = self.cells[ci];
            let pk: u8 = picks[ci];
            let b: u8 = color_byte(c, pk, k);
            bytes.push(b);
            p = p + 1;
        }
        proof {
            assert(bytes@ =~= rendered(self.spec_cells(), picks@, w as int, h as int));
            assert(64 * ((w * h) as int) == 4 * (4 * w) * (4 * h)
                && 64 * ((w * h) as int) == 64 * w * h) by (nonlinear_arith);
        }
        let out: Vec<u8> = copy_bytes(&bytes);
        let buffer: Raster = raster_from_bytes(4 * w, 4 * h, out);
        self.image_buffer = buffer;
        bytes
    }

    /// The bytes currently in the pixel raster.
    pub fn raster_data(&self) -> (r: Vec<u8>)
        ensures
            r@ == self.spec_raster(),
    {
        copy_bytes(raster_as_bytes(&self.image_buffer))
    }
}

} // verus!
