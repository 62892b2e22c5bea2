//! The grid engine: a bit-packed toroidal universe with double-buffered
//! updates.

use vstd::prelude::*;
use vstd::arithmetic::div_mod::lemma_mod_multiples_vanish;
use vstd::arithmetic::div_mod::lemma_mod_bound;
use dubble::DoubleBuffered;
use fixedbitset::FixedBitSet;
use crate::model::cell_at;
use crate::model::glider_offsets;
use crate::model::lemma_rm_index_bounds;
use crate::model::lemma_stamped_empty;
use crate::model::lemma_stamped_take_succ;
use crate::model::lemma_step_at;
use crate::model::neighbor_count;
use crate::model::offsets_view;
use crate::model::pulsar_offsets;
use crate::model::rm_index;
use crate::model::stamp_index;
use crate::model::stamped;
use crate::model::step;
use crate::model::step_n;
use crate::storage::bits_of;
use crate::storage::db_clear;
use crate::storage::db_commit;
use crate::storage::db_contains;
use crate::storage::db_grow;
use crate::storage::db_insert;
use crate::storage::db_len;
use crate::storage::db_new;
use crate::storage::db_read;
use crate::storage::db_set;
use crate::storage::db_toggle;
use crate::storage::db_upsert;
use crate::storage::fbs_with_capacity;
use crate::storage::random_cell;
use crate::storage::read_bits;
use crate::storage::write_bits;

verus! {

/// Abstract state of a universe: its dimensions, the published cell array in
/// row-major order (`true` is alive), and the tick multiplier of `update`.
pub ghost struct GridView {
    pub width: int,
    pub height: int,
    pub cells: Seq<bool>,
    pub ticks_per_update: int,
}

/// Main data structure to store the universe state.
///
/// Uses a double-buffered strategy to update the cell states: every pass
/// reads the published buffer and writes the scratch buffer, then commits.
pub struct Universe {
    width: u32,
    height: u32,
    cells: DoubleBuffered<FixedBitSet>,
    n_ticks: u32,
}

impl View for Universe {
    type V = GridView;

    closed spec fn view(&self) -> GridView {
        GridView {
            width: self.width as int,
            height: self.height as int,
            cells: read_bits(self.cells),
            ticks_per_update: self.n_ticks as int,
        }
    }
}

impl Universe {
    /// The cell count fits the index type.
    spec fn dims_ok(&self) -> bool {
        self.width * self.height <= u32::MAX
    }

    /// Internal consistency: the cell count fits the index type, the
    /// published buffer holds one bit per cell, and between operations the
    /// scratch buffer agrees with it, so that a partial write never leaks
    /// into a read.
    pub closed spec fn wf(&self) -> bool {
        &&& self.dims_ok()
        &&& read_bits(self.cells).len() == self.width * self.height
        &&& write_bits(self.cells) == read_bits(self.cells)
    }

    /// Initializes the universe with a given size.
    ///
    /// The state of the cells will be set randomly to alive or dead.
    pub fn new(width: u32, height: u32) -> (u: Universe)
        requires
            width * height <= u32::MAX,
        ensures
            u.wf(),
            u@.width == width,
            u@.height == height,
            u@.ticks_per_update == 1,
            u@.cells.len() == width * height,
    {
        let size = (width * height) as usize;
        let cells = db_new(fbs_with_capacity(size));
        let mut universe = Universe { width, height, cells, n_ticks: 1 };
        universe.reset();
        universe
    }

    pub fn width(&self) -> (w: u32)
        ensures
            w == self@.width,
    {
        self.width
    }

    pub fn height(&self) -> (h: u32)
        ensures
            h == self@.height,
    {
        self.height
    }

    /// Get the size of the universe in number of cells.
    pub fn size(&self) -> (s: usize)
        requires
            self.wf(),
        ensures
            s == self@.width * self@.height,
            s == self@.cells.len(),
    {
        (self.width * self.height) as usize
    }

    /// Draw a fresh random state for every cell of the scratch buffer, then
    /// publish it.
    fn randomize(&mut self)
        requires
            old(self).dims_ok(),
            write_bits(old(self).cells).len() == old(self).width * old(self).height,
        ensures
            final (self).wf(),
            final (self)@.width == old(self)@.width,
            final (self)@.height == old(self)@.height,
            final (self)@.ticks_per_update == old(self)@.ticks_per_update,
    {
        let size = (self.width * self.height) as usize;
        for i in 0..size
            invariant
                self.width == old(self).width,
                self.height == old(self).height,
                self.n_ticks == old(self).n_ticks,
                size == self.width * self.height,
                self.dims_ok(),
                write_bits(self.cells).len() == size,
                read_bits(self.cells) == read_bits(old(self).cells),
        {
            let alive = random_cell();
            db_set(&mut self.cells, i, alive);
        }
        db_commit(&mut self.cells);
    }

    /// Set a new size for the universe and set a new random state.
    ///
    /// A larger grid grows the storage (new bits clear), a smaller one
    /// replaces it with a fresh clear array, an equal one keeps it; in every
    /// branch the grid is then fully re-randomized.
    fn reset_with_size(&mut self, new_size: usize)
        requires
            old(self).dims_ok(),
            new_size == old(self).width * old(self).height,
            write_bits(old(self).cells) == read_bits(old(self).cells),
        ensures
            final (self).wf(),
            final (self)@.width == old(self)@.width,
            final (self)@.height == old(self)@.height,
            final (self)@.ticks_per_update == old(self)@.ticks_per_update,
    {
        let curr_size = db_len(&self.cells);
        if new_size > curr_size {
            db_grow(&mut self.cells, new_size);
        } else if new_size < curr_size {
            db_upsert(&mut self.cells, fbs_with_capacity(new_size));
        }
        self.randomize();
    }

    /// Randomly reset all the cells.
    pub fn reset(&mut self)
        requires
            old(self).wf(),
        ensures
            final (self).wf(),
            final (self)@.width == old(self)@.width,
            final (self)@.height == old(self)@.height,
            final (self)@.ticks_per_update == old(self)@.ticks_per_update,
            final (self)@.cells.len() == old(self)@.width * old(self)@.height,
    {
        self.randomize();
    }

    /// Reset the universe with all the cells dead.
    pub fn clear(&mut self)
        requires
            old(self).wf(),
        ensures
            final (self).wf(),
            final (self)@.width == old(self)@.width,
            final (self)@.height == old(self)@.height,
            final (self)@.ticks_per_update == old(self)@.ticks_per_update,
            final (self)@.cells == Seq::new(
                (old(self)@.width * old(self)@.height) as nat,
                |i: int| false,
            ),
    {
        db_clear(&mut self.cells);
        db_commit(&mut self.cells);
    }

    /// Set the number of world updates (ticks) per update.
    pub fn set_ticks(&mut self, ticks: u32)
        ensures
            final (self)@.width == old(self)@.width,
            final (self)@.height == old(self)@.height,
            final (self)@.cells == old(self)@.cells,
            final (self)@.ticks_per_update == ticks,
            final (self).wf() == old(self).wf(),
    {
        self.n_ticks = ticks;
    }

    /// Set the width of the universe.
    ///
    /// Always yields a fresh random configuration, whatever the old and the
    /// new size.
    pub fn set_width(&mut self, width: u32)
        requires
            old(self).wf(),
            width * old(self)@.height <= u32::MAX,
        ensures
            final (self).wf(),
            final (self)@.width == width,
            final (self)@.height == old(self)@.height,
            final (self)@.ticks_per_update == old(self)@.ticks_per_update,
            final (self)@.cells.len() == width * old(self)@.height,
    {
        self.width = width;
        let new_size = (width * self.height) as usize;
        self.reset_with_size(new_size);
    }

    /// Set the height of the universe.
    ///
    /// Always yields a fresh random configuration, whatever the old and the
    /// new size.
    pub fn set_height(&mut self, height: u32)
        requires
            old(self).wf(),
            old(self)@.width * height <= u32::MAX,
        ensures
            final (self).wf(),
            final (self)@.width == old(self)@.width,
            final (self)@.height == height,
            final (self)@.ticks_per_update == old(self)@.ticks_per_update,
            final (self)@.cells.len() == old(self)@.width * height,
    {
        self.height = height;
        let new_size = (self.width * height) as usize;
        self.reset_with_size(new_size);
    }

    /// Get a read-only copy of the cells state data.
    pub fn cells(&self) -> (v: Vec<bool>)
        requires
            self.wf(),
        ensures
            v@ == self@.cells,
    {
        let size = self.size();
        let mut v: Vec<bool> = Vec::new();
        for i in 0..size
            invariant
                self.wf(),
                size == self@.cells.len(),
                v@.len() == i,
                forall|j: int| 0 <= j < i ==> v@[j] == self@.cells[j],
        {
            let alive = db_contains(&self.cells, i);
            v.push(alive);
        }
        proof {
            assert(v@ =~= self@.cells);
        }
        v
    }

    /// Get the index of a cell in the data array.
    fn get_index(&self, row: u32, column: u32) -> (idx: usize)
        requires
            self.dims_ok(),
            row < self.height,
            column < self.width,
        ensures
            idx == rm_index(self@.width, row as int, column as int),
            idx < self@.width * self@.height,
    {
        proof {
            lemma_rm_index_bounds(self.width as int, self.height as int, row as int, column as int);
        }
        (row * self.width + column) as usize
    }

    /// Returns the number of alive neighbors for a given cell, with both
    /// coordinates wrapping around the torus.
    fn live_neighbor_count(&self, row: u32, column: u32) -> (count: u8)
        requires
            self.dims_ok(),
            read_bits(self.cells).len() == self.width * self.height,
            row < self.height,
            column < self.width,
        ensures
            count == neighbor_count(self@.cells, self@.width, self@.height, row as int, column as int),
    {
        let mut count: u8 = 0;

        let north = if row == 0 { self.height - 1 } else { row - 1 };
        let south = if row == self.height - 1 { 0 } else { row + 1 };
        let west = if column == 0 { self.width - 1 } else { column - 1 };
        let east = if column == self.width - 1 { 0 } else { column + 1 };

        let nw = self.get_index(north, west);
        if db_contains(&self.cells, nw) {
            count += 1;
        }
        let n = self.get_index(north, column);
        if db_contains(&self.cells, n) {
            count += 1;
        }
        let ne = self.get_index(north, east);
        if db_contains(&self.cells, ne) {
            count += 1;
        }
        let w = self.get_index(row, west);
        if db_contains(&self.cells, w) {
            count += 1;
        }
        let e = self.get_index(row, east);
        if db_contains(&self.cells, e) {
            count += 1;
        }
        let sw = self.get_index(south, west);
        if db_contains(&self.cells, sw) {
            count += 1;
        }
        let s = self.get_index(south, column);
        if db_contains(&self.cells, s) {
            count += 1;
        }
        let se = self.get_index(south, east);
        if db_contains(&self.cells, se) {
            count += 1;
        }
        count
    }

    /// Compute the next universe state.
    ///
    /// The number of single-step transitions is `ticks_per_update`, with no
    /// intermediate state visible in between.
    pub fn update(&mut self)
        requires
            old(self).wf(),
            1 <= old(self)@.width,
            1 <= old(self)@.height,
        ensures
            final (self).wf(),
            final (self)@.width == old(self)@.width,
            final (self)@.height == old(self)@.height,
            final (self)@.ticks_per_update == old(self)@.ticks_per_update,
            final (self)@.cells == step_n(
                old(self)@.cells,
                old(self)@.width,
                old(self)@.height,
                old(self)@.ticks_per_update as nat,
            ),
    {
        let n = self.n_ticks;
        for k in 0..n
            invariant
                self.wf(),
                1 <= self.width,
                1 <= self.height,
                self.width == old(self).width,
                self.height == old(self).height,
                self.n_ticks == old(self).n_ticks,
                n == self.n_ticks,
                self@.cells == step_n(old(self)@.cells, self@.width, self@.height, k as nat),
        {
            self.tick();
        }
    }

    /// Update the universe state by one tick.
    ///
    /// Every cell of the new generation is computed from the previous
    /// generation: the pass reads only the published buffer, writes only the
    /// scratch buffer and publishes it at the end.
    #[verifier::rlimit(60)]
    pub fn tick(&mut self)
        requires
            old(self).wf(),
            1 <= old(self)@.width,
            1 <= old(self)@.height,
        ensures
            final (self).wf(),
            final (self)@.width == old(self)@.width,
            final (self)@.height == old(self)@.height,
            final (self)@.ticks_per_update == old(self)@.ticks_per_update,
            final (self)@.cells == step(old(self)@.cells, old(self)@.width, old(self)@.height),
    {
        let ghost w = self@.width;
        let ghost h = self@.height;
        let ghost next_gen = step(old(self)@.cells, w, h);
        let height = self.height;
        let width = self.width;
        proof {
            assert(0 * w == 0) by (nonlinear_arith);
        }
        for row in 0..height
            invariant
                self.width == old(self).width,
                self.height == old(self).height,
                self.n_ticks == old(self).n_ticks,
                width == self.width,
                height == self.height,
                1 <= width,
                1 <= height,
                w == old(self)@.width,
                h == old(self)@.height,
                next_gen == step(old(self)@.cells, w, h),
                self.dims_ok(),
                read_bits(self.cells) == old(self)@.cells,
                read_bits(self.cells).len() == w * h,
                write_bits(self.cells).len() == w * h,
                next_gen.len() == w * h,
                forall|i: int|
                    0 <= i < row * w ==> write_bits(self.cells)[i] == next_gen[i],
        {
            for col in 0..width
                invariant
                    self.width == old(self).width,
                    self.height == old(self).height,
                    self.n_ticks == old(self).n_ticks,
                    width == self.width,
                    height == self.height,
                    1 <= width,
                    1 <= height,
                    row < height,
                    w == old(self)@.width,
                    h == old(self)@.height,
                    next_gen == step(old(self)@.cells, w, h),
                    self.dims_ok(),
                    read_bits(self.cells) == old(self)@.cells,
                    read_bits(self.cells).len() == w * h,
                    write_bits(self.cells).len() == w * h,
                    next_gen.len() == w * h,
                    forall|i: int|
                        0 <= i < row * w + col ==> write_bits(self.cells)[i] == next_gen[i],
            {
                let idx = self.get_index(row, col);
                let cell = db_contains(&self.cells, idx);
                let live_neighbors = self.live_neighbor_count(row, col);
                let alive_next = if cell && live_neighbors < 2 {
                    false
                } else if cell && (live_neighbors == 2 || live_neighbors == 3) {
                    true
                } else if cell && live_neighbors > 3 {
                    false
                } else if !cell && live_neighbors == 3 {
                    true
                } else {
                    cell
                };
                proof {
                    lemma_step_at(old(self)@.cells, w, h, row as int, col as int);
                    assert(cell == cell_at(old(self)@.cells, w, row as int, col as int));
                    assert(alive_next == next_gen[idx as int]);
                }
                db_set(&mut self.cells, idx, alive_next);
            }
            proof {
                assert(row * w + w == (row + 1) * w) by (nonlinear_arith);
            }
        }
        db_commit(&mut self.cells);
        proof {
            assert(h * w == w * h) by (nonlinear_arith);
            assert(read_bits(self.cells) =~= next_gen);
        }
    }

    /// Toggle the state of a given cell; every other cell keeps its value.
    pub fn toggle_cell(&mut self, row: u32, column: u32)
        requires
            old(self).wf(),
            row < old(self)@.height,
            column < old(self)@.width,
        ensures
            final (self).wf(),
            final (self)@.width == old(self)@.width,
            final (self)@.height == old(self)@.height,
            final (self)@.ticks_per_update == old(self)@.ticks_per_update,
            final (self)@.cells == old(self)@.cells.update(
                rm_index(old(self)@.width, row as int, column as int),
                !old(self)@.cells[rm_index(old(self)@.width, row as int, column as int)],
            ),
    {
        let idx = self.get_index(row, column);
        db_toggle(&mut self.cells, idx);
        db_commit(&mut self.cells);
    }

    /// Wrap an anchor coordinate plus a signed offset onto the torus of
    /// extent `m`, with the always-non-negative (Euclidean) remainder.
    fn wrap_coord(base: u32, off: i32, m: u32) -> (r: u32)
        requires
            1 <= m,
            base < m,
            -6 <= off <= 6,
        ensures
            r == (base + off) % (m as int),
            r < m,
    {
        let s: i64 = off as i64 + 6 * (m as i64);
        proof {
            assert(s >= 0);
        }
        let t: u64 = base as u64 + s as u64;
        let rem: u64 = t % (m as u64);
        proof {
            assert(t == (m as int) * 6 + (base + off));
            lemma_mod_multiples_vanish(6, base + off, m as int);
            lemma_mod_bound(t as int, m as int);
        }
        rem as u32
    }

    /// Generic function to draw a figure given the figure definition
    /// (`coords`) and the position to draw it.
    ///
    /// Each `(row_offset, col_offset)` pair of `coords`, taken relative to
    /// the anchor `(row, column)` with toroidal wrap, names one cell that is
    /// set alive; every other cell keeps its value.
    fn create_figure(&mut self, coords: &Vec<(i32, i32)>, row: u32, column: u32)
        requires
            old(self).wf(),
            row < old(self)@.height,
            column < old(self)@.width,
            forall|k: int|
                0 <= k < coords@.len() ==> -6 <= (#[trigger] coords@[k]).0 <= 6 && -6
                    <= coords@[k].1 <= 6,
        ensures
            final (self).wf(),
            final (self)@.width == old(self)@.width,
            final (self)@.height == old(self)@.height,
            final (self)@.ticks_per_update == old(self)@.ticks_per_update,
            final (self)@.cells == stamped(
                old(self)@.cells,
                old(self)@.width,
                old(self)@.height,
                row as int,
                column as int,
                offsets_view(coords@),
            ),
    {
        let ghost w = self@.width;
        let ghost h = self@.height;
        let ghost offs = offsets_view(coords@);
        proof {
            lemma_stamped_empty(old(self)@.cells, w, h, row as int, column as int);
            assert(offs.take(0) =~= Seq::<(int, int)>::empty());
        }
        let n_cells = coords.len();
        for i in 0..n_cells
            invariant
                self.width == old(self).width,
                self.height == old(self).height,
                self.n_ticks == old(self).n_ticks,
                row < self.height,
                column < self.width,
                w == old(self)@.width,
                h == old(self)@.height,
                self.dims_ok(),
                n_cells == coords@.len(),
                offs == offsets_view(coords@),
                offs.len() == n_cells,
                forall|k: int|
                    0 <= k < coords@.len() ==> -6 <= (#[trigger] coords@[k]).0 <= 6 && -6
                        <= coords@[k].1 <= 6,
                read_bits(self.cells) == old(self)@.cells,
                read_bits(self.cells).len() == w * h,
                write_bits(self.cells) == stamped(
                    old(self)@.cells,
                    w,
                    h,
                    row as int,
                    column as int,
                    offs.take(i as int),
                ),
        {
            let (off_r, off_c) = coords[i];
            let aux_row = Self::wrap_coord(row, off_r, self.height);
            let aux_col = Self::wrap_coord(column, off_c, self.width);
            let idx = self.get_index(aux_row, aux_col);
            proof {
                assert(offs[i as int] == (off_r as int, off_c as int));
                assert(idx == stamp_index(w, h, row as int, column as int, offs[i as int]));
                assert(write_bits(self.cells).len() == w * h);
                lemma_stamped_take_succ(
                    old(self)@.cells,
                    w,
                    h,
                    row as int,
                    column as int,
                    offs,
                    i as int,
                );
            }
            db_insert(&mut self.cells, idx);
        }
        proof {
            assert(offs.take(n_cells as int) =~= offs);
        }
        db_commit(&mut self.cells);
    }

    /// Draws a glider in the position provided.
    pub fn create_glider(&mut self, row: u32, column: u32)
        requires
            old(self).wf(),
            row < old(self)@.height,
            column < old(self)@.width,
        ensures
            final (self).wf(),
            final (self)@.width == old(self)@.width,
            final (self)@.height == old(self)@.height,
            final (self)@.ticks_per_update == old(self)@.ticks_per_update,
            final (self)@.cells == stamped(
                old(self)@.cells,
                old(self)@.width,
                old(self)@.height,
                row as int,
                column as int,
                glider_offsets(),
            ),
    {
        let coords = Self::glider_coords();
        self.create_figure(&coords, row, column);
    }

    /// Draws a pulsar in the position provided.
    pub fn create_pulsar(&mut self, row: u32, column: u32)
        requires
            old(self).wf(),
            row < old(self)@.height,
            column < old(self)@.width,
        ensures
            final (self).wf(),
            final (self)@.width == old(self)@.width,
            final (self)@.height == old(self)@.height,
            final (self)@.ticks_per_update == old(self)@.ticks_per_update,
            final (self)@.cells == stamped(
                old(self)@.cells,
                old(self)@.width,
                old(self)@.height,
                row as int,
                column as int,
                pulsar_offsets(),
            ),
    {
        let coords = Self::pulsar_coords();
        self.create_figure(&coords, row, column);
    }

    /// The glider's offset table.
    fn glider_coords() -> (v: Vec<(i32, i32)>)
        ensures
            offsets_view(v@) == glider_offsets(),
            forall|k: int|
                0 <= k < v@.len() ==> -6 <= (#[trigger] v@[k]).0 <= 6 && -6 <= v@[k].1 <= 6,
    {
        let mut v: Vec<(i32, i32)> = Vec::new();
        v.push((0, -2));
        v.push((0, -1));
        v.push((0, 0));
        v.push((-1, 0));
        v.push((-2, -1));
        proof {
            assert(offsets_view(v@) =~= glider_offsets());
        }
        v
    }

    /// The pulsar's offset table.
    #[verifier::rlimit(50)]
    fn pulsar_coords() -> (v: Vec<(i32, i32)>)
        ensures
            offsets_view(v@) == pulsar_offsets(),
            forall|k: int|
                0 <= k < v@.len() ==> -6 <= (#[trigger] v@[k]).0 <= 6 && -6 <= v@[k].1 <= 6,
    {
        let mut v: Vec<(i32, i32)> = Vec::new();
        v.push((6, -4));
        v.push((6, -3));
        v.push((6, -2));
        v.push((6, 2));
        v.push((6, 3));
        v.push((6, 4));
        v.push((4, -6));
        v.push((4, -1));
        v.push((4, 1));
        v.push((4, 6));
        v.push((3, -6));
        v.push((3, -1));
        v.push((3, 1));
        v.push((3, 6));
        v.push((2, -6));
        v.push((2, -1));
        v.push((2, 1));
        v.push((2, 6));
        v.push((1, -4));
        v.push((1, -3));
        v.push((1, -2));
        v.push((1, 2));
        v.push((1, 3));
        v.push((1, 4));
        v.push((-6, -4));
        v.push((-6, -3));
        v.push((-6, -2));
        v.push((-6, 2));
        v.push((-6, 3));
        v.push((-6, 4));
        v.push((-4, -6));
        v.push((-4, -1));
        v.push((-4, 1));
        v.push((-4, 6));
        v.push((-3, -6));
        v.push((-3, -1));
        v.push((-3, 1));
        v.push((-3, 6));
        v.push((-2, -6));
        v.push((-2, -1));
        v.push((-2, 1));
        v.push((-2, 6));
        v.push((-1, -4));
        v.push((-1, -3));
        v.push((-1, -2));
        v.push((-1, 2));
        v.push((-1, 3));
        v.push((-1, 4));
        proof {
            assert(offsets_view(v@) =~= pulsar_offsets());
        }
        v
    }

    /// Get the dead and alive values of the entire universe.
    pub fn get_cells(&self) -> (r: &FixedBitSet)
        ensures
            bits_of(*r) == self@.cells,
    {
        db_read(&self.cells)
    }

    /// Set cells to be alive in a universe by passing the row and column of
    /// each cell as an array; every other cell keeps its value.
    pub fn set_cells(&mut self, cells: &Vec<(u32, u32)>)
        requires
            old(self).wf(),
            forall|k: int|
                0 <= k < cells@.len() ==> (#[trigger] cells@[k]).0 < old(self)@.height
                    && cells@[k].1 < old(self)@.width,
        ensures
            final (self).wf(),
            final (self)@.width == old(self)@.width,
            final (self)@.height == old(self)@.height,
            final (self)@.ticks_per_update == old(self)@.ticks_per_update,
            final (self)@.cells == stamped(
                old(self)@.cells,
                old(self)@.width,
                old(self)@.height,
                0,
                0,
                coords_view(cells@),
            ),
    {
        let ghost w = self@.width;
        let ghost h = self@.height;
        let ghost offs = coords_view(cells@);
        proof {
            lemma_stamped_empty(old(self)@.cells, w, h, 0, 0);
            assert(offs.take(0) =~= Seq::<(int, int)>::empty());
        }
        let n_cells = cells.len();
        for i in 0..n_cells
            invariant
                self.width == old(self).width,
                self.height == old(self).height,
                self.n_ticks == old(self).n_ticks,
                w == old(self)@.width,
                h == old(self)@.height,
                self.dims_ok(),
                n_cells == cells@.len(),
                offs == coords_view(cells@),
                offs.len() == n_cells,
                forall|k: int|
                    0 <= k < cells@.len() ==> (#[trigger] cells@[k]).0 < self.height
                        && cells@[k].1 < self.width,
                read_bits(self.cells) == old(self)@.cells,
                read_bits(self.cells).len() == w * h,
                write_bits(self.cells) == stamped(
                    old(self)@.cells,
                    w,
                    h,
                    0,
                    0,
                    offs.take(i as int),
                ),
        {
            let (cell_row, cell_col) = cells[i];
            let idx = self.get_index(cell_row, cell_col);
            proof {
                assert(offs[i as int] == (cell_row as int, cell_col as int));
                vstd::arithmetic::div_mod::lemma_small_mod(cell_row as nat, h as nat);
                vstd::arithmetic::div_mod::lemma_small_mod(cell_col as nat, w as nat);
                assert(idx == stamp_index(w, h, 0, 0, offs[i as int]));
                assert(write_bits(self.cells).len() == w * h);
                lemma_stamped_take_succ(old(self)@.cells, w, h, 0, 0, offs, i as int);
            }
            db_insert(&mut self.cells, idx);
        }
        proof {
            assert(offs.take(n_cells as int) =~= offs);
        }
        db_commit(&mut self.cells);
    }
}

/// Coordinate pairs of `set_cells`, as mathematical integers; anchored at
/// `(0, 0)` they are the offsets of a stamp.
pub open spec fn coords_view(coords: Seq<(u32, u32)>) -> Seq<(int, int)> {
    coords.map_values(|p: (u32, u32)| (p.0 as int, p.1 as int))
}

impl Default for Universe {
    /// Default universe constructor with a size of 100x100.
    fn default() -> (u: Self)
        ensures
            u.wf(),
            u@.width == 100,
            u@.height == 100,
            u@.ticks_per_update == 1,
    {
        Self::new(100, 100)
    }
}

} // verus!
