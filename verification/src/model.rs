//! Mathematical model of the toroidal cellular automaton.
//!
//! A grid of `w * h` cells is a `Seq<bool>` in row-major order (`true` is
//! alive); `step` is one synchronous generation of the B3/S23 rule with both
//! coordinates wrapping around the torus.

use vstd::prelude::*;
use vstd::arithmetic::div_mod::lemma_fundamental_div_mod;
use vstd::arithmetic::div_mod::lemma_fundamental_div_mod_converse;
use vstd::arithmetic::div_mod::lemma_mod_bound;
use vstd::arithmetic::div_mod::lemma_multiply_divide_lt;

verus! {

/// 1 for a live cell, 0 for a dead one.
pub open spec fn live_count(b: bool) -> int {
    if b {
        1
    } else {
        0
    }
}

/// The coordinate just before `x` on a torus of extent `m` (wraps at 0).
pub open spec fn wrap_dec(x: int, m: int) -> int {
    if x == 0 {
        m - 1
    } else {
        x - 1
    }
}

/// The coordinate just after `x` on a torus of extent `m` (wraps at `m - 1`).
pub open spec fn wrap_inc(x: int, m: int) -> int {
    if x == m - 1 {
        0
    } else {
        x + 1
    }
}

/// Row-major index of cell `(r, c)` on a grid `w` cells wide.
pub open spec fn rm_index(w: int, r: int, c: int) -> int {
    r * w + c
}

/// The cell at `(r, c)` of a row-major grid `w` cells wide.
pub open spec fn cell_at(cells: Seq<bool>, w: int, r: int, c: int) -> bool {
    cells[rm_index(w, r, c)]
}

/// Number of live cells among the 8 toroidal Moore neighbors of `(r, c)`.
pub open spec fn neighbor_count(cells: Seq<bool>, w: int, h: int, r: int, c: int) -> int {
    let rn = wrap_dec(r, h);
    let rs = wrap_inc(r, h);
    let cw = wrap_dec(c, w);
    let ce = wrap_inc(c, w);
    live_count(cell_at(cells, w, rn, cw)) + live_count(cell_at(cells, w, rn, c)) + live_count(
        cell_at(cells, w, rn, ce),
    ) + live_count(cell_at(cells, w, r, cw)) + live_count(cell_at(cells, w, r, ce)) + live_count(
        cell_at(cells, w, rs, cw),
    ) + live_count(cell_at(cells, w, rs, c)) + live_count(cell_at(cells, w, rs, ce))
}

/// The B3/S23 transition rule: a live cell survives with 2 or 3 live
/// neighbors, a dead cell is born with exactly 3, every other cell is dead
/// in the next generation.
pub open spec fn next_cell(alive: bool, neighbors: int) -> bool {
    if alive {
        neighbors == 2 || neighbors == 3
    } else {
        neighbors == 3
    }
}

/// One synchronous generation: every cell of the result is the rule applied
/// to the same cell of `cells` and its toroidal neighbor count there.
pub open spec fn step(cells: Seq<bool>, w: int, h: int) -> Seq<bool> {
    Seq::new((w * h) as nat, |i: int| next_cell(cells[i], neighbor_count(cells, w, h, i / w, i % w)))
}

/// `n` consecutive generations.
pub open spec fn step_n(cells: Seq<bool>, w: int, h: int, n: nat) -> Seq<bool>
    decreases n,
{
    if n == 0 {
        cells
    } else {
        step(step_n(cells, w, h, (n - 1) as nat), w, h)
    }
}

/// The all-dead grid of `w * h` cells.
pub open spec fn dead_grid(w: int, h: int) -> Seq<bool> {
    Seq::new((w * h) as nat, |i: int| false)
}

/// Offset pairs of a figure table, as mathematical integers.
pub open spec fn offsets_view(coords: Seq<(i32, i32)>) -> Seq<(int, int)> {
    coords.map_values(|p: (i32, i32)| (p.0 as int, p.1 as int))
}

/// Row-major index of the cell a single `(row_offset, col_offset)` pair names,
/// relative to anchor `(r, c)`, with Euclidean wrap on both coordinates.
pub open spec fn stamp_index(w: int, h: int, r: int, c: int, off: (int, int)) -> int {
    rm_index(w, (r + off.0) % h, (c + off.1) % w)
}

/// Whether index `i` is named by some offset pair of `offs` anchored at `(r, c)`.
pub open spec fn is_stamp_target(
    i: int,
    w: int,
    h: int,
    r: int,
    c: int,
    offs: Seq<(int, int)>,
) -> bool {
    exists|k: int| 0 <= k < offs.len() && i == stamp_index(w, h, r, c, offs[k])
}

/// The grid after stamping a figure: every cell named by an offset pair of
/// `offs` anchored at `(r, c)` is alive, every other cell keeps its value.
pub open spec fn stamped(
    cells: Seq<bool>,
    w: int,
    h: int,
    r: int,
    c: int,
    offs: Seq<(int, int)>,
) -> Seq<bool> {
    Seq::new(cells.len(), |i: int| cells[i] || is_stamp_target(i, w, h, r, c, offs))
}

/// The glider: five cells, anchor-relative.
pub open spec fn glider_offsets() -> Seq<(int, int)> {
    seq![(0, -2), (0, -1), (0, 0), (-1, 0), (-2, -1)]
}

/// The pulsar: forty-eight cells, anchor-relative.
pub open spec fn pulsar_offsets() -> Seq<(int, int)> {
    seq![
        (6, -4),
        (6, -3),
        (6, -2),
        (6, 2),
        (6, 3),
        (6, 4),
        (4, -6),
        (4, -1),
        (4, 1),
        (4, 6),
        (3, -6),
        (3, -1),
        (3, 1),
        (3, 6),
        (2, -6),
        (2, -1),
        (2, 1),
        (2, 6),
        (1, -4),
        (1, -3),
        (1, -2),
        (1, 2),
        (1, 3),
        (1, 4),
        (-6, -4),
        (-6, -3),
        (-6, -2),
        (-6, 2),
        (-6, 3),
        (-6, 4),
        (-4, -6),
        (-4, -1),
        (-4, 1),
        (-4, 6),
        (-3, -6),
        (-3, -1),
        (-3, 1),
        (-3, 6),
        (-2, -6),
        (-2, -1),
        (-2, 1),
        (-2, 6),
        (-1, -4),
        (-1, -3),
        (-1, -2),
        (-1, 2),
        (-1, 3),
        (-1, 4),
    ]
}

/// A row-major index formed from in-range coordinates is itself in range.
pub proof fn lemma_rm_index_bounds(w: int, h: int, r: int, c: int)
    by (nonlinear_arith)
    requires
        0 <= r < h,
        0 <= c < w,
    ensures
        0 <= rm_index(w, r, c) < w * h,
{
}

/// Row-major indexing is injective on in-range coordinate pairs.
pub proof fn lemma_rm_index_injective(w: int, r1: int, c1: int, r2: int, c2: int)
    by (nonlinear_arith)
    requires
        0 <= r1,
        0 <= r2,
        0 <= c1 < w,
        0 <= c2 < w,
        rm_index(w, r1, c1) == rm_index(w, r2, c2),
    ensures
        r1 == r2,
        c1 == c2,
{
}

/// Dividing a row-major index by the width recovers the coordinates.
pub proof fn lemma_rm_index_div_mod(w: int, r: int, c: int)
    requires
        0 <= r,
        0 <= c < w,
    ensures
        rm_index(w, r, c) / w == r,
        rm_index(w, r, c) % w == c,
{
    lemma_fundamental_div_mod_converse(r * w + c, w, r, c);
}

/// Every in-range index splits into in-range coordinates.
pub proof fn lemma_index_to_coords(w: int, h: int, i: int)
    requires
        1 <= w,
        1 <= h,
        0 <= i < w * h,
    ensures
        0 <= i / w < h,
        0 <= i % w < w,
        i == rm_index(w, i / w, i % w),
{
    lemma_fundamental_div_mod(i, w);
    lemma_mod_bound(i, w);
    lemma_multiply_divide_lt(i, w, h);
    assert(w * (i / w) == (i / w) * w) by (nonlinear_arith);
}

/// One cell of one generation: what `step` holds at the index of `(r, c)`.
pub proof fn lemma_step_at(cells: Seq<bool>, w: int, h: int, r: int, c: int)
    requires
        0 <= r < h,
        0 <= c < w,
    ensures
        step(cells, w, h)[rm_index(w, r, c)] == next_cell(
            cell_at(cells, w, r, c),
            neighbor_count(cells, w, h, r, c),
        ),
{
    lemma_rm_index_bounds(w, h, r, c);
    lemma_rm_index_div_mod(w, r, c);
}

/// Stamping an empty offset list changes nothing.
pub proof fn lemma_stamped_empty(cells: Seq<bool>, w: int, h: int, r: int, c: int)
    ensures
        stamped(cells, w, h, r, c, Seq::<(int, int)>::empty()) == cells,
{
    assert(stamped(cells, w, h, r, c, Seq::<(int, int)>::empty()) =~= cells);
}

/// Stamping one more offset pair sets one more cell alive.
pub proof fn lemma_stamped_take_succ(
    cells: Seq<bool>,
    w: int,
    h: int,
    r: int,
    c: int,
    offs: Seq<(int, int)>,
    k: int,
)
    requires
        0 <= k < offs.len(),
        0 <= stamp_index(w, h, r, c, offs[k]) < cells.len(),
    ensures
        stamped(cells, w, h, r, c, offs.take(k + 1)) == stamped(cells, w, h, r, c, offs.take(k)).update(
            stamp_index(w, h, r, c, offs[k]),
            true,
        ),
{
    let lhs = stamped(cells, w, h, r, c, offs.take(k + 1));
    let rhs = stamped(cells, w, h, r, c, offs.take(k)).update(stamp_index(w, h, r, c, offs[k]), true);
    assert forall|i: int| 0 <= i < cells.len() implies lhs[i] == rhs[i] by {
        if i == stamp_index(w, h, r, c, offs[k]) {
            assert(offs.take(k + 1)[k] == offs[k]);
            assert(is_stamp_target(i, w, h, r, c, offs.take(k + 1)));
        } else {
            if is_stamp_target(i, w, h, r, c, offs.take(k + 1)) {
                let j = choose|j: int|
                    0 <= j < offs.take(k + 1).len() && i == stamp_index(
                        w,
                        h,
                        r,
                        c,
                        #[trigger] offs.take(k + 1)[j],
                    );
                assert(j < k);
                assert(offs.take(k)[j] == offs[j]);
                assert(is_stamp_target(i, w, h, r, c, offs.take(k)));
            }
            if is_stamp_target(i, w, h, r, c, offs.take(k)) {
                let j = choose|j: int|
                    0 <= j < offs.take(k).len() && i == stamp_index(
                        w,
                        h,
                        r,
                        c,
                        #[trigger] offs.take(k)[j],
                    );
                assert(offs.take(k + 1)[j] == offs[j]);
                assert(is_stamp_target(i, w, h, r, c, offs.take(k + 1)));
            }
        }
    }
    assert(lhs =~= rhs);
}

} // verus!
