//! Laws of the engine, proved once over the model: determinism, toroidal
//! wrap, the still block, the blinker's oscillation, batching of ticks,
//! exactness of figure stamping and the involution of a toggle.

use vstd::prelude::*;
use crate::model::cell_at;
use crate::model::dead_grid;
use crate::model::glider_offsets;
use crate::model::is_stamp_target;
use crate::model::lemma_index_to_coords;
use crate::model::lemma_rm_index_bounds;
use crate::model::lemma_rm_index_injective;
use crate::model::neighbor_count;
use crate::model::rm_index;
use crate::model::stamped;
use crate::model::step;
use crate::model::step_n;

verus! {

/// The grid whose only live cell is `(0, 0)`.
pub open spec fn lone_cell_grid(w: int, h: int) -> Seq<bool> {
    Seq::new((w * h) as nat, |i: int| i == 0)
}

/// The grid whose live cells are exactly the 2x2 block anchored at `(r, c)`.
pub open spec fn block_grid(w: int, h: int, r: int, c: int) -> Seq<bool> {
    Seq::new(
        (w * h) as nat,
        |i: int|
            i == rm_index(w, r, c) || i == rm_index(w, r, c + 1) || i == rm_index(w, r + 1, c)
                || i == rm_index(w, r + 1, c + 1),
    )
}

/// The grid whose live cells are exactly the horizontal 3-cell line through
/// `(r, c)`.
pub open spec fn blinker_h_grid(w: int, h: int, r: int, c: int) -> Seq<bool> {
    Seq::new(
        (w * h) as nat,
        |i: int| i == rm_index(w, r, c - 1) || i == rm_index(w, r, c) || i == rm_index(w, r, c + 1),
    )
}

/// The grid whose live cells are exactly the vertical 3-cell line through
/// `(r, c)`.
pub open spec fn blinker_v_grid(w: int, h: int, r: int, c: int) -> Seq<bool> {
    Seq::new(
        (w * h) as nat,
        |i: int| i == rm_index(w, r - 1, c) || i == rm_index(w, r, c) || i == rm_index(w, r + 1, c),
    )
}

/// Determinism: one generation is a pure function of the grid state and the
/// dimensions; identical states step to identical states.
pub proof fn lemma_tick_deterministic(cells1: Seq<bool>, cells2: Seq<bool>, w: int, h: int)
    requires
        cells1 == cells2,
    ensures
        step(cells1, w, h) == step(cells2, w, h),
{
}

/// A single batched generation is a single step.
pub proof fn lemma_step_n_one(cells: Seq<bool>, w: int, h: int)
    ensures
        step_n(cells, w, h, 1) == step(cells, w, h),
{
    assert(step_n(cells, w, h, 0) == cells);
}

/// Batching composes: advancing `m + n` generations equals advancing `m`
/// and then `n`; so an `update` of `n` ticks equals `n` sequential ticks.
pub proof fn lemma_step_n_adds(cells: Seq<bool>, w: int, h: int, m: nat, n: nat)
    ensures
        step_n(cells, w, h, m + n) == step_n(step_n(cells, w, h, m), w, h, n),
    decreases n,
{
    if n > 0 {
        lemma_step_n_adds(cells, w, h, m, (n - 1) as nat);
    }
}

/// Toggling the same cell twice in succession restores the grid, every other
/// cell untouched either time.
pub proof fn lemma_toggle_twice(cells: Seq<bool>, i: int)
    requires
        0 <= i < cells.len(),
    ensures
        cells.update(i, !cells[i]).update(i, !cells.update(i, !cells[i])[i]) == cells,
{
    assert(cells.update(i, !cells[i]).update(i, !cells.update(i, !cells[i])[i]) =~= cells);
}

/// Toroidal wrap: with a lone live cell at `(0, 0)`, each of the eight cells
/// around it on the torus — all four edges and corners wrap — counts exactly
/// that one live neighbor.
pub proof fn lemma_lone_cell_wrap(w: int, h: int)
    requires
        3 <= w,
        3 <= h,
    ensures
        neighbor_count(lone_cell_grid(w, h), w, h, h - 1, w - 1) == 1,
        neighbor_count(lone_cell_grid(w, h), w, h, h - 1, 0) == 1,
        neighbor_count(lone_cell_grid(w, h), w, h, h - 1, 1) == 1,
        neighbor_count(lone_cell_grid(w, h), w, h, 0, w - 1) == 1,
        neighbor_count(lone_cell_grid(w, h), w, h, 0, 1) == 1,
        neighbor_count(lone_cell_grid(w, h), w, h, 1, w - 1) == 1,
        neighbor_count(lone_cell_grid(w, h), w, h, 1, 0) == 1,
        neighbor_count(lone_cell_grid(w, h), w, h, 1, 1) == 1,
{
    let g = lone_cell_grid(w, h);
    assert forall|r: int, c: int| 0 <= r < h && 0 <= c < w implies #[trigger] cell_at(g, w, r, c)
        == (r == 0 && c == 0) by {
        lemma_rm_index_bounds(w, h, r, c);
        if r * w + c == 0 {
            lemma_rm_index_injective(w, r, c, 0, 0);
        }
    }
}

/// Stable block: a 2x2 all-alive block with no other live cell is unchanged
/// by one generation — each block cell has exactly 3 live neighbors and
/// survives, and no dead cell sees exactly 3.
pub proof fn lemma_block_still_life(w: int, h: int, r: int, c: int)
    requires
        4 <= w,
        4 <= h,
        1 <= r,
        r + 2 < h,
        1 <= c,
        c + 2 < w,
    ensures
        step(block_grid(w, h, r, c), w, h) == block_grid(w, h, r, c),
{
    let g = block_grid(w, h, r, c);
    assert forall|rr: int, cc: int| 0 <= rr < h && 0 <= cc < w implies #[trigger] cell_at(
        g,
        w,
        rr,
        cc,
    ) == ((rr == r || rr == r + 1) && (cc == c || cc == c + 1)) by {
        lemma_rm_index_bounds(w, h, rr, cc);
        if rr * w + cc == rm_index(w, r, c) {
            lemma_rm_index_injective(w, rr, cc, r, c);
        }
        if rr * w + cc == rm_index(w, r, c + 1) {
            lemma_rm_index_injective(w, rr, cc, r, c + 1);
        }
        if rr * w + cc == rm_index(w, r + 1, c) {
            lemma_rm_index_injective(w, rr, cc, r + 1, c);
        }
        if rr * w + cc == rm_index(w, r + 1, c + 1) {
            lemma_rm_index_injective(w, rr, cc, r + 1, c + 1);
        }
    }
    assert forall|i: int| 0 <= i < g.len() implies #[trigger] step(g, w, h)[i] == g[i] by {
        lemma_index_to_coords(w, h, i);
        let rr = i / w;
        let cc = i % w;
        assert(g[i] == cell_at(g, w, rr, cc));
        assert(step(g, w, h)[i] == g[i]);
    }
    assert(step(g, w, h) =~= g);
}

/// What the horizontal blinker grid holds at in-range coordinates.
proof fn lemma_blinker_h_at(w: int, h: int, r: int, c: int)
    requires
        1 <= w,
        1 <= h,
        0 <= r < h,
        1 <= c,
        c + 1 < w,
    ensures
        forall|rr: int, cc: int|
            0 <= rr < h && 0 <= cc < w ==> #[trigger] cell_at(blinker_h_grid(w, h, r, c), w, rr, cc)
                == (rr == r && (cc == c - 1 || cc == c || cc == c + 1)),
{
    let g = blinker_h_grid(w, h, r, c);
    assert forall|rr: int, cc: int| 0 <= rr < h && 0 <= cc < w implies #[trigger] cell_at(
        g,
        w,
        rr,
        cc,
    ) == (rr == r && (cc == c - 1 || cc == c || cc == c + 1)) by {
        lemma_rm_index_bounds(w, h, rr, cc);
        if rr * w + cc == rm_index(w, r, c - 1) {
            lemma_rm_index_injective(w, rr, cc, r, c - 1);
        }
        if rr * w + cc == rm_index(w, r, c) {
            lemma_rm_index_injective(w, rr, cc, r, c);
        }
        if rr * w + cc == rm_index(w, r, c + 1) {
            lemma_rm_index_injective(w, rr, cc, r, c + 1);
        }
    }
}

/// What the vertical blinker grid holds at in-range coordinates.
proof fn lemma_blinker_v_at(w: int, h: int, r: int, c: int)
    requires
        1 <= w,
        1 <= h,
        0 <= c < w,
        1 <= r,
        r + 1 < h,
    ensures
        forall|rr: int, cc: int|
            0 <= rr < h && 0 <= cc < w ==> #[trigger] cell_at(blinker_v_grid(w, h, r, c), w, rr, cc)
                == (cc == c && (rr == r - 1 || rr == r || rr == r + 1)),
{
    let g = blinker_v_grid(w, h, r, c);
    assert forall|rr: int, cc: int| 0 <= rr < h && 0 <= cc < w implies #[trigger] cell_at(
        g,
        w,
        rr,
        cc,
    ) == (cc == c && (rr == r - 1 || rr == r || rr == r + 1)) by {
        lemma_rm_index_bounds(w, h, rr, cc);
        if rr * w + cc == rm_index(w, r - 1, c) {
            lemma_rm_index_injective(w, rr, cc, r - 1, c);
        }
        if rr * w + cc == rm_index(w, r, c) {
            lemma_rm_index_injective(w, rr, cc, r, c);
        }
        if rr * w + cc == rm_index(w, r + 1, c) {
            lemma_rm_index_injective(w, rr, cc, r + 1, c);
        }
    }
}

/// One half of the blinker's period: the horizontal 3-cell line becomes the
/// vertical 3-cell line through the same center after one generation.
pub proof fn lemma_blinker_h_to_v(w: int, h: int, r: int, c: int)
    requires
        5 <= w,
        5 <= h,
        2 <= r,
        r + 2 < h,
        2 <= c,
        c + 2 < w,
    ensures
        step(blinker_h_grid(w, h, r, c), w, h) == blinker_v_grid(w, h, r, c),
{
    let g = blinker_h_grid(w, h, r, c);
    let g2 = blinker_v_grid(w, h, r, c);
    lemma_blinker_h_at(w, h, r, c);
    lemma_blinker_v_at(w, h, r, c);
    assert forall|i: int| 0 <= i < g2.len() implies #[trigger] step(g, w, h)[i] == g2[i] by {
        lemma_index_to_coords(w, h, i);
        let rr = i / w;
        let cc = i % w;
        assert(g[i] == cell_at(g, w, rr, cc));
        assert(g2[i] == cell_at(g2, w, rr, cc));
        assert(step(g, w, h)[i] == g2[i]);
    }
    assert(step(g, w, h) =~= g2);
}

/// The other half of the blinker's period: the vertical line steps back to
/// the horizontal one.
pub proof fn lemma_blinker_v_to_h(w: int, h: int, r: int, c: int)
    requires
        5 <= w,
        5 <= h,
        2 <= r,
        r + 2 < h,
        2 <= c,
        c + 2 < w,
    ensures
        step(blinker_v_grid(w, h, r, c), w, h) == blinker_h_grid(w, h, r, c),
{
    let g = blinker_v_grid(w, h, r, c);
    let g2 = blinker_h_grid(w, h, r, c);
    lemma_blinker_v_at(w, h, r, c);
    lemma_blinker_h_at(w, h, r, c);
    assert forall|i: int| 0 <= i < g2.len() implies #[trigger] step(g, w, h)[i] == g2[i] by {
        lemma_index_to_coords(w, h, i);
        let rr = i / w;
        let cc = i % w;
        assert(g[i] == cell_at(g, w, rr, cc));
        assert(g2[i] == cell_at(g2, w, rr, cc));
        assert(step(g, w, h)[i] == g2[i]);
    }
    assert(step(g, w, h) =~= g2);
}

/// Blinker oscillation: the horizontal line returns to itself after exactly
/// two generations.
pub proof fn lemma_blinker_period_two(w: int, h: int, r: int, c: int)
    requires
        5 <= w,
        5 <= h,
        2 <= r,
        r + 2 < h,
        2 <= c,
        c + 2 < w,
    ensures
        step(step(blinker_h_grid(w, h, r, c), w, h), w, h) == blinker_h_grid(w, h, r, c),
{
    lemma_blinker_h_to_v(w, h, r, c);
    lemma_blinker_v_to_h(w, h, r, c);
}

/// Stamping the glider on an all-dead grid leaves exactly the cells its five
/// offsets name alive, and every other cell dead.
pub proof fn lemma_glider_stamps_exactly(w: int, h: int, r: int, c: int)
    requires
        1 <= w,
        1 <= h,
    ensures
        forall|i: int|
            0 <= i < w * h ==> (#[trigger] stamped(dead_grid(w, h), w, h, r, c, glider_offsets())[i]
                <==> is_stamp_target(i, w, h, r, c, glider_offsets())),
{
}

} // verus!
