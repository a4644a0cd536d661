use vstd::prelude::*;
use crate::board::{
    Cell, alive_at, live_neighbours, step_cell, step_grid, dead_grid, uniform_grid, uniform_row,
    rendered_row, rendered_grid, glyph,
};

verus! {

/// The same character written n times.
pub open spec fn repeated_char(ch: char, n: nat) -> Seq<char> {
    Seq::new(n, |i: int| ch)
}

/// n copies of one line, joined by line breaks, with no trailing break.
pub open spec fn repeated_lines(line: Seq<char>, n: nat) -> Seq<char>
    decreases n,
{
    if n == 0 {
        Seq::<char>::empty()
    } else if n == 1 {
        line
    } else {
        repeated_lines(line, (n - 1) as nat) + seq!['\n'] + line
    }
}

/// An all-dead board is a fixed point of the transition: stepping the
/// all-dead w-by-h grid gives it back unchanged.
pub proof fn lemma_dead_grid_fixed_point(w: nat, h: nat)
    ensures
        step_grid(dead_grid(w, h)) == dead_grid(w, h),
{
    let g = dead_grid(w, h);
    assert forall|r: int, c: int|
        0 <= r < g.len() && 0 <= c < g[r].len() implies #[trigger] step_grid(g)[r][c] == g[r][c] by {
        assert(g[r][c] == Cell::Dead);
        assert(live_neighbours(g, r, c) == 0);
    }
    assert(step_grid(g) =~~= g);
}

/// On a one-by-one grid the single cell has no neighbours at all — the
/// centre never counts and every adjacent position is off the grid — so it
/// is dead in the next generation whatever its state.
pub proof fn lemma_single_cell_has_no_neighbours(g: Seq<Seq<Cell>>)
    requires
        g.len() == 1,
        g[0].len() == 1,
    ensures
        live_neighbours(g, 0, 0) == 0,
        step_grid(g)[0][0] == Cell::Dead,
{
    assert(alive_at(g, -1, -1) == 0);
    assert(alive_at(g, 0, 1) == 0);
    assert(alive_at(g, 1, 0) == 0);
    assert(step_grid(g)[0][0] == step_cell(g[0][0], 0));
}

proof fn lemma_rendered_uniform_row(w: nat, s: Cell)
    ensures
        rendered_row(uniform_row(w, s)) == repeated_char(glyph(s), 2 * w),
    decreases w,
{
    if w == 0 {
        assert(rendered_row(uniform_row(0, s)) =~= repeated_char(glyph(s), 0));
    } else {
        lemma_rendered_uniform_row((w - 1) as nat, s);
        assert(uniform_row(w, s).drop_last() =~= uniform_row((w - 1) as nat, s));
        assert(rendered_row(uniform_row(w, s)) =~= repeated_char(glyph(s), 2 * w));
    }
}

proof fn lemma_rendered_uniform_grid(w: nat, h: nat, s: Cell)
    ensures
        rendered_grid(uniform_grid(w, h, s)) == repeated_lines(repeated_char(glyph(s), 2 * w), h),
    decreases h,
{
    let g = uniform_grid(w, h, s);
    if h == 0 {
        assert(rendered_grid(g) =~= repeated_lines(repeated_char(glyph(s), 2 * w), 0));
    } else if h == 1 {
        assert(g[0] == uniform_row(w, s));
        lemma_rendered_uniform_row(w, s);
    } else {
        lemma_rendered_uniform_grid(w, (h - 1) as nat, s);
        lemma_rendered_uniform_row(w, s);
        assert(g.drop_last() =~= uniform_grid(w, (h - 1) as nat, s));
        assert(g.last() == uniform_row(w, s));
        assert(rendered_grid(g) =~= repeated_lines(repeated_char(glyph(s), 2 * w), h));
    }
}

/// Rendering the all-dead w-by-h grid gives h lines, each made of 2*w
/// space characters, joined by line breaks.
pub proof fn lemma_render_all_dead(w: nat, h: nat)
    ensures
        rendered_grid(dead_grid(w, h)) == repeated_lines(repeated_char(' ', 2 * w), h),
{
    lemma_rendered_uniform_grid(w, h, Cell::Dead);
}

/// Rendering an all-alive w-by-h grid gives h lines, each made of 2*w
/// full-block characters, joined by line breaks.
pub proof fn lemma_render_all_alive(w: nat, h: nat)
    ensures
        rendered_grid(uniform_grid(w, h, Cell::Alive)) == repeated_lines(
            repeated_char('\u{2588}', 2 * w),
            h,
        ),
{
    lemma_rendered_uniform_grid(w, h, Cell::Alive);
}

} // verus!
