//! Laws the engine obeys, stated over the mathematical grid model and proved
//! from the contracts of the step engine and the command protocol.

use vstd::arithmetic::div_mod::lemma_fundamental_div_mod_converse;
use vstd::arithmetic::div_mod::lemma_mod_division_less_than_divisor;
use vstd::prelude::*;

use crate::control::MessageState;
use crate::gameoflife::lemma_idx_in_bounds;
use crate::gameoflife::next_cell;
use crate::gameoflife::GridView;

verus! {

/// One generation follows the transition rule at every coordinate: the next
/// state of a cell is a function of its current state and its live-neighbor
/// count alone.
pub proof fn lemma_step_obeys_rule(g: GridView, row: int, col: int)
    requires
        g.wf(),
        0 <= row < g.height,
        0 <= col < g.width,
    ensures
        g.step().cell(row, col) == next_cell(g.cell(row, col), g.neighbor_count(row, col)),
{
    lemma_idx_in_bounds(g.width as int, g.height as int, row, col);
    lemma_fundamental_div_mod_converse(row * g.width + col, g.width as int, row, col);
}

/// In a grid whose cells are all dead, every neighbor count is zero.
pub proof fn lemma_all_dead_neighbor_count(g: GridView, row: int, col: int)
    requires
        g.wf(),
        forall|i: int| 0 <= i < g.cells.len() ==> g.cells[i] is Dead,
        0 <= row < g.height,
        0 <= col < g.width,
    ensures
        g.neighbor_count(row, col) == 0,
{
    let h = g.height as int;
    let w = g.width as int;
    assert forall|dr: int, dc: int| 0 <= dr && 0 <= dc implies g.neighbor_contrib(
        row,
        col,
        dr,
        dc,
    ) == 0 by {
        lemma_mod_division_less_than_divisor(row + dr, h);
        lemma_mod_division_less_than_divisor(col + dc, w);
        lemma_idx_in_bounds(w, h, (row + dr) % h, (col + dc) % w);
    }
}

/// Clearing is idempotent: one `Clear` kills every cell, a second `Clear`
/// changes nothing at all, and in the cleared grid every neighbor count is
/// zero.
pub proof fn lemma_clear_idempotent(g: GridView)
    requires
        g.wf(),
    ensures
        g.apply_spec(MessageState::Clear).apply_spec(MessageState::Clear) == g.apply_spec(
            MessageState::Clear,
        ),
        forall|i: int|
            0 <= i < g.cells.len() ==> g.apply_spec(MessageState::Clear).cells[i] is Dead,
        forall|row: int, col: int|
            0 <= row < g.height && 0 <= col < g.width ==> g.apply_spec(
                MessageState::Clear,
            ).neighbor_count(row, col) == 0,
{
    let g1 = g.apply_spec(MessageState::Clear);
    let g2 = g1.apply_spec(MessageState::Clear);
    assert(g2.cells =~= g1.cells);
    assert(g2 =~= g1);
    assert forall|row: int, col: int| 0 <= row < g.height && 0 <= col < g.width implies
        g1.neighbor_count(row, col) == 0 by {
        lemma_all_dead_neighbor_count(g1, row, col);
    }
}

/// Sending `Pause` and then `Start`, with nothing in between, leaves every
/// cell exactly as it was: only the running flag toggles.
pub proof fn lemma_pause_start_keeps_cells(g: GridView)
    ensures
        ({
            let g2 = g.apply_spec(MessageState::Pause).apply_spec(MessageState::Start);
            &&& g2.cells == g.cells
            &&& g2.width == g.width
            &&& g2.height == g.height
            &&& g2.interval == g.interval
            &&& g2.started == true
        }),
{
}

/// Commands drain one per cycle, first in, first out: with two commands
/// pending, the first cycle applies exactly the first of them (followed by a
/// generation while running), and after the second cycle both have been
/// applied, in the order they were queued.
pub proof fn lemma_commands_drain_fifo(g: GridView, first: MessageState, second: MessageState)
    ensures
        g.cycle_spec(Some(first)) == g.apply_spec(first).generation(),
        g.cycle_spec(Some(first)).cycle_spec(Some(second)) == g.apply_spec(
            first,
        ).generation().apply_spec(second).generation(),
{
}

} // verus!
