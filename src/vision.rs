//! How an eye's readings fill its cells: each reading lands in the cell it
//! names, or in the last cell when it names one past the end; a later
//! reading in a cell replaces an earlier one; a cell that nothing reaches
//! keeps the zero reading.
use vstd::prelude::*;

verus! {

/// The cell a reading for `cell` lands in, among `cells` cells.
pub open spec fn landing_cell(cell: nat, cells: nat) -> nat {
    if cell < cells {
        cell
    } else {
        (cells - 1) as nat
    }
}

/// The cells after the readings, in order: each writes its energy into its
/// landing cell.
pub open spec fn vision_cells<E>(cells: nat, readings: Seq<(usize, E)>, zero: E) -> Seq<E>
    decreases readings.len(),
{
    if readings.len() == 0 {
        Seq::new(cells, |i: int| zero)
    } else {
        let (cell, energy) = readings.last();
        vision_cells(cells, readings.drop_last(), zero).update(
            landing_cell(cell as nat, cells) as int,
            energy,
        )
    }
}

proof fn lemma_vision_cells_len<E>(cells: nat, readings: Seq<(usize, E)>, zero: E)
    requires
        cells > 0,
    ensures
        vision_cells(cells, readings, zero).len() == cells,
    decreases readings.len(),
{
    if readings.len() > 0 {
        lemma_vision_cells_len(cells, readings.drop_last(), zero);
    }
}

/// Fills `cells` cells with `zero`, then writes each reading `(cell,
/// energy)` in order into its landing cell.
pub fn fill_cells<E: Copy>(cells: usize, readings: &Vec<(usize, E)>, zero: E) -> (r: Vec<E>)
    requires
        cells > 0,
    ensures
        r@ == vision_cells(cells as nat, readings@, zero),
{
    let mut out: Vec<E> = Vec::with_capacity(cells);
    let mut i: usize = 0;
    while i < cells
        invariant
            i <= cells,
            out@ == Seq::new(i as nat, |k: int| zero),
        decreases cells - i,
    {
        out.push(zero);
        i = i + 1;
        assert(out@ =~= Seq::new(i as nat, |k: int| zero));
    }
    assert(readings@.take(0) =~= seq![]);
    let mut j: usize = 0;
    while j < readings.len()
        invariant
            cells > 0,
            j <= readings@.len(),
            out@ == vision_cells(cells as nat, readings@.take(j as int), zero),
        decreases readings@.len() - j,
    {
        let (cell, energy) = readings[j];
        let at = if cell < cells {
            cell
        } else {
            cells - 1
        };
        proof {
            lemma_vision_cells_len(cells as nat, readings@.take(j as int), zero);
            assert(readings@.take(j + 1).drop_last() =~= readings@.take(j as int));
            assert(readings@.take(j + 1).last() == readings@[j as int]);
        }
        out.set(at, energy);
        j = j + 1;
    }
    assert(readings@.take(j as int) =~= readings@);
    out
}

} // verus!
