//! The playing field: coordinates, their row-major cell indices, and the
//! counting facts that bound how many distinct coordinates the field holds.

use vstd::prelude::*;
use vstd::set_lib::{lemma_int_range, lemma_len_subset, set_int_range};
use crate::SIZE;

verus! {

/// A coordinate lies on the grid.
pub open spec fn coord_in_grid(c: (usize, usize)) -> bool {
    c.0 < SIZE && c.1 < SIZE
}

/// Every coordinate of a sequence lies on the grid.
pub open spec fn coords_in_grid(s: Seq<(usize, usize)>) -> bool {
    forall|i: int| 0 <= i < s.len() ==> coord_in_grid(#[trigger] s[i])
}

/// The row-major cell number of a coordinate.
pub open spec fn cell_index(c: (usize, usize)) -> int {
    c.1 * SIZE + c.0
}

/// Two on-grid coordinates with the same cell number are equal.
pub proof fn lemma_cell_index_injective(a: (usize, usize), b: (usize, usize))
    requires
        coord_in_grid(a),
        coord_in_grid(b),
        cell_index(a) == cell_index(b),
    ensures
        a == b,
{
}

/// The set of cell numbers a coordinate sequence occupies.
pub open spec fn index_set(s: Seq<(usize, usize)>) -> Set<int> {
    s.map_values(|c: (usize, usize)| cell_index(c)).to_set()
}

/// A cell number is occupied exactly when its coordinate is in the sequence.
pub proof fn lemma_index_set_contains(s: Seq<(usize, usize)>, c: (usize, usize))
    requires
        coords_in_grid(s),
        coord_in_grid(c),
    ensures
        index_set(s).contains(cell_index(c)) <==> s.contains(c),
{
    let m = s.map_values(|x: (usize, usize)| cell_index(x));
    if s.contains(c) {
        let i = choose|i: int| 0 <= i < s.len() && s[i] == c;
        assert(m[i] == cell_index(c));
        assert(m.contains(cell_index(c)));
    }
    if index_set(s).contains(cell_index(c)) {
        let i = choose|i: int| 0 <= i < m.len() && m[i] == cell_index(c);
        lemma_cell_index_injective(s[i], c);
    }
}

/// Distinct on-grid coordinates occupy as many cells as there are
/// coordinates, all of them among the grid's cell numbers.
pub proof fn lemma_index_set_card(s: Seq<(usize, usize)>)
    requires
        coords_in_grid(s),
        s.no_duplicates(),
    ensures
        index_set(s).finite(),
        index_set(s).len() == s.len(),
        index_set(s).subset_of(set_int_range(0, (SIZE * SIZE) as int)),
{
    let m = s.map_values(|x: (usize, usize)| cell_index(x));
    assert forall|i: int, j: int| 0 <= i < m.len() && 0 <= j < m.len() && i != j
        implies m[i] != m[j] by {
        if cell_index(s[i]) == cell_index(s[j]) {
            lemma_cell_index_injective(s[i], s[j]);
        }
    }
    m.unique_seq_to_set();
    assert forall|v: int| index_set(s).contains(v)
        implies set_int_range(0, (SIZE * SIZE) as int).contains(v) by {
        let i = choose|i: int| 0 <= i < m.len() && m[i] == v;
        assert(coord_in_grid(s[i]));
    }
}

/// A sequence of distinct on-grid coordinates never exceeds the cell count.
pub proof fn lemma_distinct_coords_bounded(s: Seq<(usize, usize)>)
    requires
        coords_in_grid(s),
        s.no_duplicates(),
    ensures
        s.len() <= SIZE * SIZE,
{
    lemma_index_set_card(s);
    lemma_int_range(0, (SIZE * SIZE) as int);
    lemma_len_subset(index_set(s), set_int_range(0, (SIZE * SIZE) as int));
}

} // verus!
