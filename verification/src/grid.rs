//! The sparse grid: coordinate-keyed symbol and color storage with an
//! implicit default symbol that is never materialized.

use vstd::prelude::*;
use crate::color::ColorValue;
use crate::coordmap::CoordMap;

verus! {

/// What a visited, non-default cell holds.
#[derive(Clone, Copy, Debug, PartialEq, Eq, Structural)]
pub struct CellContent {
    pub symbol: usize,
    pub color: ColorValue,
}

/// Symbol at `(x, y)`: the stored one, or the default `0` when unset.
pub open spec fn cell_symbol(cells: Map<(int, int), CellContent>, x: int, y: int) -> usize {
    if cells.contains_key((x, y)) {
        cells[(x, y)].symbol
    } else {
        0
    }
}

/// The grid after a write: writing the default symbol removes the entry,
/// anything else stores symbol and color.
pub open spec fn spec_set_cell(
    cells: Map<(int, int), CellContent>,
    x: int,
    y: int,
    symbol: usize,
    color: ColorValue,
) -> Map<(int, int), CellContent> {
    if symbol == 0 {
        cells.remove((x, y))
    } else {
        cells.insert((x, y), CellContent { symbol, color })
    }
}

/// Sparse storage of the visited, non-default cells.
pub struct Grid {
    cells: CoordMap<CellContent>,
}

impl Grid {
    /// Abstract contents: the finite map of visited cells.
    pub closed spec fn view(&self) -> Map<(int, int), CellContent> {
        self.cells@
    }

    /// The visited cells in storage order, as `visited_at` reports them.
    pub closed spec fn entry_seq(&self) -> Seq<((i32, i32), CellContent)> {
        self.cells.entry_seq()
    }

    /// The storage order lists each visited cell exactly once.
    pub proof fn lemma_entry_seq(&self)
        requires
            self.wf(),
        ensures
            self.entry_seq().len() == self@.dom().len(),
            forall|i: int|
                0 <= i < self.entry_seq().len() ==> self@.contains_key(
                    ((#[trigger] self.entry_seq()[i]).0.0 as int, self.entry_seq()[i].0.1 as int),
                ) && self@[(self.entry_seq()[i].0.0 as int, self.entry_seq()[i].0.1 as int)]
                    == self.entry_seq()[i].1,
            forall|k: (int, int)| #[trigger]
                self@.contains_key(k) ==> exists|i: int|
                    0 <= i < self.entry_seq().len() && ((#[trigger] self.entry_seq()[i]).0.0 as int,
                    self.entry_seq()[i].0.1 as int) == k,
    {
        self.cells.lemma_entry_seq();
        assert forall|k: (int, int)| #[trigger] self@.contains_key(k) implies exists|i: int|
            0 <= i < self.entry_seq().len() && ((#[trigger] self.entry_seq()[i]).0.0 as int,
            self.entry_seq()[i].0.1 as int) == k by {
            let i = choose|i: int|
                0 <= i < self.cells.entry_seq().len() && ((
                #[trigger] self.cells.entry_seq()[i]).0.0 as int,
                self.cells.entry_seq()[i].0.1 as int) == k;
            assert(0 <= i < self.entry_seq().len() && (self.entry_seq()[i].0.0 as int,
            self.entry_seq()[i].0.1 as int) == k);
        }
    }

    /// The default symbol is never stored.
    pub closed spec fn wf(&self) -> bool {
        &&& self.cells.wf()
        &&& forall|k: (int, int)| #[trigger] self.cells@.contains_key(k) ==> self.cells@[k].symbol
            != 0
    }

    pub proof fn lemma_finite(&self)
        ensures
            self@.dom().finite(),
    {
        self.cells.lemma_finite();
    }

    pub fn new() -> (g: Grid)
        ensures
            g@ == Map::<(int, int), CellContent>::empty(),
            g.wf(),
    {
        Grid { cells: CoordMap::new() }
    }

    /// Symbol under `(x, y)`, the implicit default `0` where nothing is
    /// stored.
    pub fn get_cell(&self, x: i32, y: i32) -> (r: usize)
        requires
            self.wf(),
        ensures
            r == cell_symbol(self@, x as int, y as int),
    {
        match self.cells.get(x, y) {
            Some(c) => c.symbol,
            None => 0,
        }
    }

    /// Stored content of `(x, y)`, if the cell was visited and non-default.
    pub fn get(&self, x: i32, y: i32) -> (r: Option<CellContent>)
        requires
            self.wf(),
        ensures
            match r {
                Some(c) => self@.contains_key((x as int, y as int)) && c == self@[(
                    x as int,
                    y as int,
                )],
                None => !self@.contains_key((x as int, y as int)),
            },
    {
        self.cells.get(x, y)
    }

    /// Writes `(symbol, color)` at `(x, y)`; the default symbol removes the
    /// entry instead, to bound memory to visited, non-default cells.
    pub fn set_cell(&mut self, x: i32, y: i32, symbol: usize, color: ColorValue)
        requires
            old(self).wf(),
        ensures
            final(self).wf(),
            final(self)@ == spec_set_cell(old(self)@, x as int, y as int, symbol, color),
    {
        if symbol == 0 {
            self.cells.remove(x, y);
        } else {
            self.cells.insert(x, y, CellContent { symbol, color });
        }
    }

    pub fn clear(&mut self)
        ensures
            final(self)@ == Map::<(int, int), CellContent>::empty(),
            final(self).wf(),
    {
        self.cells.clear();
    }

    /// Number of visited, non-default cells.
    pub fn visited_count(&self) -> (r: usize)
        requires
            self.wf(),
        ensures
            r == self@.dom().len(),
    {
        self.cells.len()
    }

    /// One visited cell, by position in the storage order; every visited
    /// cell appears at exactly one position.
    pub fn visited_at(&self, i: usize) -> (r: ((i32, i32), CellContent))
        requires
            self.wf(),
            i < self@.dom().len(),
        ensures
            r == self.entry_seq()[i as int],
            self@.contains_key((r.0.0 as int, r.0.1 as int)),
            self@[(r.0.0 as int, r.0.1 as int)] == r.1,
    {
        proof {
            self.cells.lemma_entry_seq();
        }
        self.cells.entry_at(i)
    }
}

} // verus!
