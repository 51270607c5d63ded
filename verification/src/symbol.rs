//! The symbol matrix: a square grid of dark and light modules.

use vstd::prelude::*;

verus! {

/// A grid is square when every row is as long as the grid is high.
pub open spec fn is_square(grid: Seq<Seq<bool>>) -> bool {
    forall|y: int| 0 <= y < grid.len() ==> (#[trigger] grid[y]).len() == grid.len()
}

/// The module at column `x` of row `y`; every position outside the grid is light.
pub open spec fn module_at(grid: Seq<Seq<bool>>, x: int, y: int) -> bool {
    0 <= y < grid.len() && 0 <= x < grid[y].len() && grid[y][x]
}

/// The rows of a vector of vectors, each taken by its view.
pub open spec fn rows_view(rows: Seq<Vec<bool>>) -> Seq<Seq<bool>> {
    Seq::new(rows.len(), |y: int| rows[y]@)
}

/// A square grid of modules, `true` for dark. It does not change once made.
#[derive(Debug)]
pub struct SymbolMatrix {
    rows: Vec<Vec<bool>>,
}

impl View for SymbolMatrix {
    type V = Seq<Seq<bool>>;

    closed spec fn view(&self) -> Seq<Seq<bool>> {
        rows_view(self.rows@)
    }
}

impl SymbolMatrix {
    #[verifier::type_invariant]
    spec fn square(&self) -> bool {
        is_square(rows_view(self.rows@))
    }

    /// Takes the rows of a grid, top to bottom. The grid must be square.
    pub fn from_rows(rows: Vec<Vec<bool>>) -> (r: Option<SymbolMatrix>)
        ensures
            r is Some <==> is_square(rows_view(rows@)),
            r matches Some(m) ==> m@ == rows_view(rows@),
    {
        let n = rows.len();
        let mut y: usize = 0;
        while y < n
            invariant
                n == rows@.len(),
                y <= n,
                forall|k: int| 0 <= k < y ==> (#[trigger] rows@[k])@.len() == n,
            decreases n - y,
        {
            if rows[y].len() != n {
                assert(rows_view(rows@)[y as int].len() != n);
                return None;
            }
            y += 1;
        }
        assert forall|k: int| 0 <= k < rows_view(rows@).len() implies (#[trigger] rows_view(
            rows@,
        )[k]).len() == rows_view(rows@).len() by {
            assert(rows@[k]@.len() == n);
        }
        Some(SymbolMatrix { rows })
    }

    /// The number of modules along one side.
    pub fn side(&self) -> (n: usize)
        ensures
            n == self@.len(),
            is_square(self@),
    {
        proof {
            use_type_invariant(self);
        }
        self.rows.len()
    }

    /// The module at column `x` of row `y`, `true` for dark. Outside the grid
    /// every module is light.
    pub fn module(&self, x: usize, y: usize) -> (dark: bool)
        ensures
            dark == module_at(self@, x as int, y as int),
    {
        proof {
            use_type_invariant(self);
        }
        if y < self.rows.len() && x < self.rows[y].len() {
            self.rows[y][x]
        } else {
            false
        }
    }
}

} // verus!
