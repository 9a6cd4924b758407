use vstd::prelude::*;

verus! {

/// A cell of the grass grid, counted in plants from the plane's centre.
#[derive(Clone, Copy, Debug, PartialEq, Eq, Structural)]
pub struct GridCell {
    pub x: i32,
    pub y: i32,
}

/// Cells along one axis of a grid that runs from `-n` to `n`.
pub open spec fn cells_along(n: int) -> int {
    if n < 0 {
        0
    } else {
        2 * n + 1
    }
}

/// Where one grass plant goes on a plane: every cell from `(-nb_x, -nb_y)`
/// to `(nb_x, nb_y)`, rows by `x`, each row by `y`.
pub fn grass_cells(nb_x: i32, nb_y: i32) -> (cells: Vec<GridCell>)
    requires
        i32::MIN < nb_x < i32::MAX,
        i32::MIN < nb_y < i32::MAX,
    ensures
        cells@.len() == cells_along(nb_x as int) * cells_along(nb_y as int),
        forall|i: int, j: int|
            0 <= i < cells_along(nb_x as int) && 0 <= j < cells_along(nb_y as int) ==> #[trigger] cells@[i
                * cells_along(nb_y as int) + j] == (GridCell { x: (-nb_x + i) as i32, y: (-nb_y + j) as i32 }),
{
    let ghost rows = cells_along(nb_x as int);
    let ghost cols = cells_along(nb_y as int);
    let mut cells: Vec<GridCell> = Vec::new();
    let mut x: i32 = -nb_x;
    let x_end = nb_x + 1;
    let y_end = nb_y + 1;
    if x_end <= x || y_end <= -nb_y {
        proof {
            assert(rows == 0 || cols == 0);
            assert(rows * cols == 0) by (nonlinear_arith)
                requires
                    rows == 0 || cols == 0,
            ;
        }
        return cells;
    }
    proof {
        assert((x + nb_x) * cols == 0) by (nonlinear_arith)
            requires
                x + nb_x == 0,
        ;
    }
    while x < x_end
        invariant
            x_end == nb_x + 1,
            y_end == nb_y + 1,
            0 <= nb_x,
            0 <= nb_y,
            rows == 2 * nb_x + 1,
            cols == 2 * nb_y + 1,
            -nb_x <= x <= x_end,
            cells@.len() == (x + nb_x) * cols,
            forall|i: int, j: int|
                0 <= i < x + nb_x && 0 <= j < cols ==> #[trigger] cells@[i * cols + j] == (GridCell {
                    x: (-nb_x + i) as i32,
                    y: (-nb_y + j) as i32,
                }),
        decreases x_end - x,
    {
        let mut y: i32 = -nb_y;
        while y < y_end
            invariant
                x_end == nb_x + 1,
                y_end == nb_y + 1,
                0 <= nb_x,
                0 <= nb_y,
                rows == 2 * nb_x + 1,
                cols == 2 * nb_y + 1,
                -nb_x <= x < x_end,
                -nb_y <= y <= y_end,
                cells@.len() == (x + nb_x) * cols + (y + nb_y),
                forall|i: int, j: int|
                    0 <= i && 0 <= j < cols && (i < x + nb_x || (i == x + nb_x && j < y + nb_y))
                        ==> #[trigger] cells@[i * cols + j] == (GridCell {
                        x: (-nb_x + i) as i32,
                        y: (-nb_y + j) as i32,
                    }),
            decreases y_end - y,
        {
            let ghost before = cells@;
            cells.push(GridCell { x, y });
            proof {
                let a = (x + nb_x) as int;
                let b = (y + nb_y) as int;
                assert forall|i: int, j: int|
                    0 <= i && 0 <= j < cols && (i < a || (i == a && j < b + 1)) implies #[trigger] cells@[i
                        * cols + j] == (GridCell { x: (-nb_x + i) as i32, y: (-nb_y + j) as i32 }) by {
                    if i == a && j == b {
                        assert(i * cols + j == before.len());
                    } else {
                        assert(i * cols + j < a * cols + b) by (nonlinear_arith)
                            requires
                                0 <= i,
                                0 <= j < cols,
                                0 <= b,
                                i < a || (i == a && j < b),
                        ;
                        assert(cells@[i * cols + j] == before[i * cols + j]);
                    }
                }
            }
            y = y + 1;
        }
        proof {
            assert((x + nb_x) * cols + cols == (x + nb_x + 1) * cols) by (nonlinear_arith);
        }
        x = x + 1;
    }
    cells
}

} // verus!
