use vstd::prelude::*;

verus! {

/// A cell of the instancing test block.
#[derive(Clone, Copy, Debug, PartialEq, Eq, Structural)]
pub struct BlockCell {
    pub x: i32,
    pub y: i32,
    pub z: i32,
}

/// Cells of the block along x and along z (from -50 to 49).
pub const BLOCK_SIDE: i32 = 100;

/// Layers of the block (y from 0 to 9).
pub const BLOCK_LAYERS: i32 = 10;

/// Where cell `(x, y, z)` of the block comes in the spawn order: x
/// slowest, then y, then z.
pub open spec fn block_index(x: int, y: int, z: int) -> int {
    ((x + 50) * BLOCK_LAYERS + y) * BLOCK_SIDE + (z + 50)
}

proof fn lemma_block_index(x: int, y: int, z: int)
    requires
        -50 <= x < 50,
        0 <= y < 10,
        -50 <= z < 50,
    ensures
        0 <= block_index(x, y, z) < 100000,
        block_index(x, y, z) + 1 == if z < 49 {
            block_index(x, y, z + 1)
        } else if y < 9 {
            block_index(x, y + 1, -50)
        } else {
            block_index(x + 1, 0, -50)
        },
{
    assert(0 <= block_index(x, y, z) < 100000) by (nonlinear_arith)
        requires
            -50 <= x < 50,
            0 <= y < 10,
            -50 <= z < 50,
    ;
}

/// The cells of the instancing test block, in spawn order: x from -50 to
/// 49, y from 0 to 9, z from -50 to 49. There are 100 000 of them, the
/// number of objects the test reports.
pub fn instancing_cells() -> (cells: Vec<BlockCell>)
    ensures
        cells@.len() == 100000,
        forall|x: int, y: int, z: int|
            -50 <= x < 50 && 0 <= y < 10 && -50 <= z < 50 ==> #[trigger] cells@[block_index(x, y, z)]
                == (BlockCell { x: x as i32, y: y as i32, z: z as i32 }),
{
    let mut cells: Vec<BlockCell> = Vec::new();
    let mut x: i32 = -50;
    proof {
        assert(block_index(-50, 0, -50) == 0);
    }
    while x < 50
        invariant
            -50 <= x <= 50,
            cells@.len() == if x < 50 { block_index(x as int, 0, -50) } else { 100000 },
            forall|a: int, b: int, c: int|
                -50 <= a < x && 0 <= b < 10 && -50 <= c < 50 ==> #[trigger] cells@[block_index(a, b, c)]
                    == (BlockCell { x: a as i32, y: b as i32, z: c as i32 }),
        decreases 50 - x,
    {
        let mut y: i32 = 0;
        while y < 10
            invariant
                -50 <= x < 50,
                0 <= y <= 10,
                cells@.len() == if y < 10 { block_index(x as int, y as int, -50) } else if x < 49 {
                    block_index(x + 1, 0, -50)
                } else {
                    100000
                },
                forall|a: int, b: int, c: int|
                    -50 <= a && 0 <= b < 10 && -50 <= c < 50 && (a < x || (a == x && b < y))
                        ==> #[trigger] cells@[block_index(a, b, c)] == (BlockCell {
                        x: a as i32,
                        y: b as i32,
                        z: c as i32,
                    }),
            decreases 10 - y,
        {
            let mut z: i32 = -50;
            while z < 50
                invariant
                    -50 <= x < 50,
                    0 <= y < 10,
                    -50 <= z <= 50,
                    cells@.len() == if z < 50 { block_index(x as int, y as int, z as int) } else if y < 9 {
                        block_index(x as int, y + 1, -50)
                    } else if x < 49 {
                        block_index(x + 1, 0, -50)
                    } else {
                        100000
                    },
                    forall|a: int, b: int, c: int|
                        -50 <= a && 0 <= b < 10 && -50 <= c < 50 && (a < x || (a == x && b < y) || (a
                            == x && b == y && c < z)) ==> #[trigger] cells@[block_index(a, b, c)] == (BlockCell {
                            x: a as i32,
                            y: b as i32,
                            z: c as i32,
                        }),
                decreases 50 - z,
            {
                proof {
                    lemma_block_index(x as int, y as int, z as int);
                }
                let ghost before = cells@;
                cells.push(BlockCell { x, y, z });
                proof {
                    assert forall|a: int, b: int, c: int|
                        -50 <= a && 0 <= b < 10 && -50 <= c < 50 && (a < x || (a == x && b < y) || (a
                            == x && b == y && c < z + 1)) implies #[trigger] cells@[block_index(a, b, c)]
                            == (BlockCell { x: a as i32, y: b as i32, z: c as i32 }) by {
                        if a == x && b == y && c == z {
                        } else {
                            assert(block_index(a, b, c) < block_index(x as int, y as int, z as int)) by (nonlinear_arith)
                                requires
                                    -50 <= a,
                                    0 <= b < 10,
                                    -50 <= c < 50,
                                    -50 <= x,
                                    0 <= y < 10,
                                    -50 <= z < 50,
                                    a < x || (a == x && b < y) || (a == x && b == y && c < z),
                            ;
                            assert(cells@[block_index(a, b, c)] == before[block_index(a, b, c)]);
                        }
                    }
                }
                z = z + 1;
            }
            y = y + 1;
        }
        x = x + 1;
    }
    cells
}

} // verus!
