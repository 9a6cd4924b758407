use vstd::prelude::*;

verus! {

/// Number of cells along each side of a chunk's terrain mesh.
pub const CHUNK_RESOLUTION: u32 = 16;

/// Vertices along each side of a grid of `resolution` cells.
pub open spec fn vertices_per_side(resolution: int) -> int {
    resolution + 1
}

/// Where corner `c` (0 to 5) of the two triangles of cell `(z, x)` is
/// stored in the index buffer.
pub open spec fn slot(resolution: int, z: int, x: int, c: int) -> int {
    6 * (z * resolution + x) + c
}

/// The vertex that corner `c` of the two triangles of cell `(z, x)` uses:
/// the cell's corners, row-major with `resolution + 1` vertices per row,
/// taken as the triangles (top-left, bottom-left, top-right) and
/// (top-right, bottom-left, bottom-right).
pub open spec fn corner(resolution: int, z: int, x: int, c: int) -> int {
    let v = vertices_per_side(resolution);
    let i = z * v + x;
    if c == 0 {
        i
    } else if c == 1 {
        i + v
    } else if c == 2 {
        i + 1
    } else if c == 3 {
        i + 1
    } else if c == 4 {
        i + v
    } else {
        i + v + 1
    }
}

/// Every cell's two triangles are (top-left, bottom-left, top-right) and
/// (top-right, bottom-left, bottom-right) of that cell: with `i` the cell's
/// top-left vertex `z * (res + 1) + x`, its corners are `i`, `i + res + 1`,
/// `i + 1`, `i + 1`, `i + res + 1`, `i + res + 2`. So every cell is the
/// first cell shifted by `i`, and all cells wind the same way.
pub proof fn lemma_cell_winding(res: int, z: int, x: int)
    ensures
        corner(res, z, x, 0) == z * (res + 1) + x,
        corner(res, z, x, 1) == z * (res + 1) + x + res + 1,
        corner(res, z, x, 2) == z * (res + 1) + x + 1,
        corner(res, z, x, 3) == z * (res + 1) + x + 1,
        corner(res, z, x, 4) == z * (res + 1) + x + res + 1,
        corner(res, z, x, 5) == z * (res + 1) + x + res + 2,
        forall|c: int| 0 <= c < 6 ==> #[trigger] corner(res, z, x, c) == corner(res, 0, 0, c) + z * (res + 1) + x,
{
    assert(0 * (res + 1) + 0 == 0);
}

proof fn lemma_cell_bounds(res: int, z: int, x: int)
    requires
        0 <= z < res,
        0 <= x < res,
    ensures
        0 <= z * res + x < res * res,
        0 <= z * (res + 1) + x,
        z * (res + 1) + x + (res + 1) + 1 < (res + 1) * (res + 1),
{
    assert(0 <= z * res + x < res * res) by (nonlinear_arith)
        requires
            0 <= z < res,
            0 <= x < res,
    ;
    assert(0 <= z * (res + 1) + x) by (nonlinear_arith)
        requires
            0 <= z,
            0 <= x,
            0 < res,
    ;
    assert(z * (res + 1) + x + (res + 1) + 1 < (res + 1) * (res + 1)) by (nonlinear_arith)
        requires
            0 <= z < res,
            0 <= x < res,
    ;
}

proof fn lemma_cell_order(res: int, z1: int, x1: int, z2: int, x2: int)
    requires
        0 <= x1 < res,
        0 <= x2 < res,
        0 <= z1,
        0 <= z2,
        z1 < z2 || (z1 == z2 && x1 < x2),
    ensures
        z1 * res + x1 < z2 * res + x2,
{
    assert(z1 * res + x1 < z2 * res + x2) by (nonlinear_arith)
        requires
            0 <= x1 < res,
            0 <= x2 < res,
            0 <= z1,
            0 <= z2,
            z1 < z2 || (z1 == z2 && x1 < x2),
    ;
}

/// The index buffer of a square grid mesh of `resolution × resolution`
/// cells: two triangles per cell, cells in row-major order. Every index
/// names one of the `(resolution + 1)²` vertices.
pub fn terrain_indices(resolution: u32) -> (indices: Vec<u32>)
    requires
        (resolution + 1) * (resolution + 1) <= u32::MAX,
    ensures
        indices@.len() == 6 * resolution * resolution,
        forall|z: int, x: int, c: int|
            0 <= z < resolution && 0 <= x < resolution && 0 <= c < 6 ==> #[trigger] indices@[slot(
                resolution as int,
                z,
                x,
                c,
            )] == corner(resolution as int, z, x, c),
        forall|k: int|
            0 <= k < indices@.len() ==> #[trigger] indices@[k] < (resolution + 1) * (resolution + 1),
        forall|z: int, x: int|
            #![trigger indices@[slot(resolution as int, z, x, 0)]]
            0 <= z < resolution && 0 <= x < resolution ==> {
                let i = z * (resolution + 1) + x;
                &&& indices@[slot(resolution as int, z, x, 0)] == i
                &&& indices@[slot(resolution as int, z, x, 1)] == i + resolution + 1
                &&& indices@[slot(resolution as int, z, x, 2)] == i + 1
                &&& indices@[slot(resolution as int, z, x, 3)] == i + 1
                &&& indices@[slot(resolution as int, z, x, 4)] == i + resolution + 1
                &&& indices@[slot(resolution as int, z, x, 5)] == i + resolution + 2
            },
        forall|z: int, x: int, c: int|
            0 <= z < resolution && 0 <= x < resolution && 0 <= c < 6 ==> #[trigger] indices@[slot(
                resolution as int,
                z,
                x,
                c,
            )] == indices@[c] + z * (resolution + 1) + x,
{
    let ghost res = resolution as int;
    proof {
        assert(resolution + 1 <= (resolution + 1) * (resolution + 1)) by (nonlinear_arith);
    }
    let vertices_per_side = resolution + 1;
    let mut indices: Vec<u32> = Vec::new();
    let mut z: u32 = 0;
    while z < resolution
        invariant
            res == resolution as int,
            vertices_per_side == resolution + 1,
            (resolution + 1) * (resolution + 1) <= u32::MAX,
            0 <= z <= resolution,
            indices@.len() == 6 * (z * res),
            forall|z2: int, x2: int, c: int|
                0 <= z2 < z && 0 <= x2 < res && 0 <= c < 6 ==> #[trigger] indices@[slot(res, z2, x2, c)]
                    == corner(res, z2, x2, c),
            forall|k: int| 0 <= k < indices@.len() ==> #[trigger] indices@[k] < (res + 1) * (res + 1),
        decreases resolution - z,
    {
        let mut x: u32 = 0;
        while x < resolution
            invariant
                res == resolution as int,
                vertices_per_side == resolution + 1,
                (resolution + 1) * (resolution + 1) <= u32::MAX,
                0 <= z < resolution,
                0 <= x <= resolution,
                indices@.len() == 6 * (z * res + x),
                forall|z2: int, x2: int, c: int|
                    0 <= z2 && 0 <= x2 < res && 0 <= c < 6 && (z2 < z || (z2 == z && x2 < x))
                        ==> #[trigger] indices@[slot(res, z2, x2, c)] == corner(res, z2, x2, c),
                forall|k: int| 0 <= k < indices@.len() ==> #[trigger] indices@[k] < (res + 1) * (res + 1),
            decreases resolution - x,
        {
            proof {
                lemma_cell_bounds(res, z as int, x as int);
            }
            let ghost before = indices@;
            let i = z * vertices_per_side + x;
            indices.push(i);
            indices.push(i + vertices_per_side);
            indices.push(i + 1);
            indices.push(i + 1);
            indices.push(i + vertices_per_side);
            indices.push(i + vertices_per_side + 1);
            proof {
                let base = 6 * (z * res + x);
                assert forall|z2: int, x2: int, c: int|
                    0 <= z2 && 0 <= x2 < res && 0 <= c < 6 && (z2 < z || (z2 == z && x2 < x + 1))
                        implies #[trigger] indices@[slot(res, z2, x2, c)] == corner(res, z2, x2, c) by {
                    if z2 == z && x2 == x {
                        assert(slot(res, z2, x2, c) == base + c);
                    } else {
                        lemma_cell_order(res, z2, x2, z as int, x as int);
                        assert(slot(res, z2, x2, c) < base);
                        assert(indices@[slot(res, z2, x2, c)] == before[slot(res, z2, x2, c)]);
                    }
                }
                assert forall|k: int| 0 <= k < indices@.len() implies #[trigger] indices@[k] < (res + 1) * (res + 1) by {
                    if k < before.len() {
                        assert(indices@[k] == before[k]);
                    }
                }
                assert(6 * (z * res + x) + 6 == 6 * (z * res + (x + 1)));
            }
            x = x + 1;
        }
        proof {
            assert(z * res + res == (z + 1) * res) by (nonlinear_arith);
        }
        z = z + 1;
    }
    proof {
        assert(6 * (res * res) == 6 * res * res) by (nonlinear_arith);
        assert forall|z: int, x: int|
            #![trigger indices@[slot(res, z, x, 0)]]
            0 <= z < res && 0 <= x < res implies {
                let i = z * (res + 1) + x;
                &&& indices@[slot(res, z, x, 0)] == i
                &&& indices@[slot(res, z, x, 1)] == i + res + 1
                &&& indices@[slot(res, z, x, 2)] == i + 1
                &&& indices@[slot(res, z, x, 3)] == i + 1
                &&& indices@[slot(res, z, x, 4)] == i + res + 1
                &&& indices@[slot(res, z, x, 5)] == i + res + 2
            } by {
            lemma_cell_winding(res, z, x);
            assert(indices@[slot(res, z, x, 1)] == corner(res, z, x, 1));
            assert(indices@[slot(res, z, x, 2)] == corner(res, z, x, 2));
            assert(indices@[slot(res, z, x, 3)] == corner(res, z, x, 3));
            assert(indices@[slot(res, z, x, 4)] == corner(res, z, x, 4));
            assert(indices@[slot(res, z, x, 5)] == corner(res, z, x, 5));
        }
        assert forall|z: int, x: int, c: int|
            0 <= z < res && 0 <= x < res && 0 <= c < 6 implies #[trigger] indices@[slot(res, z, x, c)]
                == indices@[c] + z * (res + 1) + x by {
            lemma_cell_winding(res, z, x);
            assert(slot(res, 0, 0, c) == c);
            assert(indices@[slot(res, 0, 0, c)] == corner(res, 0, 0, c));
        }
    }
    indices
}

} // verus!
