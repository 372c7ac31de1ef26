//! Triangle indices of the procedural meshes (boxes, planes and UV spheres),
//! and the choices of the GLB loader: which primitives become meshes, their
//! default indices, and when a file holds no usable mesh.
use vstd::prelude::*;
use vstd::string::StringExecFns;

verus! {

/// Corner `j` (0..6) of the two triangles of a quad whose four vertices start at `base`:
/// (base, base+1, base+2) and (base, base+2, base+3).
pub open spec fn quad_corner(base: int, j: int) -> int {
    if j == 0 || j == 3 {
        base
    } else if j == 1 {
        base + 1
    } else if j == 2 || j == 4 {
        base + 2
    } else {
        base + 3
    }
}

/// Indices of `quads` four-vertex faces laid out one after another
/// (six faces for a box, one for a plane).
pub fn quad_indices(quads: u32) -> (idx: Vec<u32>)
    requires
        4 * quads <= u32::MAX,
    ensures
        idx@.len() == 6 * quads,
        forall|f: int, j: int|
            0 <= f < quads && 0 <= j < 6 ==> #[trigger] idx@[6 * f + j] == quad_corner(4 * f, j),
        forall|t: int| 0 <= t < idx@.len() ==> #[trigger] idx@[t] < 4 * quads,
{
    let mut idx: Vec<u32> = Vec::new();
    let mut f: u32 = 0;
    while f < quads
        invariant
            f <= quads,
            4 * quads <= u32::MAX,
            idx@.len() == 6 * f,
            forall|g: int, j: int|
                0 <= g < f && 0 <= j < 6 ==> #[trigger] idx@[6 * g + j] == quad_corner(4 * g, j),
            forall|t: int| 0 <= t < idx@.len() ==> #[trigger] idx@[t] < 4 * f,
        decreases quads - f,
    {
        let base: u32 = 4 * f;
        idx.push(base);
        idx.push(base + 1);
        idx.push(base + 2);
        idx.push(base);
        idx.push(base + 2);
        idx.push(base + 3);
        proof {
            assert forall|g: int, j: int|
                0 <= g < f + 1 && 0 <= j < 6 implies #[trigger] idx@[6 * g + j] == quad_corner(
                4 * g,
                j,
            ) by {
                if g == f {
                    assert(6 * g + j == 6 * f + j);
                }
            }
        }
        f = f + 1;
    }
    idx
}

/// Corner `j` (0..6) of the two triangles of the sphere cell whose first vertex is
/// `a`, with `row` vertices per ring: (a, a+row, a+1) and (a+1, a+row, a+row+1).
pub open spec fn sphere_corner(a: int, row: int, j: int) -> int {
    if j == 0 {
        a
    } else if j == 1 || j == 4 {
        a + row
    } else if j == 2 || j == 3 {
        a + 1
    } else {
        a + row + 1
    }
}

/// Slices and stacks of a sphere are at least three and two.
pub open spec fn sphere_slices(slices: u32) -> int {
    if slices < 3 {
        3
    } else {
        slices as int
    }
}

pub open spec fn sphere_stacks(stacks: u32) -> int {
    if stacks < 2 {
        2
    } else {
        stacks as int
    }
}

/// Position of corner `j` of cell (`lat`, `lon`) in the index list.
pub open spec fn sphere_pos(sl: int, lat: int, lon: int, j: int) -> int {
    6 * (lat * sl + lon) + j
}

/// Indices of a UV sphere of `slices` × `stacks` cells over its
/// `(stacks + 1) * (slices + 1)` vertices, ring by ring.
pub fn sphere_indices(slices: u32, stacks: u32) -> (idx: Vec<u32>)
    requires
        (sphere_stacks(stacks) + 1) * (sphere_slices(slices) + 1) <= u32::MAX,
    ensures
        ({
            let sl = sphere_slices(slices);
            let st = sphere_stacks(stacks);
            let row = sl + 1;
            &&& idx@.len() == 6 * st * sl
            &&& forall|lat: int, lon: int, j: int|
                0 <= lat < st && 0 <= lon < sl && 0 <= j < 6 ==> #[trigger] idx@[sphere_pos(
                    sl,
                    lat,
                    lon,
                    j,
                )] == sphere_corner(lat * row + lon, row, j)
            &&& forall|t: int| 0 <= t < idx@.len() ==> #[trigger] idx@[t] < (st + 1) * row
        }),
{
    let slices: u32 = if slices < 3 {
        3
    } else {
        slices
    };
    let stacks: u32 = if stacks < 2 {
        2
    } else {
        stacks
    };
    proof {
        assert(slices + 1 <= u32::MAX) by (nonlinear_arith)
            requires
                (stacks + 1) * (slices + 1) <= u32::MAX,
                stacks >= 2,
        ;
    }
    let row: u32 = slices + 1;
    let ghost sl = slices as int;
    let ghost st = stacks as int;
    let ghost total = (st + 1) * (sl + 1);
    let mut idx: Vec<u32> = Vec::new();
    let mut lat: u32 = 0;
    while lat < stacks
        invariant
            sl == slices,
            st == stacks,
            row == slices + 1,
            slices >= 3,
            total == (st + 1) * (sl + 1),
            total <= u32::MAX,
            lat <= stacks,
            idx@.len() == 6 * (lat * sl),
            forall|la: int, lo: int, j: int|
                0 <= la < lat && 0 <= lo < sl && 0 <= j < 6 ==> #[trigger] idx@[sphere_pos(
                    sl,
                    la,
                    lo,
                    j,
                )] == sphere_corner(la * row + lo, row as int, j),
            forall|t: int| 0 <= t < idx@.len() ==> #[trigger] idx@[t] < total,
        decreases stacks - lat,
    {
        let mut lon: u32 = 0;
        while lon < slices
            invariant
                sl == slices,
                st == stacks,
                row == slices + 1,
                slices >= 3,
                total == (st + 1) * (sl + 1),
                total <= u32::MAX,
                lat < stacks,
                lon <= slices,
                idx@.len() == 6 * (lat * sl + lon),
                forall|la: int, lo: int, j: int|
                    0 <= la < lat && 0 <= lo < sl && 0 <= j < 6 ==> #[trigger] idx@[sphere_pos(
                        sl,
                        la,
                        lo,
                        j,
                    )] == sphere_corner(la * row + lo, row as int, j),
                forall|lo: int, j: int|
                    0 <= lo < lon && 0 <= j < 6 ==> #[trigger] idx@[sphere_pos(sl, lat as int, lo, j)]
                        == sphere_corner(lat * row + lo, row as int, j),
                forall|t: int| 0 <= t < idx@.len() ==> #[trigger] idx@[t] < total,
            decreases slices - lon,
        {
            proof {
                assert(lat * row + lon + row + 1 < total) by (nonlinear_arith)
                    requires
                        lat < st,
                        lon < sl,
                        row == sl + 1,
                        total == (st + 1) * (sl + 1),
                ;
                assert(lat * row <= lat * row + lon);
            }
            let a: u32 = lat * row + lon;
            let b: u32 = a + row;
            let ghost before = idx@;
            idx.push(a);
            idx.push(b);
            idx.push(a + 1);
            idx.push(a + 1);
            idx.push(b);
            idx.push(b + 1);
            proof {
                let p = 6 * (lat * sl + lon);
                assert(before.len() == p);
                assert forall|la: int, lo: int, j: int|
                    0 <= la < lat && 0 <= lo < sl && 0 <= j < 6 implies #[trigger] idx@[sphere_pos(
                    sl,
                    la,
                    lo,
                    j,
                )] == sphere_corner(la * row + lo, row as int, j) by {
                    assert(sphere_pos(sl, la, lo, j) < p) by (nonlinear_arith)
                        requires
                            0 <= la < lat,
                            0 <= lo < sl,
                            0 <= j < 6,
                            p == 6 * (lat * sl + lon),
                            lon >= 0,
                            sphere_pos(sl, la, lo, j) == 6 * (la * sl + lo) + j,
                    ;
                    assert(idx@[sphere_pos(sl, la, lo, j)] == before[sphere_pos(sl, la, lo, j)]);
                }
                assert forall|lo: int, j: int|
                    0 <= lo < lon + 1 && 0 <= j < 6 implies #[trigger] idx@[sphere_pos(
                    sl,
                    lat as int,
                    lo,
                    j,
                )] == sphere_corner(lat * row + lo, row as int, j) by {
                    assert(sphere_pos(sl, lat as int, lo, j) == 6 * (lat * sl + lo) + j);
                    if lo < lon {
                        assert(6 * (lat * sl + lo) + j < p);
                        assert(idx@[sphere_pos(sl, lat as int, lo, j)] == before[sphere_pos(
                            sl,
                            lat as int,
                            lo,
                            j,
                        )]);
                    } else {
                        assert(sphere_pos(sl, lat as int, lo, j) == p + j);
                    }
                }
            }
            lon = lon + 1;
        }
        proof {
            assert(lat * sl + sl == (lat + 1) * sl) by (nonlinear_arith);
        }
        lat = lat + 1;
    }
    proof {
        assert(6 * (st * sl) == 6 * st * sl) by (nonlinear_arith);
    }
    idx
}

/// Whether a glTF primitive becomes a mesh: it draws triangles and has
/// positions, at least one of them (`vertices` is `None` without positions).
pub fn keeps_primitive(triangles: bool, vertices: Option<usize>) -> (keep: bool)
    ensures
        keep == (triangles && vertices is Some && vertices->0 > 0),
{
    match vertices {
        Some(n) => triangles && n > 0,
        None => false,
    }
}

/// The indices of a primitive that has none: its vertices in order, counted
/// in `u32` (the count is taken modulo 2^32).
pub fn sequential_indices(vertices: usize) -> (idx: Vec<u32>)
    ensures
        idx@.len() == vertices as u32,
        forall|i: int| 0 <= i < idx@.len() ==> #[trigger] idx@[i] == i,
{
    let n = vertices as u32;
    let mut idx: Vec<u32> = Vec::new();
    let mut i: u32 = 0;
    while i < n
        invariant
            i <= n,
            idx@.len() == i,
            forall|k: int| 0 <= k < i ==> #[trigger] idx@[k] == k,
        decreases n - i,
    {
        idx.push(i);
        i = i + 1;
    }
    idx
}

/// The meshes a GLB file yields, or an error when none was usable.
pub fn finish_meshes<T>(meshes: Vec<T>) -> (res: Result<Vec<T>, String>)
    ensures
        res is Err == (meshes@.len() == 0),
        res matches Ok(v) ==> v@ == meshes@,
        res matches Err(e) ==> e@ == "glb has no triangle meshes"@,
{
    if meshes.len() == 0 {
        Err(String::from_str("glb has no triangle meshes"))
    } else {
        Ok(meshes)
    }
}

} // verus!
