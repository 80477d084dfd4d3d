use vstd::prelude::*;

use crate::chunk::{voxel_index, Chunk, Voxel, AIR_VOXEL};
use crate::math::UVec3;
use crate::mesh::{VertData, VertPos, Vertex, VoxelMesh};

verus! {

// The corners of a voxel's cube, numbered as follows (+Y up, +Z towards the back):
//
//        0--------------1
//       /|             /|
//      / |            / |
//     3--+-----------2  |
//     |  4-----------+--5
//     | /            | /
//     |/             |/
//     7--------------6
//
// Faces are visited in the order +X, -X, +Y, -Y, +Z, -Z; each is two triangles
// wound by the right-hand rule.

/// Corner `c` of a voxel's cube: for each axis, 0 for the low side and 1 for the high side.
pub open spec fn corner_offset(c: int) -> (int, int, int) {
    if c == 0 {
        (0, 1, 1)
    } else if c == 1 {
        (1, 1, 1)
    } else if c == 2 {
        (1, 1, 0)
    } else if c == 3 {
        (0, 1, 0)
    } else if c == 4 {
        (0, 0, 1)
    } else if c == 5 {
        (1, 0, 1)
    } else if c == 6 {
        (1, 0, 0)
    } else {
        (0, 0, 0)
    }
}

/// The six corners, two triangles, that draw face `f` of a voxel.
pub open spec fn face_corners(f: int) -> Seq<int> {
    if f == 0 {
        seq![5, 1, 2, 5, 2, 6]
    } else if f == 1 {
        seq![7, 3, 4, 4, 3, 0]
    } else if f == 2 {
        seq![2, 1, 0, 3, 2, 0]
    } else if f == 3 {
        seq![7, 4, 5, 7, 5, 6]
    } else if f == 4 {
        seq![5, 4, 0, 1, 5, 0]
    } else {
        seq![6, 2, 3, 7, 6, 3]
    }
}

/// Corner `c` of voxel `(x, y, z)`: the voxel's center lies at `2 * (x + 1)` (in units of
/// 1/64 of the chunk, that is `(x + 1) / 32`), and each corner one unit off it on every axis.
pub open spec fn corner_vertex(x: int, y: int, z: int, c: int) -> VertPos {
    let (ox, oy, oz) = corner_offset(c);
    VertPos {
        x: (2 * x + 1 + 2 * ox) as u32,
        y: (2 * y + 1 + 2 * oy) as u32,
        z: (2 * z + 1 + 2 * oz) as u32,
    }
}

/// The six vertices of face `f` of voxel `(x, y, z)`, all tagged `v`.
pub open spec fn face_quad(x: int, y: int, z: int, f: int, v: Voxel) -> Seq<Vertex> {
    Seq::new(6, |k: int| (corner_vertex(x, y, z, face_corners(f)[k]), VertData { data: v }))
}

/// The neighbor of `(x, y, z)` across face `f` lies outside the chunk or is air.
pub open spec fn neighbor_open(g: Seq<Voxel>, x: int, y: int, z: int, f: int) -> bool {
    if f == 0 {
        x == 31 || g[voxel_index(x + 1, y, z)] == AIR_VOXEL
    } else if f == 1 {
        x == 0 || g[voxel_index(x - 1, y, z)] == AIR_VOXEL
    } else if f == 2 {
        y == 31 || g[voxel_index(x, y + 1, z)] == AIR_VOXEL
    } else if f == 3 {
        y == 0 || g[voxel_index(x, y - 1, z)] == AIR_VOXEL
    } else if f == 4 {
        z == 31 || g[voxel_index(x, y, z + 1)] == AIR_VOXEL
    } else {
        z == 0 || g[voxel_index(x, y, z - 1)] == AIR_VOXEL
    }
}

/// Face `f` of voxel `(x, y, z)` is drawn: the voxel is solid and the neighbor open.
pub open spec fn face_visible(g: Seq<Voxel>, x: int, y: int, z: int, f: int) -> bool {
    g[voxel_index(x, y, z)] != AIR_VOXEL && neighbor_open(g, x, y, z, f)
}

/// The vertices of the visible faces among the first `n` faces of voxel `(x, y, z)`.
pub open spec fn faces_prefix(g: Seq<Voxel>, x: int, y: int, z: int, n: int) -> Seq<Vertex>
    decreases n,
{
    if n <= 0 {
        Seq::empty()
    } else {
        faces_prefix(g, x, y, z, n - 1) + if face_visible(g, x, y, z, n - 1) {
            face_quad(x, y, z, n - 1, g[voxel_index(x, y, z)])
        } else {
            Seq::empty()
        }
    }
}

/// The vertices of voxel `(x, y, z)`.
pub open spec fn voxel_quads(g: Seq<Voxel>, x: int, y: int, z: int) -> Seq<Vertex> {
    faces_prefix(g, x, y, z, 6)
}

/// The vertices of the voxels `(0..n, y, z)`.
pub open spec fn row_prefix(g: Seq<Voxel>, y: int, z: int, n: int) -> Seq<Vertex>
    decreases n,
{
    if n <= 0 {
        Seq::empty()
    } else {
        row_prefix(g, y, z, n - 1) + voxel_quads(g, n - 1, y, z)
    }
}

/// The vertices of the rows `(_, 0..n, z)`.
pub open spec fn layer_prefix(g: Seq<Voxel>, z: int, n: int) -> Seq<Vertex>
    decreases n,
{
    if n <= 0 {
        Seq::empty()
    } else {
        layer_prefix(g, z, n - 1) + row_prefix(g, n - 1, z, 32)
    }
}

/// The vertices of the layers `(_, _, 0..n)`.
pub open spec fn grid_prefix(g: Seq<Voxel>, n: int) -> Seq<Vertex>
    decreases n,
{
    if n <= 0 {
        Seq::empty()
    } else {
        grid_prefix(g, n - 1) + layer_prefix(g, n - 1, 32)
    }
}

/// The mesh of a chunk: voxels visited with `z` outermost and `x` innermost, each
/// contributing its visible faces.
pub open spec fn chunk_mesh(g: Seq<Voxel>) -> Seq<Vertex> {
    grid_prefix(g, 32)
}

/// `after` is `before` with the mesh of the voxels `g` appended; it is dirty if it was
/// or if anything was appended.
pub open spec fn mesher_post(g: Seq<Voxel>, before: VoxelMesh, after: VoxelMesh) -> bool {
    &&& after.wf()
    &&& after@ == before@ + chunk_mesh(g)
    &&& after.spec_dirty() == (before.spec_dirty() || chunk_mesh(g).len() > 0)
}

/// The corners of face `f`, in drawing order.
fn face_corner_list(f: usize) -> (r: [usize; 6])
    requires
        f < 6,
    ensures
        r@ == face_corners(f as int).map_values(|c: int| c as usize),
{
    let r: [usize; 6] = if f == 0 {
        [5, 1, 2, 5, 2, 6]
    } else if f == 1 {
        [7, 3, 4, 4, 3, 0]
    } else if f == 2 {
        [2, 1, 0, 3, 2, 0]
    } else if f == 3 {
        [7, 4, 5, 7, 5, 6]
    } else if f == 4 {
        [5, 4, 0, 1, 5, 0]
    } else {
        [6, 2, 3, 7, 6, 3]
    };
    assert(r@ =~= face_corners(f as int).map_values(|c: int| c as usize));
    r
}

/// The position of corner `c` of voxel `(x, y, z)`.
fn corner_position(x: usize, y: usize, z: usize, c: usize) -> (r: VertPos)
    requires
        x < 32,
        y < 32,
        z < 32,
        c < 8,
    ensures
        r == corner_vertex(x as int, y as int, z as int, c as int),
{
    let (ox, oy, oz): (u32, u32, u32) = if c == 0 {
        (0, 1, 1)
    } else if c == 1 {
        (1, 1, 1)
    } else if c == 2 {
        (1, 1, 0)
    } else if c == 3 {
        (0, 1, 0)
    } else if c == 4 {
        (0, 0, 1)
    } else if c == 5 {
        (1, 0, 1)
    } else if c == 6 {
        (1, 0, 0)
    } else {
        (0, 0, 0)
    };
    VertPos {
        x: 2 * (x as u32) + 1 + 2 * ox,
        y: 2 * (y as u32) + 1 + 2 * oy,
        z: 2 * (z as u32) + 1 + 2 * oz,
    }
}

/// The voxel `(x, y, z)` of `chunk`.
fn voxel_of(chunk: &Chunk, x: usize, y: usize, z: usize) -> (r: Voxel)
    requires
        chunk.wf(),
        x < 32,
        y < 32,
        z < 32,
    ensures
        r == chunk.voxel(x as int, y as int, z as int),
{
    chunk.get_unchecked(UVec3 { x: x as u32, y: y as u32, z: z as u32 })
}

/// Whether the neighbor of `(x, y, z)` across face `f` is outside the chunk or air.
fn is_neighbor_open(chunk: &Chunk, x: usize, y: usize, z: usize, f: usize) -> (r: bool)
    requires
        chunk.wf(),
        x < 32,
        y < 32,
        z < 32,
        f < 6,
    ensures
        r == neighbor_open(chunk@, x as int, y as int, z as int, f as int),
{
    if f == 0 {
        x == 31 || voxel_of(chunk, x + 1, y, z) == AIR_VOXEL
    } else if f == 1 {
        x == 0 || voxel_of(chunk, x - 1, y, z) == AIR_VOXEL
    } else if f == 2 {
        y == 31 || voxel_of(chunk, x, y + 1, z) == AIR_VOXEL
    } else if f == 3 {
        y == 0 || voxel_of(chunk, x, y - 1, z) == AIR_VOXEL
    } else if f == 4 {
        z == 31 || voxel_of(chunk, x, y, z + 1) == AIR_VOXEL
    } else {
        z == 0 || voxel_of(chunk, x, y, z - 1) == AIR_VOXEL
    }
}

/// Appends the two triangles of face `f` of voxel `(x, y, z)`, tagged `v`.
fn push_face(mesh: &mut VoxelMesh, x: usize, y: usize, z: usize, f: usize, v: Voxel)
    requires
        old(mesh).wf(),
        x < 32,
        y < 32,
        z < 32,
        f < 6,
    ensures
        final(mesh).wf(),
        final(mesh)@ == old(mesh)@ + face_quad(x as int, y as int, z as int, f as int, v),
        final(mesh).spec_dirty(),
{
    let corners = face_corner_list(f);
    let ghost quad = face_quad(x as int, y as int, z as int, f as int, v);
    let mut k: usize = 0;
    while k < 6
        invariant
            k <= 6,
            f < 6,
            x < 32,
            y < 32,
            z < 32,
            mesh.wf(),
            corners@ == face_corners(f as int).map_values(|c: int| c as usize),
            quad == face_quad(x as int, y as int, z as int, f as int, v),
            mesh@ == old(mesh)@ + quad.take(k as int),
            k > 0 ==> mesh.spec_dirty(),
        decreases 6 - k,
    {
        let c = corners[k];
        assert(0 <= c < 8);
        let pos = corner_position(x, y, z, c);
        mesh.push((pos, VertData { data: v }));
        k = k + 1;
        assert(quad.take(k as int) =~= quad.take(k - 1).push(quad[k - 1]));
        assert(mesh@ =~= old(mesh)@ + quad.take(k as int));
    }
    assert(quad.take(6) =~= quad);
}

/// Appends the visible faces of voxel `(x, y, z)`, after making room for the six
/// faces a voxel can have at most.
fn push_voxel(chunk: &Chunk, mesh: &mut VoxelMesh, x: usize, y: usize, z: usize)
    requires
        chunk.wf(),
        old(mesh).wf(),
        x < 32,
        y < 32,
        z < 32,
    ensures
        final(mesh).wf(),
        final(mesh)@ == old(mesh)@ + voxel_quads(chunk@, x as int, y as int, z as int),
        final(mesh).spec_dirty() == (old(mesh).spec_dirty() || voxel_quads(
            chunk@,
            x as int,
            y as int,
            z as int,
        ).len() > 0),
{
    let ghost g = chunk@;
    mesh.reserve(36);
    let v = voxel_of(chunk, x, y, z);
    let mut f: usize = 0;
    while f < 6
        invariant
            f <= 6,
            x < 32,
            y < 32,
            z < 32,
            chunk.wf(),
            g == chunk@,
            v == g[voxel_index(x as int, y as int, z as int)],
            mesh.wf(),
            mesh@ == old(mesh)@ + faces_prefix(g, x as int, y as int, z as int, f as int),
            mesh.spec_dirty() == (old(mesh).spec_dirty() || faces_prefix(
                g,
                x as int,
                y as int,
                z as int,
                f as int,
            ).len() > 0),
        decreases 6 - f,
    {
        if v != AIR_VOXEL && is_neighbor_open(chunk, x, y, z, f) {
            push_face(mesh, x, y, z, f, v);
        }
        f = f + 1;
        assert(mesh@ =~= old(mesh)@ + faces_prefix(g, x as int, y as int, z as int, f as int));
    }
}

/// Appends to `mesh` the visible faces of every solid voxel of `chunk`: a face is visible
/// when its neighbor is air or lies outside the chunk (neighboring chunks are not looked
/// at). Voxels are visited with `z` outermost and `x` innermost, faces in the order
/// +X, -X, +Y, -Y, +Z, -Z, and every vertex carries its voxel's identifier.
pub fn data_mesher(chunk: &Chunk, mesh: &mut VoxelMesh)
    requires
        chunk.wf(),
        old(mesh).wf(),
    ensures
        mesher_post(chunk@, *old(mesh), *final(mesh)),
{
    let ghost g = chunk@;
    let mut z: usize = 0;
    while z < 32
        invariant
            z <= 32,
            chunk.wf(),
            g == chunk@,
            mesh.wf(),
            mesh@ == old(mesh)@ + grid_prefix(g, z as int),
            mesh.spec_dirty() == (old(mesh).spec_dirty() || grid_prefix(g, z as int).len() > 0),
        decreases 32 - z,
    {
        let ghost done_layers = grid_prefix(g, z as int);
        let mut y: usize = 0;
        while y < 32
            invariant
                y <= 32,
                z < 32,
                chunk.wf(),
                g == chunk@,
                done_layers == grid_prefix(g, z as int),
                mesh.wf(),
                mesh@ == old(mesh)@ + done_layers + layer_prefix(g, z as int, y as int),
                mesh.spec_dirty() == (old(mesh).spec_dirty() || (done_layers + layer_prefix(
                    g,
                    z as int,
                    y as int,
                )).len() > 0),
            decreases 32 - y,
        {
            let ghost done_rows = done_layers + layer_prefix(g, z as int, y as int);
            let mut x: usize = 0;
            while x < 32
                invariant
                    x <= 32,
                    y < 32,
                    z < 32,
                    chunk.wf(),
                    g == chunk@,
                    done_rows == done_layers + layer_prefix(g, z as int, y as int),
                    mesh.wf(),
                    mesh@ == old(mesh)@ + done_rows + row_prefix(g, y as int, z as int, x as int),
                    mesh.spec_dirty() == (old(mesh).spec_dirty() || (done_rows + row_prefix(
                        g,
                        y as int,
                        z as int,
                        x as int,
                    )).len() > 0),
                decreases 32 - x,
            {
                push_voxel(chunk, mesh, x, y, z);
                x = x + 1;
                assert(mesh@ =~= old(mesh)@ + done_rows + row_prefix(
                    g,
                    y as int,
                    z as int,
                    x as int,
                ));
            }
            y = y + 1;
            assert(mesh@ =~= old(mesh)@ + done_layers + layer_prefix(g, z as int, y as int));
        }
        z = z + 1;
        assert(mesh@ =~= old(mesh)@ + grid_prefix(g, z as int));
    }
}

} // verus!
