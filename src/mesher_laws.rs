use vstd::prelude::*;

use crate::chunk::{voxel_index, Voxel, AIR_VOXEL, CHUNK_VOLUME};
use crate::mesh::{VertData, Vertex, VoxelMesh};
use crate::mesher::{
    chunk_mesh, corner_vertex, face_corners, face_quad, face_visible, faces_prefix, grid_prefix,
    layer_prefix, mesher_post, row_prefix, voxel_quads,
};

verus! {

/// Meshing is deterministic: the same voxels appended to meshes with the same content
/// give the same content, vertex for vertex.
pub proof fn lemma_mesher_deterministic(
    g1: Seq<Voxel>,
    before1: VoxelMesh,
    after1: VoxelMesh,
    g2: Seq<Voxel>,
    before2: VoxelMesh,
    after2: VoxelMesh,
)
    requires
        g1 == g2,
        before1@ == before2@,
        mesher_post(g1, before1, after1),
        mesher_post(g2, before2, after2),
    ensures
        after1@ == after2@,
{
}

proof fn lemma_faces_whole(g: Seq<Voxel>, x: int, y: int, z: int, n: int)
    ensures
        faces_prefix(g, x, y, z, n).len() % 6 == 0,
    decreases n,
{
    if n > 0 {
        lemma_faces_whole(g, x, y, z, n - 1);
    }
}

proof fn lemma_row_whole(g: Seq<Voxel>, y: int, z: int, n: int)
    ensures
        row_prefix(g, y, z, n).len() % 6 == 0,
    decreases n,
{
    if n > 0 {
        lemma_row_whole(g, y, z, n - 1);
        lemma_faces_whole(g, n - 1, y, z, 6);
    }
}

proof fn lemma_layer_whole(g: Seq<Voxel>, z: int, n: int)
    ensures
        layer_prefix(g, z, n).len() % 6 == 0,
    decreases n,
{
    if n > 0 {
        lemma_layer_whole(g, z, n - 1);
        lemma_row_whole(g, n - 1, z, 32);
    }
}

proof fn lemma_grid_whole(g: Seq<Voxel>, n: int)
    ensures
        grid_prefix(g, n).len() % 6 == 0,
    decreases n,
{
    if n > 0 {
        lemma_grid_whole(g, n - 1);
        lemma_layer_whole(g, n - 1, 32);
    }
}

/// A chunk's mesh is made of whole quads: six vertices, two triangles, each.
pub proof fn lemma_mesh_whole_quads(g: Seq<Voxel>)
    ensures
        chunk_mesh(g).len() % 6 == 0,
{
    lemma_grid_whole(g, 32);
}

/// `(x, y, z)` addresses a voxel of the chunk.
pub open spec fn in_grid(x: int, y: int, z: int) -> bool {
    0 <= x < 32 && 0 <= y < 32 && 0 <= z < 32
}

/// The six faces of voxel `(x, y, z)`, all drawn, tagged `v`: face `i / 6`, corner `i % 6`.
pub open spec fn full_cube(x: int, y: int, z: int, v: Voxel) -> Seq<Vertex> {
    Seq::new(36, |i: int| (corner_vertex(x, y, z, face_corners(i / 6)[i % 6]), VertData { data: v }))
}

proof fn lemma_voxel_index_bounds(x: int, y: int, z: int)
    requires
        in_grid(x, y, z),
    ensures
        0 <= voxel_index(x, y, z) < CHUNK_VOLUME,
{
}

proof fn lemma_voxel_index_injective(a: int, b: int, c: int, x: int, y: int, z: int)
    requires
        in_grid(a, b, c),
        in_grid(x, y, z),
        voxel_index(a, b, c) == voxel_index(x, y, z),
    ensures
        a == x && b == y && c == z,
{
}

proof fn lemma_air_has_no_faces(g: Seq<Voxel>, x: int, y: int, z: int, n: int)
    requires
        g[voxel_index(x, y, z)] == AIR_VOXEL,
    ensures
        faces_prefix(g, x, y, z, n) == Seq::<Vertex>::empty(),
    decreases n,
{
    if n > 0 {
        lemma_air_has_no_faces(g, x, y, z, n - 1);
        assert(faces_prefix(g, x, y, z, n) =~= Seq::<Vertex>::empty());
    }
}

proof fn lemma_all_faces_drawn(g: Seq<Voxel>, x: int, y: int, z: int, n: int)
    requires
        in_grid(x, y, z),
        0 <= n <= 6,
        forall|f: int| 0 <= f < 6 ==> face_visible(g, x, y, z, f),
    ensures
        faces_prefix(g, x, y, z, n) == full_cube(x, y, z, g[voxel_index(x, y, z)]).take(6 * n),
    decreases n,
{
    let v = g[voxel_index(x, y, z)];
    if n > 0 {
        lemma_all_faces_drawn(g, x, y, z, n - 1);
        assert(faces_prefix(g, x, y, z, n) =~= full_cube(x, y, z, v).take(6 * n)) by {
            let q = face_quad(x, y, z, n - 1, v);
            assert forall|i: int| 6 * (n - 1) <= i < 6 * n implies #[trigger] full_cube(
                x,
                y,
                z,
                v,
            )[i] == q[i - 6 * (n - 1)] by {
                assert(i / 6 == n - 1);
                assert(i % 6 == i - 6 * (n - 1));
            }
        }
    } else {
        assert(faces_prefix(g, x, y, z, n) =~= full_cube(x, y, z, v).take(6 * n));
    }
}

/// Exactly one voxel is solid.
pub open spec fn single_solid(g: Seq<Voxel>, x: int, y: int, z: int) -> bool {
    &&& g.len() == CHUNK_VOLUME
    &&& in_grid(x, y, z)
    &&& g[voxel_index(x, y, z)] != AIR_VOXEL
    &&& forall|i: int| 0 <= i < g.len() && i != voxel_index(x, y, z) ==> g[i] == AIR_VOXEL
}

proof fn lemma_single_voxel_quads(g: Seq<Voxel>, x: int, y: int, z: int, a: int, b: int, c: int)
    requires
        single_solid(g, x, y, z),
        in_grid(a, b, c),
    ensures
        voxel_quads(g, a, b, c) == if a == x && b == y && c == z {
            full_cube(x, y, z, g[voxel_index(x, y, z)])
        } else {
            Seq::<Vertex>::empty()
        },
{
    if a == x && b == y && c == z {
        assert forall|f: int| 0 <= f < 6 implies face_visible(g, x, y, z, f) by {
            if f == 0 && x < 31 {
                lemma_voxel_index_bounds(x + 1, y, z);
            } else if f == 1 && x > 0 {
                lemma_voxel_index_bounds(x - 1, y, z);
            } else if f == 2 && y < 31 {
                lemma_voxel_index_bounds(x, y + 1, z);
            } else if f == 3 && y > 0 {
                lemma_voxel_index_bounds(x, y - 1, z);
            } else if f == 4 && z < 31 {
                lemma_voxel_index_bounds(x, y, z + 1);
            } else if f == 5 && z > 0 {
                lemma_voxel_index_bounds(x, y, z - 1);
            }
        }
        lemma_all_faces_drawn(g, x, y, z, 6);
        assert(full_cube(x, y, z, g[voxel_index(x, y, z)]).take(36) =~= full_cube(
            x,
            y,
            z,
            g[voxel_index(x, y, z)],
        ));
    } else {
        lemma_voxel_index_bounds(a, b, c);
        if voxel_index(a, b, c) == voxel_index(x, y, z) {
            lemma_voxel_index_injective(a, b, c, x, y, z);
        }
        lemma_air_has_no_faces(g, a, b, c, 6);
    }
}

proof fn lemma_single_row(g: Seq<Voxel>, x: int, y: int, z: int, b: int, c: int, n: int)
    requires
        single_solid(g, x, y, z),
        0 <= b < 32,
        0 <= c < 32,
        0 <= n <= 32,
    ensures
        row_prefix(g, b, c, n) == if b == y && c == z && n > x {
            full_cube(x, y, z, g[voxel_index(x, y, z)])
        } else {
            Seq::<Vertex>::empty()
        },
    decreases n,
{
    if n > 0 {
        lemma_single_row(g, x, y, z, b, c, n - 1);
        lemma_single_voxel_quads(g, x, y, z, n - 1, b, c);
        assert(row_prefix(g, b, c, n) =~= row_prefix(g, b, c, n - 1) + voxel_quads(g, n - 1, b, c));
        if b == y && c == z && n - 1 == x {
            assert(Seq::<Vertex>::empty() + full_cube(x, y, z, g[voxel_index(x, y, z)]) =~= full_cube(
                x,
                y,
                z,
                g[voxel_index(x, y, z)],
            ));
        } else {
            assert(row_prefix(g, b, c, n - 1) + Seq::<Vertex>::empty() =~= row_prefix(
                g,
                b,
                c,
                n - 1,
            ));
        }
    }
}

proof fn lemma_single_layer(g: Seq<Voxel>, x: int, y: int, z: int, c: int, n: int)
    requires
        single_solid(g, x, y, z),
        0 <= c < 32,
        0 <= n <= 32,
    ensures
        layer_prefix(g, c, n) == if c == z && n > y {
            full_cube(x, y, z, g[voxel_index(x, y, z)])
        } else {
            Seq::<Vertex>::empty()
        },
    decreases n,
{
    if n > 0 {
        lemma_single_layer(g, x, y, z, c, n - 1);
        lemma_single_row(g, x, y, z, n - 1, c, 32);
        let cube = full_cube(x, y, z, g[voxel_index(x, y, z)]);
        if c == z && n - 1 == y {
            assert(Seq::<Vertex>::empty() + cube =~= cube);
        } else {
            assert(layer_prefix(g, c, n - 1) + Seq::<Vertex>::empty() =~= layer_prefix(g, c, n - 1));
        }
    }
}

proof fn lemma_single_grid(g: Seq<Voxel>, x: int, y: int, z: int, n: int)
    requires
        single_solid(g, x, y, z),
        0 <= n <= 32,
    ensures
        grid_prefix(g, n) == if n > z {
            full_cube(x, y, z, g[voxel_index(x, y, z)])
        } else {
            Seq::<Vertex>::empty()
        },
    decreases n,
{
    if n > 0 {
        lemma_single_grid(g, x, y, z, n - 1);
        lemma_single_layer(g, x, y, z, n - 1, 32);
        let cube = full_cube(x, y, z, g[voxel_index(x, y, z)]);
        if n - 1 == z {
            assert(Seq::<Vertex>::empty() + cube =~= cube);
        } else {
            assert(grid_prefix(g, n - 1) + Seq::<Vertex>::empty() =~= grid_prefix(g, n - 1));
        }
    }
}

/// A chunk with a single solid voxel meshes to exactly that voxel's six faces:
/// 36 vertices, all tagged with its identifier.
pub proof fn lemma_single_voxel_mesh(g: Seq<Voxel>, x: int, y: int, z: int)
    requires
        single_solid(g, x, y, z),
    ensures
        chunk_mesh(g) == full_cube(x, y, z, g[voxel_index(x, y, z)]),
        chunk_mesh(g).len() == 36,
        forall|i: int| 0 <= i < 36 ==> (#[trigger] chunk_mesh(g)[i]).1.data == g[voxel_index(x, y, z)],
{
    lemma_single_grid(g, x, y, z, 32);
}

/// Face `f` of voxel `(x, y, z)` lies on the chunk's boundary.
pub open spec fn on_boundary(x: int, y: int, z: int, f: int) -> bool {
    if f == 0 {
        x == 31
    } else if f == 1 {
        x == 0
    } else if f == 2 {
        y == 31
    } else if f == 3 {
        y == 0
    } else if f == 4 {
        z == 31
    } else {
        z == 0
    }
}

/// Every voxel is solid.
pub open spec fn all_solid(g: Seq<Voxel>) -> bool {
    &&& g.len() == CHUNK_VOLUME
    &&& forall|i: int| 0 <= i < g.len() ==> g[i] != AIR_VOXEL
}

spec fn ind(b: bool) -> int {
    if b {
        1
    } else {
        0
    }
}

/// Faces of the chunk's boundary that a coordinate `t` touches on its own axis.
spec fn ends(t: int) -> int {
    ind(t == 0) + ind(t == 31)
}

/// In a chunk of solid voxels a face is drawn exactly when it lies on the chunk's boundary.
pub proof fn lemma_solid_visible_iff_boundary(g: Seq<Voxel>, x: int, y: int, z: int, f: int)
    requires
        all_solid(g),
        in_grid(x, y, z),
        0 <= f < 6,
    ensures
        face_visible(g, x, y, z, f) <==> on_boundary(x, y, z, f),
{
    lemma_voxel_index_bounds(x, y, z);
    if f == 0 && x < 31 {
        lemma_voxel_index_bounds(x + 1, y, z);
    } else if f == 1 && x > 0 {
        lemma_voxel_index_bounds(x - 1, y, z);
    } else if f == 2 && y < 31 {
        lemma_voxel_index_bounds(x, y + 1, z);
    } else if f == 3 && y > 0 {
        lemma_voxel_index_bounds(x, y - 1, z);
    } else if f == 4 && z < 31 {
        lemma_voxel_index_bounds(x, y, z + 1);
    } else if f == 5 && z > 0 {
        lemma_voxel_index_bounds(x, y, z - 1);
    }
}

proof fn lemma_solid_voxel_len(g: Seq<Voxel>, x: int, y: int, z: int)
    requires
        all_solid(g),
        in_grid(x, y, z),
    ensures
        voxel_quads(g, x, y, z).len() == 6 * (ends(x) + ends(y) + ends(z)),
{
    lemma_solid_visible_iff_boundary(g, x, y, z, 0);
    lemma_solid_visible_iff_boundary(g, x, y, z, 1);
    lemma_solid_visible_iff_boundary(g, x, y, z, 2);
    lemma_solid_visible_iff_boundary(g, x, y, z, 3);
    lemma_solid_visible_iff_boundary(g, x, y, z, 4);
    lemma_solid_visible_iff_boundary(g, x, y, z, 5);
    reveal_with_fuel(faces_prefix, 7);
}

proof fn lemma_solid_row_len(g: Seq<Voxel>, y: int, z: int, n: int)
    requires
        all_solid(g),
        0 <= y < 32,
        0 <= z < 32,
        0 <= n <= 32,
    ensures
        row_prefix(g, y, z, n).len() == 6 * (ind(n > 0) + ind(n >= 32) + n * (ends(y) + ends(z))),
    decreases n,
{
    if n > 0 {
        lemma_solid_row_len(g, y, z, n - 1);
        lemma_solid_voxel_len(g, n - 1, y, z);
        let c = ends(y) + ends(z);
        assert((n - 1) * c + c == n * c) by (nonlinear_arith);
    }
}

proof fn lemma_solid_layer_len(g: Seq<Voxel>, z: int, n: int)
    requires
        all_solid(g),
        0 <= z < 32,
        0 <= n <= 32,
    ensures
        layer_prefix(g, z, n).len() == 6 * (2 * n + 32 * (ind(n > 0) + ind(n >= 32)) + 32 * n * ends(
            z,
        )),
    decreases n,
{
    if n > 0 {
        lemma_solid_layer_len(g, z, n - 1);
        lemma_solid_row_len(g, n - 1, z, 32);
        let c = ends(z);
        let prev = layer_prefix(g, z, n - 1).len() as int;
        let row = row_prefix(g, n - 1, z, 32).len() as int;
        let total = layer_prefix(g, z, n).len() as int;
        let e = ends(n - 1);
        let a = ind(n - 1 > 0) + ind(n - 1 >= 32);
        let b = ind(n > 0) + ind(n >= 32);
        assert(total == prev + row);
        assert(a + e == b);
        assert(row == 6 * (2 + 32 * (e + c)));
        assert(total == 6 * (2 * n + 32 * b + 32 * n * c)) by (nonlinear_arith)
            requires
                total == prev + row,
                prev == 6 * (2 * (n - 1) + 32 * a + 32 * (n - 1) * c),
                row == 6 * (2 + 32 * (e + c)),
                a + e == b,
        ;
    } else {
        assert(32 * n * ends(z) == 0) by (nonlinear_arith)
            requires
                n == 0,
        ;
        assert(layer_prefix(g, z, n).len() == 0);
    }
}

proof fn lemma_solid_grid_len(g: Seq<Voxel>, n: int)
    requires
        all_solid(g),
        0 <= n <= 32,
    ensures
        grid_prefix(g, n).len() == 6 * (128 * n + 1024 * (ind(n > 0) + ind(n >= 32))),
    decreases n,
{
    if n > 0 {
        lemma_solid_grid_len(g, n - 1);
        lemma_solid_layer_len(g, n - 1, 32);
    }
}

/// A chunk of solid voxels draws only the faces on its boundary: 32 x 32 quads on each
/// of its six sides, `6 * 32 * 32 * 6` vertices.
pub proof fn lemma_solid_chunk_mesh(g: Seq<Voxel>)
    requires
        all_solid(g),
    ensures
        forall|x: int, y: int, z: int, f: int|
            in_grid(x, y, z) && 0 <= f < 6 ==> (face_visible(g, x, y, z, f) <==> on_boundary(
                x,
                y,
                z,
                f,
            )),
        chunk_mesh(g).len() == 6 * 32 * 32 * 6,
{
    assert forall|x: int, y: int, z: int, f: int|
        in_grid(x, y, z) && 0 <= f < 6 implies (face_visible(g, x, y, z, f) <==> on_boundary(
        x,
        y,
        z,
        f,
    )) by {
        lemma_solid_visible_iff_boundary(g, x, y, z, f);
    }
    lemma_solid_grid_len(g, 32);
}

} // verus!
