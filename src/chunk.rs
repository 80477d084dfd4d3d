use vstd::prelude::*;

use crate::math::{clamp_components, clamp_spec, is_in_range, UVec3};
use crate::mesh::{Vertex, VoxelMesh};
use crate::mesher::{chunk_mesh, data_mesher};

verus! {

/// Voxels along each axis of a chunk.
pub const CHUNK_SIZE: usize = 32;

/// Voxels in a chunk.
pub const CHUNK_VOLUME: usize = 32768;

/// A material identifier; `AIR_VOXEL` marks an empty cell.
pub type Voxel = u32;

/// The empty voxel.
pub const AIR_VOXEL: Voxel = 0;

/// Position of the voxel `(x, y, z)` in a chunk's flat storage.
pub open spec fn voxel_index(x: int, y: int, z: int) -> int {
    (x * 32 + y) * 32 + z
}

/// Every component of `c` addresses a voxel inside a chunk.
pub open spec fn in_chunk(c: UVec3) -> bool {
    c.x < 32 && c.y < 32 && c.z < 32
}

/// `c` with each component clamped to the last voxel of the chunk.
pub open spec fn clamp_to_chunk(c: UVec3) -> UVec3 {
    UVec3 {
        x: clamp_spec(c.x as int, 0, 31) as u32,
        y: clamp_spec(c.y as int, 0, 31) as u32,
        z: clamp_spec(c.z as int, 0, 31) as u32,
    }
}

/// Flat storage position of an in-chunk coordinate.
pub open spec fn coords_index(c: UVec3) -> int {
    voxel_index(c.x as int, c.y as int, c.z as int)
}

/// Number of non-air voxels in `s`.
pub open spec fn count_solid(s: Seq<Voxel>) -> nat
    decreases s.len(),
{
    if s.len() == 0 {
        0
    } else {
        count_solid(s.drop_last()) + if s.last() != AIR_VOXEL {
            1nat
        } else {
            0nat
        }
    }
}

/// A chunk whose every voxel is `v`.
pub open spec fn uniform_grid(v: Voxel) -> Seq<Voxel> {
    Seq::new(CHUNK_VOLUME as nat, |_i: int| v)
}

proof fn lemma_count_solid_bound(s: Seq<Voxel>)
    ensures
        count_solid(s) <= s.len(),
    decreases s.len(),
{
    if s.len() > 0 {
        lemma_count_solid_bound(s.drop_last());
    }
}

proof fn lemma_count_solid_update(s: Seq<Voxel>, i: int, v: Voxel)
    requires
        0 <= i < s.len(),
    ensures
        count_solid(s.update(i, v)) + (if s[i] != AIR_VOXEL { 1int } else { 0int }) == count_solid(s)
            + (if v != AIR_VOXEL { 1int } else { 0int }),
    decreases s.len(),
{
    let t = s.update(i, v);
    if i == s.len() - 1 {
        assert(t.drop_last() =~= s.drop_last());
    } else {
        assert(t.drop_last() =~= s.drop_last().update(i, v));
        lemma_count_solid_update(s.drop_last(), i, v);
    }
}

proof fn lemma_count_solid_uniform(n: nat, v: Voxel)
    ensures
        count_solid(Seq::new(n, |_i: int| v)) == if v != AIR_VOXEL { n } else { 0 },
    decreases n,
{
    if n > 0 {
        assert(Seq::new(n, |_i: int| v).drop_last() =~= Seq::new((n - 1) as nat, |_i: int| v));
        lemma_count_solid_uniform((n - 1) as nat, v);
    }
}

/// Whether every component of `c` addresses a voxel inside a chunk.
pub fn chunk_coords_in_range(c: UVec3) -> (r: bool)
    ensures
        r == in_chunk(c),
{
    is_in_range(c.x, 0, 31) && is_in_range(c.y, 0, 31) && is_in_range(c.z, 0, 31)
}

/// Flat storage position of an in-chunk coordinate.
fn index_of(c: UVec3) -> (r: usize)
    requires
        in_chunk(c),
    ensures
        r == coords_index(c),
        r < CHUNK_VOLUME,
{
    ((c.x as usize * 32 + c.y as usize) * 32 + c.z as usize)
}

/// A cubic block of 32 x 32 x 32 voxels, the count of its non-air voxels, whether its
/// mesh is stale, and that mesh.
#[derive(Debug, Clone)]
pub struct Chunk {
    num_used: usize,
    is_dirty: bool,
    blocks: Vec<Voxel>,
    mesh: VoxelMesh,
}

impl Chunk {
    /// The voxels in flat order: `(x, y, z)` lies at `voxel_index(x, y, z)`.
    pub closed spec fn view(&self) -> Seq<Voxel> {
        self.blocks@
    }

    /// The count of non-air voxels the chunk keeps.
    pub closed spec fn spec_num_used(&self) -> nat {
        self.num_used as nat
    }

    /// Whether the mesh no longer reflects the voxels.
    pub closed spec fn spec_dirty(&self) -> bool {
        self.is_dirty
    }

    /// The chunk's mesh.
    pub closed spec fn spec_mesh(&self) -> VoxelMesh {
        self.mesh
    }

    /// The storage holds a full chunk, the count matches it, and the mesh is sound.
    pub open spec fn wf(&self) -> bool {
        &&& self@.len() == CHUNK_VOLUME
        &&& self.spec_num_used() == count_solid(self@)
        &&& self.spec_mesh().wf()
    }

    /// The voxel at `(x, y, z)`.
    pub open spec fn voxel(&self, x: int, y: int, z: int) -> Voxel {
        self@[voxel_index(x, y, z)]
    }

    /// A chunk as `new` makes it: all air, clean, with an empty mesh.
    pub open spec fn is_fresh(&self) -> bool {
        &&& self.wf()
        &&& self@ == uniform_grid(AIR_VOXEL)
        &&& self.spec_num_used() == 0
        &&& !self.spec_dirty()
        &&& self.spec_mesh()@ == Seq::<Vertex>::empty()
    }

    /// An all-air chunk. It is clean: with no solid voxel there is nothing to mesh.
    pub fn new() -> (r: Chunk)
        ensures
            r.is_fresh(),
    {
        let r = Chunk::with_background(AIR_VOXEL);
        r
    }

    /// A chunk filled with `background`. It is dirty unless `background` is air,
    /// since its empty mesh then does not show its voxels.
    pub fn with_background(background: Voxel) -> (r: Chunk)
        ensures
            r.wf(),
            r@ == uniform_grid(background),
            r.spec_num_used() == if background != AIR_VOXEL { CHUNK_VOLUME as nat } else { 0 },
            r.spec_dirty() == (background != AIR_VOXEL),
            r.spec_mesh()@ == Seq::<Vertex>::empty(),
    {
        let mut blocks: Vec<Voxel> = Vec::new();
        let mut i: usize = 0;
        while i < CHUNK_VOLUME
            invariant
                i <= CHUNK_VOLUME,
                blocks@ == Seq::new(i as nat, |_j: int| background),
            decreases CHUNK_VOLUME - i,
        {
            blocks.push(background);
            i = i + 1;
            assert(blocks@ =~= Seq::new(i as nat, |_j: int| background));
        }
        proof {
            lemma_count_solid_uniform(CHUNK_VOLUME as nat, background);
        }
        let num_used: usize = if background != AIR_VOXEL { CHUNK_VOLUME } else { 0 };
        Chunk { num_used, is_dirty: background != AIR_VOXEL, blocks, mesh: VoxelMesh::new() }
    }

    /// The number of non-air voxels.
    pub fn num_used(&self) -> (r: usize)
        requires
            self.wf(),
        ensures
            r == count_solid(self@),
    {
        self.num_used
    }

    /// Whether the mesh no longer reflects the voxels.
    pub fn is_dirty(&self) -> (r: bool)
        ensures
            r == self.spec_dirty(),
    {
        self.is_dirty
    }

    /// The mesh built by the last `remesh` (empty before the first).
    pub fn mesh(&self) -> (r: &VoxelMesh)
        ensures
            *r == self.spec_mesh(),
    {
        &self.mesh
    }

    /// The voxel at `coords`, which must lie inside the chunk (the unchecked mode).
    pub fn get_unchecked(&self, coords: UVec3) -> (r: Voxel)
        requires
            self.wf(),
            in_chunk(coords),
        ensures
            r == self@[coords_index(coords)],
    {
        self.blocks[index_of(coords)]
    }

    /// The voxel at `coords`, each component clamped to `31` first (the checked mode).
    pub fn get(&self, coords: UVec3) -> (r: Voxel)
        requires
            self.wf(),
        ensures
            r == self@[coords_index(clamp_to_chunk(coords))],
    {
        let c = clamp_components(coords, UVec3 { x: 0, y: 0, z: 0 }, UVec3 { x: 31, y: 31, z: 31 });
        self.get_unchecked(c)
    }

    /// Stores `value` at `coords`, which must lie inside the chunk (the unchecked mode).
    /// The count follows the change, and the chunk becomes dirty if the voxel changed.
    pub fn set_unchecked(&mut self, coords: UVec3, value: Voxel)
        requires
            old(self).wf(),
            in_chunk(coords),
        ensures
            final(self).wf(),
            final(self)@ == old(self)@.update(coords_index(coords), value),
            final(self).spec_dirty() == (old(self).spec_dirty() || old(self)@[coords_index(coords)]
                != value),
            final(self).spec_mesh() == old(self).spec_mesh(),
    {
        let i = index_of(coords);
        let prev = self.blocks[i];
        proof {
            lemma_count_solid_update(self.blocks@, i as int, value);
            lemma_count_solid_bound(self.blocks@.update(i as int, value));
        }
        if prev != AIR_VOXEL && value == AIR_VOXEL {
            self.num_used = self.num_used - 1;
        } else if prev == AIR_VOXEL && value != AIR_VOXEL {
            self.num_used = self.num_used + 1;
        }
        if prev != value {
            self.is_dirty = true;
        }
        self.blocks.set(i, value);
    }

    /// Stores `value` at `coords`, each component clamped to `31` first (the checked mode).
    pub fn set(&mut self, coords: UVec3, value: Voxel)
        requires
            old(self).wf(),
        ensures
            final(self).wf(),
            final(self)@ == old(self)@.update(coords_index(clamp_to_chunk(coords)), value),
            final(self).spec_dirty() == (old(self).spec_dirty() || old(self)@[coords_index(
                clamp_to_chunk(coords),
            )] != value),
            final(self).spec_mesh() == old(self).spec_mesh(),
    {
        let c = clamp_components(coords, UVec3 { x: 0, y: 0, z: 0 }, UVec3 { x: 31, y: 31, z: 31 });
        self.set_unchecked(c, value);
    }

    /// Rebuilds the mesh from the voxels and marks the chunk clean.
    pub fn remesh(&mut self)
        requires
            old(self).wf(),
        ensures
            final(self).wf(),
            final(self)@ == old(self)@,
            final(self).spec_mesh()@ == chunk_mesh(old(self)@),
            final(self).spec_mesh().spec_dirty(),
            !final(self).spec_dirty(),
    {
        let mut mesh = VoxelMesh::new();
        std::mem::swap(&mut mesh, &mut self.mesh);
        mesh.clear();
        data_mesher(self, &mut mesh);
        self.mesh = mesh;
        self.is_dirty = false;
    }

    /// Records that the renderer copied the current mesh.
    pub fn mark_mesh_uploaded(&mut self)
        requires
            old(self).wf(),
        ensures
            final(self).wf(),
            final(self)@ == old(self)@,
            final(self).spec_dirty() == old(self).spec_dirty(),
            final(self).spec_mesh()@ == old(self).spec_mesh()@,
            !final(self).spec_mesh().spec_dirty(),
    {
        self.mesh.mark_uploaded();
    }

    /// Brings the mesh storage down to exactly what it holds. Meant for chunks that
    /// rarely change: the next growth reallocates.
    pub fn trim_storage(&mut self)
        requires
            old(self).wf(),
        ensures
            final(self).wf(),
            final(self)@ == old(self)@,
            final(self).spec_dirty() == old(self).spec_dirty(),
            final(self).spec_mesh()@ == old(self).spec_mesh()@,
            final(self).spec_mesh().spec_dirty() == old(self).spec_mesh().spec_dirty(),
    {
        self.mesh.shrink_to_fit();
    }
}

} // verus!
