use vstd::prelude::*;

use crate::chunk::Voxel;

verus! {

/// A vertex position in chunk-local units of 1/64 of the chunk's edge, so that the
/// chunk spans `0..=64` on each axis and every voxel cell is two units wide.
#[derive(Debug, Clone, Copy, PartialEq, Eq, Structural)]
pub struct VertPos {
    pub x: u32,
    pub y: u32,
    pub z: u32,
}

/// The voxel identifier carried by a vertex, used to pick its material.
#[derive(Debug, Clone, Copy, PartialEq, Eq, Structural)]
pub struct VertData {
    pub data: Voxel,
}

impl From<Voxel> for VertData {
    fn from(data: Voxel) -> (r: VertData)
        ensures
            r == (VertData { data }),
    {
        VertData { data }
    }
}

impl vstd::std_specs::convert::FromSpecImpl<Voxel> for VertData {
    open spec fn obeys_from_spec() -> bool {
        true
    }

    open spec fn from_spec(data: Voxel) -> VertData {
        VertData { data }
    }
}

/// One vertex as handed to the renderer: its position and its voxel tag.
pub type Vertex = (VertPos, VertData);

/// Releases the spare capacity of a vector.
/// Relies on `Vec::shrink_to_fit`, which leaves the elements as they are.
#[verifier::external_body]
fn shrink_vec<T>(v: &mut Vec<T>)
    ensures
        final(v)@ == old(v)@,
{
    v.shrink_to_fit();
}

/// Geometry produced for a chunk: two parallel vertex streams (positions and voxel
/// tags) and a flag telling whether the renderer's copy of them is stale.
#[derive(Debug, Clone)]
pub struct VoxelMesh {
    dirty: bool,
    positions: Vec<VertPos>,
    voxels: Vec<VertData>,
}

impl VoxelMesh {
    /// The two streams have the same length.
    pub closed spec fn wf(&self) -> bool {
        self.positions.len() == self.voxels.len()
    }

    /// The vertices, position and tag side by side.
    pub closed spec fn view(&self) -> Seq<Vertex> {
        Seq::new(self.positions.len() as nat, |i: int| (self.positions@[i], self.voxels@[i]))
    }

    /// Whether the content changed since the renderer last copied it.
    pub closed spec fn spec_dirty(&self) -> bool {
        self.dirty
    }

    /// An empty mesh, marked dirty since nothing has been uploaded yet.
    pub fn new() -> (r: VoxelMesh)
        ensures
            r.wf(),
            r@ == Seq::<Vertex>::empty(),
            r.spec_dirty(),
    {
        let r = VoxelMesh { dirty: true, positions: Vec::new(), voxels: Vec::new() };
        assert(r@ =~= Seq::<Vertex>::empty());
        r
    }

    /// Whether the renderer must copy the streams again before using them.
    pub fn is_dirty(&self) -> (r: bool)
        ensures
            r == self.spec_dirty(),
    {
        self.dirty
    }

    /// Forces a re-upload without changing the content.
    pub fn mark_dirty(&mut self)
        ensures
            final(self)@ == old(self)@,
            final(self).wf() == old(self).wf(),
            final(self).spec_dirty(),
    {
        self.dirty = true;
    }

    /// Records that the renderer now holds a copy of the current content.
    pub fn mark_uploaded(&mut self)
        ensures
            final(self)@ == old(self)@,
            final(self).wf() == old(self).wf(),
            !final(self).spec_dirty(),
    {
        self.dirty = false;
    }

    /// Number of vertices.
    pub fn len(&self) -> (r: usize)
        requires
            self.wf(),
        ensures
            r == self@.len(),
    {
        self.positions.len()
    }

    /// The position stream.
    pub fn positions(&self) -> (r: &Vec<VertPos>)
        requires
            self.wf(),
        ensures
            r@.len() == self@.len(),
            forall|i: int| 0 <= i < r@.len() ==> r@[i] == #[trigger] self@[i].0,
    {
        &self.positions
    }

    /// The voxel-tag stream.
    pub fn voxels(&self) -> (r: &Vec<VertData>)
        requires
            self.wf(),
        ensures
            r@.len() == self@.len(),
            forall|i: int| 0 <= i < r@.len() ==> r@[i] == #[trigger] self@[i].1,
    {
        &self.voxels
    }

    /// Makes room for `n` more vertices in both streams; the content is unchanged.
    pub fn reserve(&mut self, n: usize)
        ensures
            final(self)@ == old(self)@,
            final(self).wf() == old(self).wf(),
            final(self).spec_dirty() == old(self).spec_dirty(),
    {
        self.positions.reserve(n);
        self.voxels.reserve(n);
    }

    /// Appends one vertex to both streams and marks the mesh dirty.
    pub fn push(&mut self, vert: Vertex)
        requires
            old(self).wf(),
        ensures
            final(self).wf(),
            final(self)@ == old(self)@.push(vert),
            final(self).spec_dirty(),
    {
        self.mark_dirty();
        let (pos, voxel) = vert;
        self.positions.push(pos);
        self.voxels.push(voxel);
        assert(self@ =~= old(self)@.push(vert));
    }

    /// Removes every vertex and marks the mesh dirty; the storage is kept for reuse.
    pub fn clear(&mut self)
        ensures
            final(self).wf(),
            final(self)@ == Seq::<Vertex>::empty(),
            final(self).spec_dirty(),
    {
        self.dirty = true;
        self.positions.clear();
        self.voxels.clear();
        assert(self@ =~= Seq::<Vertex>::empty());
    }

    /// Releases the spare capacity of both streams; the content is unchanged.
    pub fn shrink_to_fit(&mut self)
        ensures
            final(self)@ == old(self)@,
            final(self).wf() == old(self).wf(),
            final(self).spec_dirty() == old(self).spec_dirty(),
    {
        shrink_vec(&mut self.positions);
        shrink_vec(&mut self.voxels);
        assert(self@ =~= old(self)@);
    }
}

} // verus!
