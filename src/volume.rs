use vstd::prelude::*;

use std::collections::BTreeMap;
use vstd::std_specs::btree::increasing_seq;
use vstd::laws_cmp::obeys_cmp;
use vstd::std_specs::cmp::OrdSpec;
use vstd::std_specs::iter::IteratorSpec;

use crate::chunk::{clamp_to_chunk, coords_index, Chunk, Voxel, AIR_VOXEL};
use crate::math::UVec3;

verus! {

/// How the renderer consumes a volume's meshes; storage is the same either way.
#[derive(Debug, Clone, Copy, PartialEq, Eq, Structural)]
pub enum DrawStyle {
    /// One draw per chunk mesh.
    ChunkByChunk,
    /// All chunk meshes merged into one draw.
    AllAtOnce,
}

/// Why chunk-grid coordinates could not be packed.
#[derive(Debug, Clone, Copy, PartialEq, Eq, Structural)]
pub enum CoordsError {
    /// A component does not fit in five bits (it is 32 or more).
    OutOfRange,
}

/// The key of `(x, y, z)`: five bits per axis, `x` highest.
pub open spec fn pack_key(x: int, y: int, z: int) -> int {
    x * 1024 + y * 32 + z
}

/// The three five-bit fields of a key, `x` first.
pub open spec fn unpack_key(k: int) -> (int, int, int) {
    ((k / 1024) % 32, (k / 32) % 32, k % 32)
}

/// Each component is a valid chunk-grid coordinate.
pub open spec fn coords_fit(x: int, y: int, z: int) -> bool {
    0 <= x < 32 && 0 <= y < 32 && 0 <= z < 32
}

/// `(ax, ay, az)` precedes `(bx, by, bz)` comparing `x`, then `y`, then `z`.
pub open spec fn lex_less(ax: int, ay: int, az: int, bx: int, by: int, bz: int) -> bool {
    ax < bx || (ax == bx && (ay < by || (ay == by && az < bz)))
}

/// `ks` lists every key of `d` exactly once, in increasing order.
pub open spec fn ascending_keys(ks: Seq<u16>, d: Set<u16>) -> bool {
    &&& forall|i: int, j: int| 0 <= i < j < ks.len() ==> ks[i] < ks[j]
    &&& forall|i: int| 0 <= i < ks.len() ==> d.contains(#[trigger] ks[i])
    &&& forall|k: u16| d.contains(k) ==> ks.contains(k)
}

/// Unpacking a packed key gives back the coordinates.
pub proof fn lemma_pack_round_trip(x: int, y: int, z: int)
    requires
        coords_fit(x, y, z),
    ensures
        unpack_key(pack_key(x, y, z)) == (x, y, z),
        0 <= pack_key(x, y, z) < 32768,
{
    assert(unpack_key(pack_key(x, y, z)) == (x, y, z)) by (nonlinear_arith)
        requires
            coords_fit(x, y, z),
    ;
}

/// Keys order chunk coordinates by `x`, then `y`, then `z`.
pub proof fn lemma_pack_order(ax: int, ay: int, az: int, bx: int, by: int, bz: int)
    requires
        coords_fit(ax, ay, az),
        coords_fit(bx, by, bz),
    ensures
        pack_key(ax, ay, az) < pack_key(bx, by, bz) <==> lex_less(ax, ay, az, bx, by, bz),
{
}

/// Chunk-grid coordinates packed into one integer key: `(x << 10) | (y << 5) | z`, each
/// component below 32. Keys compare as integers, which orders chunks by `x`, then `y`,
/// then `z`.
#[derive(Debug, Clone, Copy, PartialEq, Eq, Structural)]
pub struct PackedChunkCoords(u16);

impl PackedChunkCoords {
    /// The packed integer.
    pub closed spec fn spec_key(self) -> u16 {
        self.0
    }

    /// Packs `(x, y, z)`; fails with `OutOfRange` when a component is 32 or more.
    pub fn pack(x: u8, y: u8, z: u8) -> (r: Result<PackedChunkCoords, CoordsError>)
        ensures
            coords_fit(x as int, y as int, z as int) <==> r is Ok,
            r matches Ok(p) ==> p.spec_key() as int == pack_key(x as int, y as int, z as int),
            r matches Err(e) ==> e == CoordsError::OutOfRange,
    {
        if x >= 32 || y >= 32 || z >= 32 {
            return Err(CoordsError::OutOfRange);
        }
        let (a, b, c) = (x as u16, y as u16, z as u16);
        let k: u16 = (a << 10u16) | (b << 5u16) | c;
        assert(k == a * 1024 + b * 32 + c) by (bit_vector)
            requires
                a < 32 && b < 32 && c < 32,
                k == (a << 10u16) | (b << 5u16) | c,
        ;
        Ok(PackedChunkCoords(k))
    }

    /// The packed integer.
    pub fn key(&self) -> (r: u16)
        ensures
            r == self.spec_key(),
    {
        self.0
    }

    /// The coordinates `(x, y, z)` held in the key.
    pub fn unpack(&self) -> (r: (u8, u8, u8))
        ensures
            (r.0 as int, r.1 as int, r.2 as int) == unpack_key(self.spec_key() as int),
    {
        let k = self.0;
        let x = (k >> 10u16) & 0x1Fu16;
        let y = (k >> 5u16) & 0x1Fu16;
        let z = k & 0x1Fu16;
        assert(x == (k / 1024) % 32 && y == (k / 32) % 32 && z == k % 32) by (bit_vector)
            requires
                x == (k >> 10u16) & 0x1Fu16,
                y == (k >> 5u16) & 0x1Fu16,
                z == k & 0x1Fu16,
        ;
        (x as u8, y as u8, z as u8)
    }
}

/// Unpacking what `pack` accepted gives back its arguments.
pub proof fn lemma_unpack_inverts_pack(x: u8, y: u8, z: u8, p: PackedChunkCoords)
    requires
        coords_fit(x as int, y as int, z as int),
        p.spec_key() as int == pack_key(x as int, y as int, z as int),
    ensures
        unpack_key(p.spec_key() as int) == (x as int, y as int, z as int),
{
    lemma_pack_round_trip(x as int, y as int, z as int);
}

/// Relies on `BTreeMap::get_mut`: when `k` is present, a reference to its value, and the
/// map then holds under `k` whatever that value ends up being; otherwise `None`, the map
/// unchanged.
#[verifier::external_body]
fn map_get_mut<'a>(m: &'a mut BTreeMap<u16, Chunk>, k: u16) -> (r: Option<&'a mut Chunk>)
    ensures
        r is Some ==> {
            &&& old(m)@.contains_key(k)
            &&& *(r->0) == old(m)@[k]
            &&& final(m)@ == old(m)@.insert(k, *final(r->0))
        },
        r is None ==> !old(m)@.contains_key(k) && final(m)@ == old(m)@,
{
    m.get_mut(&k)
}

/// `after` is `before` once `add_chunk(k)` ran: a fresh chunk under `k` if there was
/// none, nothing changed otherwise.
pub open spec fn add_chunk_post(before: Volume, after: Volume, k: u16) -> bool {
    &&& after.spec_style() == before.spec_style()
    &&& before.chunk_map().contains_key(k) ==> after.chunk_map() == before.chunk_map()
    &&& !before.chunk_map().contains_key(k) ==> {
        &&& after.chunk_map() == before.chunk_map().insert(k, after.chunk_map()[k])
        &&& after.chunk_map()[k].is_fresh()
    }
}

/// Adding a chunk a second time changes nothing, so a chunk's content survives
/// any number of further `add_chunk` calls at its key.
pub proof fn lemma_add_chunk_idempotent(v0: Volume, v1: Volume, v2: Volume, k: u16)
    requires
        add_chunk_post(v0, v1, k),
        add_chunk_post(v1, v2, k),
    ensures
        v2.chunk_map() == v1.chunk_map(),
        v2.chunk_map().contains_key(k),
        v0.chunk_map().contains_key(k) ==> v2.chunk_map()[k] == v0.chunk_map()[k],
{
    assert(v1.chunk_map().contains_key(k));
}

/// A sparse world: chunks keyed by their packed coordinates, at most one per key,
/// and the style in which they are drawn.
#[derive(Debug, Clone)]
pub struct Volume {
    style: DrawStyle,
    chunks: BTreeMap<u16, Chunk>,
}

impl Volume {
    /// The chunks by packed key.
    pub closed spec fn chunk_map(&self) -> Map<u16, Chunk> {
        self.chunks@
    }

    /// The draw style.
    pub closed spec fn spec_style(&self) -> DrawStyle {
        self.style
    }

    /// Every chunk is well formed.
    pub open spec fn wf(&self) -> bool {
        forall|k: u16| #[trigger] self.chunk_map().contains_key(k) ==> self.chunk_map()[k].wf()
    }

    /// An empty volume drawn in `style`.
    pub fn new(style: DrawStyle) -> (r: Volume)
        ensures
            r.wf(),
            r.chunk_map() == Map::<u16, Chunk>::empty(),
            r.spec_style() == style,
    {
        Volume { style, chunks: BTreeMap::new() }
    }

    /// The draw style.
    pub fn style(&self) -> (r: DrawStyle)
        ensures
            r == self.spec_style(),
    {
        self.style
    }

    /// The voxel at `coords` in the chunk at `which_chunk` (coordinates clamped to the
    /// chunk as `Chunk::get` does); air when there is no chunk there.
    pub fn get_vox(&self, which_chunk: PackedChunkCoords, coords: UVec3) -> (r: Voxel)
        requires
            self.wf(),
        ensures
            r == if self.chunk_map().contains_key(which_chunk.spec_key()) {
                self.chunk_map()[which_chunk.spec_key()]@[coords_index(clamp_to_chunk(coords))]
            } else {
                AIR_VOXEL
            },
    {
        match self.chunks.get(&which_chunk.0) {
            Some(chunk) => {
                assert(self.chunk_map().contains_key(which_chunk.0));
                chunk.get(coords)
            },
            None => AIR_VOXEL,
        }
    }
}

impl Volume {
    /// Adds an empty chunk at `coords` unless one is there already, which is kept as it is.
    pub fn add_chunk(&mut self, coords: PackedChunkCoords)
        requires
            old(self).wf(),
        ensures
            final(self).wf(),
            add_chunk_post(*old(self), *final(self), coords.spec_key()),
    {
        if !self.chunks.contains_key(&coords.0) {
            let fresh = Chunk::new();
            self.chunks.insert(coords.0, fresh);
            assert(self.chunk_map() == old(self).chunk_map().insert(coords.0, fresh));
            assert(self.chunk_map()[coords.0] == fresh);
            assert forall|k: u16| #[trigger] self.chunk_map().contains_key(k) implies self.chunk_map()[k].wf() by {
                if k != coords.0 {
                    assert(old(self).chunk_map().contains_key(k));
                }
            }
        }
    }

    /// The chunk at `coords`, if there is one.
    pub fn chunk(&self, coords: PackedChunkCoords) -> (r: Option<&Chunk>)
        ensures
            r is Some <==> self.chunk_map().contains_key(coords.spec_key()),
            r matches Some(c) ==> *c == self.chunk_map()[coords.spec_key()],
    {
        self.chunks.get(&coords.0)
    }

    /// The chunk at `coords` for changing in place, if there is one.
    pub fn chunk_mut(&mut self, coords: PackedChunkCoords) -> (r: Option<&mut Chunk>)
        ensures
            final(self).spec_style() == old(self).spec_style(),
            r is Some ==> {
                &&& old(self).chunk_map().contains_key(coords.spec_key())
                &&& *(r->0) == old(self).chunk_map()[coords.spec_key()]
                &&& final(self).chunk_map() == old(self).chunk_map().insert(
                    coords.spec_key(),
                    *final(r->0),
                )
            },
            r is None ==> {
                &&& !old(self).chunk_map().contains_key(coords.spec_key())
                &&& final(self).chunk_map() == old(self).chunk_map()
            },
    {
        map_get_mut(&mut self.chunks, coords.0)
    }

    /// The packed coordinates of every chunk, in increasing key order.
    pub fn chunk_coords(&self) -> (r: Vec<PackedChunkCoords>)
        ensures
            ascending_keys(r@.map_values(|c: PackedChunkCoords| c.spec_key()), self.chunk_map().dom()),
    {
        let mut r: Vec<PackedChunkCoords> = Vec::new();
        let ghost entries = self.chunks.iter().remaining();
        for kv in it: self.chunks.iter()
            invariant
                it.seq() == entries,
                r@.len() == it.index(),
                forall|i: int| 0 <= i < it.index() ==> r@[i].0 == *it.seq()[i].0,
        {
            r.push(PackedChunkCoords(*kv.0));
        }
        proof {
            self.lemma_entries_ascending();
            assert(r@.map_values(|c: PackedChunkCoords| c.spec_key()) =~= entries.map_values(
                |kv: (&u16, &Chunk)| *kv.0,
            ));
        }
        r
    }

    /// Every chunk, in increasing key order.
    pub fn chunks(&self) -> (r: Vec<&Chunk>)
        ensures
            exists|ks: Seq<u16>|
                {
                    &&& ascending_keys(ks, self.chunk_map().dom())
                    &&& ks.len() == r@.len()
                    &&& forall|i: int| 0 <= i < ks.len() ==> *r@[i] == self.chunk_map()[#[trigger] ks[i]]
                },
    {
        let mut r: Vec<&Chunk> = Vec::new();
        let ghost entries = self.chunks.iter().remaining();
        for kv in it: self.chunks.iter()
            invariant
                it.seq() == entries,
                r@.len() == it.index(),
                forall|i: int| 0 <= i < it.index() ==> *r@[i] == *it.seq()[i].1,
        {
            r.push(kv.1);
        }
        proof {
            self.lemma_entries_ascending();
            let ks = entries.map_values(|kv: (&u16, &Chunk)| *kv.0);
            assert forall|i: int| 0 <= i < ks.len() implies *r@[i] == self.chunk_map()[#[trigger] ks[i]] by {
                assert(self.chunk_map().contains_key(*entries[i].0));
            }
        }
        r
    }

    /// The map's entries, in iteration order, list its keys ascending.
    proof fn lemma_entries_ascending(&self)
        requires
            increasing_seq(self.chunks.iter().remaining().map_values(|kv: (&u16, &Chunk)| *kv.0)),
        ensures
            ascending_keys(
                self.chunks.iter().remaining().map_values(|kv: (&u16, &Chunk)| *kv.0),
                self.chunk_map().dom(),
            ),
            forall|i: int| 0 <= i < self.chunks.iter().remaining().len() ==> {
                &&& self.chunk_map().contains_key(*(#[trigger] self.chunks.iter().remaining()[i]).0)
                &&& self.chunk_map()[*self.chunks.iter().remaining()[i].0] == *self.chunks.iter().remaining()[i].1
            },
    {
        let entries = self.chunks.iter().remaining();
        let ks = entries.map_values(|kv: (&u16, &Chunk)| *kv.0);
        let m = self.chunk_map();
        assert(obeys_cmp::<u16>());
        assert forall|i: int, j: int| 0 <= i < j < ks.len() implies ks[i] < ks[j] by {
            assert(ks[i].cmp_spec(&ks[j]) is Less);
        }
        assert(forall|i: int| 0 <= i < ks.len() ==> m.dom().contains(#[trigger] ks[i]));
        assert forall|k: u16| m.dom().contains(k) implies ks.contains(k) by {
            assert(m.contains_key(k));
            assert(entries.contains((&k, &m[k])));
            let idx = choose|idx: int| 0 <= idx < entries.len() && entries[idx] == (&k, &m[k]);
            assert(ks[idx] == k);
        }
    }
}

} // verus!
