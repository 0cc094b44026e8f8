//! The world manager: the loaded chunks by chunk coordinate, streaming
//! around an observer, and voxel edits with per-chunk dirty batching.
use vstd::prelude::*;

use crate::block::Voxel;
use crate::chunk::{chunk_wf, lin, Chunk};
use crate::coords::{resolve, IVec3, WorldPosition};
use crate::mesher::{build_mesh, generate_mesh, is_mesh_of, quads_of, MeshData};

verus! {

/// Chebyshev radius, in chunks, of the square of chunks kept loaded around
/// the observer.
pub const RENDER_DISTANCE: u32 = 0;

/// Tags the renderable object that stands for the chunk at `location`.
#[derive(Debug, Clone, Copy, PartialEq, Eq, Structural)]
pub struct ChunkMarker {
    pub location: IVec3,
}

/// A chunk coordinate lies in the square of Chebyshev radius `r` around
/// `center`, in the single layer of chunks at height zero.
pub open spec fn in_range(center: IVec3, r: int, k: IVec3) -> bool {
    &&& k.y == 0
    &&& center.x - r <= k.x <= center.x + r
    &&& center.z - r <= k.z <= center.z + r
}

/// All chunk coordinates in range of `center`.
pub open spec fn square(center: IVec3, r: int) -> Set<IVec3> {
    Set::new(|k: IVec3| in_range(center, r, k))
}

/// `f` can be called on every chunk coordinate and always returns a well
/// formed chunk.
pub open spec fn generates_chunks<F: Fn(IVec3) -> Chunk>(f: F) -> bool {
    &&& forall|p: IVec3| #[trigger] f.requires((p,))
    &&& forall|p: IVec3, c: Chunk| #[trigger] f.ensures((p,), c) ==> c.wf()
}

/// `s` is the contents of a chunk that `f` may return for coordinate `p`.
pub open spec fn generated<F: Fn(IVec3) -> Chunk>(f: F, p: IVec3, s: Seq<Voxel>) -> bool {
    exists|c: Chunk| #[trigger] f.ensures((p,), c) && c@ == s
}

/// Chunks loaded and unloaded by one streaming tick.
pub struct StreamDelta {
    pub loaded: Vec<IVec3>,
    pub unloaded: Vec<IVec3>,
}

/// A request to empty the voxel at a world position.
#[derive(Debug, Clone, Copy, PartialEq, Eq, Structural)]
pub struct BlockBreakEvent {
    pub position: IVec3,
}

/// A request to put `species` into the voxel at a world position.
#[derive(Debug, Clone, Copy, PartialEq, Eq, Structural)]
pub struct BlockPlaceEvent {
    pub position: IVec3,
    pub species: Voxel,
}

/// One voxel edit.
#[derive(Debug, Clone, Copy, PartialEq, Eq, Structural)]
pub enum Edit {
    Break(IVec3),
    Place(IVec3, Voxel),
}

/// Why an edit was dropped.
#[derive(Debug, Clone, Copy, PartialEq, Eq, Structural)]
pub enum EditError {
    /// The edit falls in the chunk at this coordinate, which is not loaded.
    ChunkNotLoaded(IVec3),
    /// The edit would place the unsupported voxel variant at this world position.
    Unsupported(IVec3),
}

/// What a batch of edits did: the distinct chunks whose contents changed,
/// and the edits that were dropped.
pub struct EditReport {
    pub dirty: Vec<IVec3>,
    pub failures: Vec<EditError>,
}

/// Flat index, inside its chunk, of the voxel at a resolved position.
pub open spec fn cell_index(wp: WorldPosition) -> int {
    lin(wp.location_in_chunk.x as int, wp.location_in_chunk.y as int, wp.location_in_chunk.z as int)
}

pub open spec fn edit_position(e: Edit) -> IVec3 {
    match e {
        Edit::Break(p) => p,
        Edit::Place(p, _) => p,
    }
}

/// What an edit does to the world `m`: `Ok(true)` when it changes a voxel,
/// `Ok(false)` when it is a no-op (breaking an empty voxel, placing into a
/// voxel that is not empty), or the reason it is dropped.
pub open spec fn edit_outcome(m: Map<IVec3, Seq<Voxel>>, e: Edit) -> Result<bool, EditError> {
    let wp = resolve(edit_position(e));
    let c = wp.chunk_location;
    match e {
        Edit::Place(p, v) if v is Semi => Err(EditError::Unsupported(p)),
        _ => if !m.contains_key(c) {
            Err(EditError::ChunkNotLoaded(c))
        } else {
            match e {
                Edit::Break(_) => Ok(!(m[c][cell_index(wp)] is Empty)),
                Edit::Place(_, _) => Ok(m[c][cell_index(wp)] is Empty),
            }
        },
    }
}

/// The voxel an edit leaves behind when it applies.
pub open spec fn edit_voxel(e: Edit) -> Voxel {
    match e {
        Edit::Break(_) => Voxel::Empty,
        Edit::Place(_, v) => v,
    }
}

/// The world after edit `e`.
pub open spec fn after_edit(m: Map<IVec3, Seq<Voxel>>, e: Edit) -> Map<IVec3, Seq<Voxel>> {
    let wp = resolve(edit_position(e));
    let c = wp.chunk_location;
    if edit_outcome(m, e) == Ok::<bool, EditError>(true) {
        m.insert(c, m[c].update(cell_index(wp), edit_voxel(e)))
    } else {
        m
    }
}

/// The world after the edits `es`, in order.
pub open spec fn after_edits(m: Map<IVec3, Seq<Voxel>>, es: Seq<Edit>) -> Map<IVec3, Seq<Voxel>>
    decreases es.len(),
{
    if es.len() == 0 {
        m
    } else {
        after_edit(after_edits(m, es.drop_last()), es.last())
    }
}

/// The chunks changed by the edits `es`.
pub open spec fn edits_dirty(m: Map<IVec3, Seq<Voxel>>, es: Seq<Edit>) -> Set<IVec3>
    decreases es.len(),
{
    if es.len() == 0 {
        Set::empty()
    } else {
        let prev = after_edits(m, es.drop_last());
        let e = es.last();
        if edit_outcome(prev, e) == Ok::<bool, EditError>(true) {
            edits_dirty(m, es.drop_last()).insert(resolve(edit_position(e)).chunk_location)
        } else {
            edits_dirty(m, es.drop_last())
        }
    }
}

/// The reasons for which edits of `es` were dropped, in order.
pub open spec fn edits_failures(m: Map<IVec3, Seq<Voxel>>, es: Seq<Edit>) -> Seq<EditError>
    decreases es.len(),
{
    if es.len() == 0 {
        seq![]
    } else {
        let prev = after_edits(m, es.drop_last());
        match edit_outcome(prev, es.last()) {
            Err(err) => edits_failures(m, es.drop_last()).push(err),
            Ok(_) => edits_failures(m, es.drop_last()),
        }
    }
}

/// The edits of a tick: all breaks, then all placements, each in order.
pub open spec fn tick_edits(breaks: Seq<BlockBreakEvent>, places: Seq<BlockPlaceEvent>) -> Seq<Edit> {
    breaks.map_values(|b: BlockBreakEvent| Edit::Break(b.position))
        + places.map_values(|p: BlockPlaceEvent| Edit::Place(p.position, p.species))
}

/// Breaking a voxel that is already empty, at any point of a batch, is a
/// no-op: the world, the dirty chunks and the dropped edits are those of the
/// batch without it.
pub proof fn lemma_break_empty_is_noop(m: Map<IVec3, Seq<Voxel>>, es: Seq<Edit>, pos: IVec3)
    requires
        after_edits(m, es).contains_key(resolve(pos).chunk_location),
        after_edits(m, es)[resolve(pos).chunk_location][cell_index(resolve(pos))] is Empty,
    ensures
        edit_outcome(after_edits(m, es), Edit::Break(pos)) == Ok::<bool, EditError>(false),
        after_edits(m, es.push(Edit::Break(pos))) == after_edits(m, es),
        edits_dirty(m, es.push(Edit::Break(pos))) == edits_dirty(m, es),
        edits_failures(m, es.push(Edit::Break(pos))) == edits_failures(m, es),
{
    assert(es.push(Edit::Break(pos)).drop_last() =~= es);
}

/// Placing into a voxel that is not empty, at any point of a batch, keeps
/// the voxel's species: the world and the dirty chunks are those of the
/// batch without it, and so are the dropped edits when the species placed
/// is a supported one.
pub proof fn lemma_place_on_solid_is_noop(m: Map<IVec3, Seq<Voxel>>, es: Seq<Edit>, pos: IVec3, v: Voxel)
    requires
        after_edits(m, es).contains_key(resolve(pos).chunk_location),
        !(after_edits(m, es)[resolve(pos).chunk_location][cell_index(resolve(pos))] is Empty),
    ensures
        after_edits(m, es.push(Edit::Place(pos, v))) == after_edits(m, es),
        edits_dirty(m, es.push(Edit::Place(pos, v))) == edits_dirty(m, es),
        !(v is Semi) ==> edit_outcome(after_edits(m, es), Edit::Place(pos, v)) == Ok::<bool, EditError>(false),
        !(v is Semi) ==> edits_failures(m, es.push(Edit::Place(pos, v))) == edits_failures(m, es),
{
    assert(es.push(Edit::Place(pos, v)).drop_last() =~= es);
}

/// The loaded chunks, each under its chunk coordinate.
pub struct WorldChunks {
    chunks: Vec<(IVec3, Chunk)>,
    loaded: Ghost<Map<IVec3, Seq<Voxel>>>,
}

impl View for WorldChunks {
    type V = Map<IVec3, Seq<Voxel>>;

    /// The contents of each loaded chunk, by chunk coordinate.
    closed spec fn view(&self) -> Map<IVec3, Seq<Voxel>> {
        self.loaded@
    }
}

impl WorldChunks {
    /// Keys are unique, every chunk is well formed, and the ghost map holds
    /// exactly the stored entries.
    pub closed spec fn wf(&self) -> bool {
        &&& forall|i: int, j: int|
            0 <= i < j < self.chunks.len() ==> self.chunks@[i].0 != self.chunks@[j].0
        &&& forall|i: int|
            0 <= i < self.chunks.len() ==> {
                let e = #[trigger] self.chunks@[i];
                &&& e.1.wf()
                &&& self.loaded@.contains_key(e.0)
                &&& self.loaded@[e.0] == e.1@
            }
        &&& forall|k: IVec3|
            #[trigger] self.loaded@.contains_key(k) ==> exists|i: int|
                0 <= i < self.chunks.len() && (#[trigger] self.chunks@[i]).0 == k
    }

    /// Every loaded chunk holds `CHUNK_VOLUME` cells, none of them of the
    /// unsupported variant.
    pub proof fn lemma_loaded_chunks_wf(&self)
        requires
            self.wf(),
        ensures
            forall|k: IVec3| #[trigger] self@.contains_key(k) ==> chunk_wf(self@[k]),
    {
        assert forall|k: IVec3| #[trigger] self@.contains_key(k) implies chunk_wf(self@[k]) by {
            let i = choose|i: int| 0 <= i < self.chunks.len() && (#[trigger] self.chunks@[i]).0 == k;
            assert(self.chunks@[i].1.wf());
        }
    }

    /// A world with nothing loaded.
    pub fn new() -> (w: WorldChunks)
        ensures
            w.wf(),
            w@ == Map::<IVec3, Seq<Voxel>>::empty(),
    {
        WorldChunks { chunks: Vec::new(), loaded: Ghost(Map::empty()) }
    }

    /// Number of loaded chunks.
    pub fn len(&self) -> (n: usize)
        requires
            self.wf(),
        ensures
            n == self@.len(),
    {
        proof {
            let ks = self.chunks@.map_values(|e: (IVec3, Chunk)| e.0);
            assert forall|k: IVec3| #[trigger] self@.dom().contains(k) <==> ks.to_set().contains(k) by {
                if self@.dom().contains(k) {
                    let i = choose|i: int| 0 <= i < self.chunks.len() && (#[trigger] self.chunks@[i]).0 == k;
                    assert(ks[i] == k);
                }
                if ks.to_set().contains(k) {
                    let i = choose|i: int| 0 <= i < ks.len() && ks[i] == k;
                    assert(self.chunks@[i].0 == k);
                }
            }
            assert(self@.dom() =~= ks.to_set());
            assert(ks.no_duplicates());
            ks.unique_seq_to_set();
        }
        self.chunks.len()
    }

    fn find(&self, pos: IVec3) -> (r: Option<usize>)
        requires
            self.wf(),
        ensures
            match r {
                Some(i) => i < self.chunks.len() && self.chunks@[i as int].0 == pos,
                None => !self@.contains_key(pos),
            },
    {
        let mut i: usize = 0;
        while i < self.chunks.len()
            invariant
                self.wf(),
                i <= self.chunks.len(),
                forall|j: int| 0 <= j < i ==> self.chunks@[j].0 != pos,
            decreases self.chunks.len() - i,
        {
            if self.chunks[i].0 == pos {
                return Some(i);
            }
            i = i + 1;
        }
        None
    }

    /// Whether the chunk at `pos` is loaded.
    pub fn contains(&self, pos: IVec3) -> (b: bool)
        requires
            self.wf(),
        ensures
            b == self@.contains_key(pos),
    {
        match self.find(pos) {
            Some(_) => true,
            None => false,
        }
    }

    /// The chunk loaded at `pos`, if any.
    pub fn chunk(&self, pos: IVec3) -> (r: Option<&Chunk>)
        requires
            self.wf(),
        ensures
            match r {
                Some(c) => self@.contains_key(pos) && c@ == self@[pos] && c.wf(),
                None => !self@.contains_key(pos),
            },
    {
        match self.find(pos) {
            Some(i) => Some(&self.chunks[i].1),
            None => None,
        }
    }

    fn insert_new(&mut self, pos: IVec3, c: Chunk)
        requires
            old(self).wf(),
            !old(self)@.contains_key(pos),
            c.wf(),
        ensures
            final(self).wf(),
            final(self)@ == old(self)@.insert(pos, c@),
    {
        let ghost contents = c@;
        let ghost old_chunks = self.chunks@;
        self.chunks.push((pos, c));
        self.loaded = Ghost(self.loaded@.insert(pos, contents));
        assert forall|k: IVec3| #[trigger] self.loaded@.contains_key(k) implies exists|i: int|
            0 <= i < self.chunks.len() && (#[trigger] self.chunks@[i]).0 == k by {
            if k == pos {
                assert(self.chunks@[old_chunks.len() as int].0 == k);
            } else {
                let i = choose|i: int| 0 <= i < old_chunks.len() && (#[trigger] old_chunks[i]).0 == k;
                assert(self.chunks@[i] == old_chunks[i]);
            }
        }
        assert forall|i: int, j: int| 0 <= i < j < self.chunks.len() implies self.chunks@[i].0 != self.chunks@[j].0 by {
            if j == old_chunks.len() {
                assert(old_chunks[i] == self.chunks@[i]);
            }
        }
    }

    /// Removes the entry at index `i`.
    fn remove_at(&mut self, i: usize) -> (k: IVec3)
        requires
            old(self).wf(),
            i < old(self).chunks.len(),
        ensures
            final(self).wf(),
            k == old(self).chunks@[i as int].0,
            old(self)@.contains_key(k),
            final(self)@ == old(self)@.remove(k),
            final(self).chunks@ == old(self).chunks@.remove(i as int),
    {
        let ghost old_chunks = self.chunks@;
        let (k, _c) = self.chunks.remove(i);
        self.loaded = Ghost(self.loaded@.remove(k));
        assert forall|j: int| 0 <= j < self.chunks.len() implies {
            let e = #[trigger] self.chunks@[j];
            &&& e.1.wf()
            &&& self.loaded@.contains_key(e.0)
            &&& self.loaded@[e.0] == e.1@
        } by {
            if j < i {
                assert(self.chunks@[j] == old_chunks[j]);
            } else {
                assert(self.chunks@[j] == old_chunks[j + 1]);
            }
        }
        assert forall|q: IVec3| #[trigger] self.loaded@.contains_key(q) implies exists|j: int|
            0 <= j < self.chunks.len() && (#[trigger] self.chunks@[j]).0 == q by {
            let j = choose|j: int| 0 <= j < old_chunks.len() && (#[trigger] old_chunks[j]).0 == q;
            if j < i {
                assert(self.chunks@[j] == old_chunks[j]);
            } else {
                assert(self.chunks@[j - 1] == old_chunks[j]);
            }
        }
        assert forall|a: int, b: int| 0 <= a < b < self.chunks.len() implies self.chunks@[a].0 != self.chunks@[b].0 by {
            let oa = if a < i { a } else { a + 1 };
            let ob = if b < i { b } else { b + 1 };
            assert(self.chunks@[a] == old_chunks[oa]);
            assert(self.chunks@[b] == old_chunks[ob]);
        }
        k
    }

    /// Drops every loaded chunk outside the square of radius `r` around
    /// `center` and returns their coordinates.
    fn unload_outside(&mut self, center: IVec3, r: u32) -> (unloaded: Vec<IVec3>)
        requires
            old(self).wf(),
        ensures
            final(self).wf(),
            final(self)@ == old(self)@.restrict(square(center, r as int)),
            unloaded@.no_duplicates(),
            forall|k: IVec3| #[trigger] unloaded@.contains(k) <==> (old(self)@.contains_key(k) && !in_range(center, r as int, k)),
    {
        let mut unloaded: Vec<IVec3> = Vec::new();
        let mut i: usize = 0;
        while i < self.chunks.len()
            invariant
                self.wf(),
                i <= self.chunks.len(),
                forall|j: int| 0 <= j < i ==> in_range(center, r as int, #[trigger] self.chunks@[j].0),
                forall|k: IVec3| #[trigger] self@.contains_key(k) ==> old(self)@.contains_key(k) && self@[k] == old(self)@[k],
                forall|k: IVec3| old(self)@.contains_key(k) && in_range(center, r as int, k) ==> #[trigger] self@.contains_key(k),
                unloaded@.no_duplicates(),
                forall|k: IVec3| #[trigger] unloaded@.contains(k) <==> (old(self)@.contains_key(k) && !self@.contains_key(k)),
                forall|k: IVec3| #[trigger] unloaded@.contains(k) ==> !in_range(center, r as int, k),
            decreases self.chunks.len() - i,
        {
            let k = self.chunks[i].0;
            if in_range_exec(center, r, k) {
                i = i + 1;
            } else {
                let ghost before = self.chunks@;
                let ghost prev_map = self@;
                let ghost prev_unloaded = unloaded@;
                let removed = self.remove_at(i);
                proof {
                    assert forall|j: int| 0 <= j < i implies in_range(center, r as int, #[trigger] self.chunks@[j].0) by {
                        assert(self.chunks@[j] == before[j]);
                    }
                    assert(!unloaded@.contains(removed));
                }
                unloaded.push(removed);
                proof {
                    assert(unloaded@ == prev_unloaded.push(removed));
                    assert forall|q: IVec3| #[trigger] unloaded@.contains(q) <==> (old(self)@.contains_key(q) && !self@.contains_key(q)) by {
                        if q != removed {
                            if unloaded@.contains(q) {
                                let m = choose|m: int| 0 <= m < unloaded@.len() && unloaded@[m] == q;
                                assert(prev_unloaded[m] == q);
                            }
                            if prev_unloaded.contains(q) {
                                let m = choose|m: int| 0 <= m < prev_unloaded.len() && prev_unloaded[m] == q;
                                assert(unloaded@[m] == q);
                            }
                            assert(self@.contains_key(q) == prev_map.contains_key(q));
                        } else {
                            assert(unloaded@[unloaded@.len() - 1] == q);
                        }
                    }
                }
            }
        }
        proof {
            assert forall|k: IVec3| #[trigger] self@.contains_key(k) implies in_range(center, r as int, k) by {
                let j = choose|j: int| 0 <= j < self.chunks.len() && (#[trigger] self.chunks@[j]).0 == k;
            }
            assert(self@ =~= old(self)@.restrict(square(center, r as int)));
        }
        unloaded
    }

    /// Generates and loads every chunk of the square of radius `r` around
    /// `center` that is not loaded yet, and returns their coordinates.
    fn load_missing<F: Fn(IVec3) -> Chunk>(&mut self, center: IVec3, r: u32, generate: &F) -> (loaded: Vec<IVec3>)
        requires
            old(self).wf(),
            generates_chunks(*generate),
        ensures
            final(self).wf(),
            forall|k: IVec3| #[trigger] final(self)@.contains_key(k) <==> (old(self)@.contains_key(k) || in_range(center, r as int, k)),
            forall|k: IVec3| #[trigger] old(self)@.contains_key(k) ==> final(self)@[k] == old(self)@[k],
            forall|k: IVec3| final(self)@.contains_key(k) && !old(self)@.contains_key(k) ==> generated(*generate, k, #[trigger] final(self)@[k]),
            loaded@.no_duplicates(),
            forall|k: IVec3| #[trigger] loaded@.contains(k) <==> (in_range(center, r as int, k) && !old(self)@.contains_key(k)),
    {
        let mut loaded: Vec<IVec3> = Vec::new();
        let ri = r as i64;
        let x_lo: i64 = if center.x as i64 - ri < i32::MIN as i64 { i32::MIN as i64 } else { center.x as i64 - ri };
        let x_hi: i64 = if center.x as i64 + ri > i32::MAX as i64 { i32::MAX as i64 } else { center.x as i64 + ri };
        let z_lo: i64 = if center.z as i64 - ri < i32::MIN as i64 { i32::MIN as i64 } else { center.z as i64 - ri };
        let z_hi: i64 = if center.z as i64 + ri > i32::MAX as i64 { i32::MAX as i64 } else { center.z as i64 + ri };
        let mut x: i64 = x_lo;
        while x <= x_hi
            invariant
                self.wf(),
                generates_chunks(*generate),
                ri == r,
                x_lo == if center.x - r < i32::MIN { i32::MIN as int } else { center.x - r },
                x_hi == if center.x + r > i32::MAX { i32::MAX as int } else { center.x + r },
                z_lo == if center.z - r < i32::MIN { i32::MIN as int } else { center.z - r },
                z_hi == if center.z + r > i32::MAX { i32::MAX as int } else { center.z + r },
                x_lo <= x <= x_hi + 1,
                forall|k: IVec3| #[trigger] self@.contains_key(k) <==> (old(self)@.contains_key(k) || (in_range(center, r as int, k) && k.x < x)),
                forall|k: IVec3| #[trigger] old(self)@.contains_key(k) ==> self@[k] == old(self)@[k],
                forall|k: IVec3| self@.contains_key(k) && !old(self)@.contains_key(k) ==> generated(*generate, k, #[trigger] self@[k]),
                loaded@.no_duplicates(),
                forall|k: IVec3| #[trigger] loaded@.contains(k) <==> (self@.contains_key(k) && !old(self)@.contains_key(k)),
            decreases x_hi + 1 - x,
        {
            let mut z: i64 = z_lo;
            while z <= z_hi
                invariant
                    self.wf(),
                    generates_chunks(*generate),
                    ri == r,
                    x_lo == if center.x - r < i32::MIN { i32::MIN as int } else { center.x - r },
                    x_hi == if center.x + r > i32::MAX { i32::MAX as int } else { center.x + r },
                    z_lo == if center.z - r < i32::MIN { i32::MIN as int } else { center.z - r },
                    z_hi == if center.z + r > i32::MAX { i32::MAX as int } else { center.z + r },
                    x_lo <= x <= x_hi,
                    z_lo <= z <= z_hi + 1,
                    forall|k: IVec3| #[trigger] self@.contains_key(k) <==> (old(self)@.contains_key(k) || (in_range(center, r as int, k) && (k.x < x || (k.x == x && k.z < z)))),
                    forall|k: IVec3| #[trigger] old(self)@.contains_key(k) ==> self@[k] == old(self)@[k],
                    forall|k: IVec3| self@.contains_key(k) && !old(self)@.contains_key(k) ==> generated(*generate, k, #[trigger] self@[k]),
                    loaded@.no_duplicates(),
                    forall|k: IVec3| #[trigger] loaded@.contains(k) <==> (self@.contains_key(k) && !old(self)@.contains_key(k)),
                decreases z_hi + 1 - z,
            {
                let p = IVec3 { x: x as i32, y: 0, z: z as i32 };
                if !self.contains(p) {
                    let c = generate(p);
                    let ghost prev_map = self@;
                    let ghost prev_loaded = loaded@;
                    assert(!loaded@.contains(p));
                    self.insert_new(p, c);
                    loaded.push(p);
                    proof {
                        assert(generate.ensures((p,), c));
                        assert forall|q: IVec3| #[trigger] loaded@.contains(q) <==> (self@.contains_key(q) && !old(self)@.contains_key(q)) by {
                            if q != p {
                                if loaded@.contains(q) {
                                    let m = choose|m: int| 0 <= m < loaded@.len() && loaded@[m] == q;
                                    assert(prev_loaded[m] == q);
                                }
                                if prev_loaded.contains(q) {
                                    let m = choose|m: int| 0 <= m < prev_loaded.len() && prev_loaded[m] == q;
                                    assert(loaded@[m] == q);
                                }
                            } else {
                                assert(loaded@[loaded@.len() - 1] == q);
                            }
                        }
                    }
                }
                z = z + 1;
            }
            x = x + 1;
        }
        loaded
    }

    /// One streaming tick around the observer's chunk coordinate `center`:
    /// afterwards exactly the chunks `(x, 0, z)` with `|x - center.x| <= r`
    /// and `|z - center.z| <= r` are loaded. Chunks already loaded there are
    /// kept as they are, missing ones come from `generate`, and every other
    /// chunk is dropped. Only coordinates that an `IVec3` can hold exist,
    /// so at the edge of the `i32` range the square is cut off there.
    pub fn stream_tick<F: Fn(IVec3) -> Chunk>(&mut self, center: IVec3, r: u32, generate: &F) -> (d: StreamDelta)
        requires
            old(self).wf(),
            generates_chunks(*generate),
        ensures
            final(self).wf(),
            final(self)@.dom() == square(center, r as int),
            forall|k: IVec3| #[trigger] old(self)@.contains_key(k) && in_range(center, r as int, k) ==> final(self)@[k] == old(self)@[k],
            forall|k: IVec3| in_range(center, r as int, k) && !old(self)@.contains_key(k) ==> generated(*generate, k, #[trigger] final(self)@[k]),
            d.loaded@.no_duplicates(),
            forall|k: IVec3| #[trigger] d.loaded@.contains(k) <==> (in_range(center, r as int, k) && !old(self)@.contains_key(k)),
            d.unloaded@.no_duplicates(),
            forall|k: IVec3| #[trigger] d.unloaded@.contains(k) <==> (old(self)@.contains_key(k) && !in_range(center, r as int, k)),
    {
        let unloaded = self.unload_outside(center, r);
        let ghost mid = self@;
        let loaded = self.load_missing(center, r, generate);
        proof {
            assert(self@.dom() =~= square(center, r as int));
            assert forall|k: IVec3| #[trigger] old(self)@.contains_key(k) && in_range(center, r as int, k) implies self@[k] == old(self)@[k] by {
                assert(mid.contains_key(k));
            }
            assert forall|k: IVec3| #[trigger] loaded@.contains(k) <==> (in_range(center, r as int, k) && !old(self)@.contains_key(k)) by {
                assert(mid.contains_key(k) <==> (old(self)@.contains_key(k) && in_range(center, r as int, k)));
            }
            assert forall|k: IVec3| in_range(center, r as int, k) && !old(self)@.contains_key(k) implies generated(*generate, k, #[trigger] self@[k]) by {
                assert(!mid.contains_key(k));
                assert(self@.contains_key(k));
            }
        }
        StreamDelta { loaded, unloaded }
    }

    /// Applies one edit, under the rule of `edit_outcome`.
    pub fn apply_edit(&mut self, e: Edit) -> (r: Result<bool, EditError>)
        requires
            old(self).wf(),
        ensures
            final(self).wf(),
            r == edit_outcome(old(self)@, e),
            final(self)@ == after_edit(old(self)@, e),
    {
        let (pos, target) = match e {
            Edit::Break(p) => (p, Voxel::Empty),
            Edit::Place(p, v) => (p, v),
        };
        if let Voxel::Semi(_) = target {
            return Err(EditError::Unsupported(pos));
        }
        let wp = WorldPosition::get(pos);
        let c = wp.chunk_location;
        let i = match self.find(c) {
            Some(i) => i,
            None => return Err(EditError::ChunkNotLoaded(c)),
        };
        let x = wp.location_in_chunk.x as usize;
        let y = wp.location_in_chunk.y as usize;
        let z = wp.location_in_chunk.z as usize;
        proof {
            let e0 = self.chunks@[i as int];
            assert(e0.1.wf());
            assert(self@[c] == e0.1@);
        }
        let current = self.chunks[i].1.voxel(x, y, z);
        let applies = match e {
            Edit::Break(_) => !matches!(current, Voxel::Empty),
            Edit::Place(_, _) => matches!(current, Voxel::Empty),
        };
        if !applies {
            return Ok(false);
        }
        let ghost old_chunks = self.chunks@;
        let ghost new_contents = self@[c].update(cell_index(wp), target);
        let (key, mut chunk) = self.chunks.remove(i);
        chunk.set_voxel(x, y, z, target);
        self.chunks.insert(i, (key, chunk));
        self.loaded = Ghost(self.loaded@.insert(c, new_contents));
        proof {
            assert forall|j: int| 0 <= j < self.chunks.len() && j != i implies #[trigger] self.chunks@[j] == old_chunks[j] by {}
            assert forall|j: int| 0 <= j < self.chunks.len() implies {
                let en = #[trigger] self.chunks@[j];
                &&& en.1.wf()
                &&& self.loaded@.contains_key(en.0)
                &&& self.loaded@[en.0] == en.1@
            } by {
                if j != i {
                    assert(self.chunks@[j] == old_chunks[j]);
                    assert(old_chunks[j].0 != c);
                }
            }
            assert forall|q: IVec3| #[trigger] self.loaded@.contains_key(q) implies exists|j: int|
                0 <= j < self.chunks.len() && (#[trigger] self.chunks@[j]).0 == q by {
                let j = choose|j: int| 0 <= j < old_chunks.len() && (#[trigger] old_chunks[j]).0 == q;
                if j != i {
                    assert(self.chunks@[j] == old_chunks[j]);
                } else {
                    assert(self.chunks@[i as int].0 == q);
                }
            }
            assert forall|a: int, b: int| 0 <= a < b < self.chunks.len() implies self.chunks@[a].0 != self.chunks@[b].0 by {
                assert(self.chunks@[a].0 == old_chunks[a].0);
                assert(self.chunks@[b].0 == old_chunks[b].0);
            }
        }
        Ok(true)
    }

    /// Empties the voxel at world position `pos` if it is not empty already.
    /// Breaking an empty voxel changes nothing and returns `Ok(false)`.
    pub fn break_block(&mut self, pos: IVec3) -> (r: Result<bool, EditError>)
        requires
            old(self).wf(),
        ensures
            final(self).wf(),
            r == edit_outcome(old(self)@, Edit::Break(pos)),
            final(self)@ == after_edit(old(self)@, Edit::Break(pos)),
            ({
                let wp = resolve(pos);
                old(self)@.contains_key(wp.chunk_location)
                    && old(self)@[wp.chunk_location][cell_index(wp)] is Empty
                    ==> r == Ok::<bool, EditError>(false) && final(self)@ == old(self)@
            }),
    {
        self.apply_edit(Edit::Break(pos))
    }

    /// Puts `species` into the voxel at world position `pos` if that voxel
    /// is empty. Placing into a voxel that is not empty changes nothing and
    /// returns `Ok(false)`; the unsupported variant is refused.
    pub fn place_block(&mut self, pos: IVec3, species: Voxel) -> (r: Result<bool, EditError>)
        requires
            old(self).wf(),
        ensures
            final(self).wf(),
            r == edit_outcome(old(self)@, Edit::Place(pos, species)),
            final(self)@ == after_edit(old(self)@, Edit::Place(pos, species)),
            ({
                let wp = resolve(pos);
                old(self)@.contains_key(wp.chunk_location)
                    && !(old(self)@[wp.chunk_location][cell_index(wp)] is Empty)
                    && !(species is Semi)
                    ==> r == Ok::<bool, EditError>(false) && final(self)@ == old(self)@
            }),
    {
        self.apply_edit(Edit::Place(pos, species))
    }

    /// Applies a tick's edits, all breaks first and then all placements.
    /// A dropped edit does not stop the rest of the batch. The report lists
    /// each changed chunk once, however many of its voxels changed.
    pub fn apply_edits(&mut self, breaks: &Vec<BlockBreakEvent>, places: &Vec<BlockPlaceEvent>) -> (r: EditReport)
        requires
            old(self).wf(),
        ensures
            final(self).wf(),
            final(self)@ == after_edits(old(self)@, tick_edits(breaks@, places@)),
            r.dirty@.no_duplicates(),
            r.dirty@.to_set() == edits_dirty(old(self)@, tick_edits(breaks@, places@)),
            r.failures@ == edits_failures(old(self)@, tick_edits(breaks@, places@)),
    {
        let mut edits: Vec<Edit> = Vec::new();
        let mut b: usize = 0;
        while b < breaks.len()
            invariant
                b <= breaks.len(),
                edits@ == breaks@.take(b as int).map_values(|e: BlockBreakEvent| Edit::Break(e.position)),
            decreases breaks.len() - b,
        {
            edits.push(Edit::Break(breaks[b].position));
            b = b + 1;
            assert(edits@ =~= breaks@.take(b as int).map_values(|e: BlockBreakEvent| Edit::Break(e.position)));
        }
        let ghost nb = edits@.len();
        let mut p: usize = 0;
        while p < places.len()
            invariant
                p <= places.len(),
                nb == breaks.len(),
                edits@ == breaks@.map_values(|e: BlockBreakEvent| Edit::Break(e.position))
                    + places@.take(p as int).map_values(|e: BlockPlaceEvent| Edit::Place(e.position, e.species)),
            decreases places.len() - p,
        {
            edits.push(Edit::Place(places[p].position, places[p].species));
            p = p + 1;
            assert(edits@ =~= breaks@.map_values(|e: BlockBreakEvent| Edit::Break(e.position))
                + places@.take(p as int).map_values(|e: BlockPlaceEvent| Edit::Place(e.position, e.species)));
        }
        assert(places@.take(places.len() as int) =~= places@);
        assert(breaks@.take(breaks.len() as int) =~= breaks@);
        assert(edits@ == tick_edits(breaks@, places@));

        let mut dirty: Vec<IVec3> = Vec::new();
        let mut failures: Vec<EditError> = Vec::new();
        let mut i: usize = 0;
        while i < edits.len()
            invariant
                self.wf(),
                i <= edits.len(),
                self@ == after_edits(old(self)@, edits@.take(i as int)),
                dirty@.no_duplicates(),
                dirty@.to_set() == edits_dirty(old(self)@, edits@.take(i as int)),
                failures@ == edits_failures(old(self)@, edits@.take(i as int)),
            decreases edits.len() - i,
        {
            let e = edits[i];
            proof {
                assert(edits@.take(i + 1).drop_last() =~= edits@.take(i as int));
                assert(edits@.take(i + 1).last() == e);
            }
            match self.apply_edit(e) {
                Ok(true) => {
                    let c = WorldPosition::get(match e {
                        Edit::Break(q) => q,
                        Edit::Place(q, _) => q,
                    }).chunk_location;
                    push_unique(&mut dirty, c);
                },
                Ok(false) => {},
                Err(err) => {
                    failures.push(err);
                },
            }
            i = i + 1;
        }
        assert(edits@.take(edits.len() as int) =~= edits@);
        EditReport { dirty, failures }
    }

    /// Fresh geometry of the chunk at `pos`, if it is loaded.
    pub fn mesh_chunk(&self, pos: IVec3) -> (r: Option<MeshData>)
        requires
            self.wf(),
        ensures
            r is Some <==> self@.contains_key(pos),
            r matches Some(m) ==> is_mesh_of(&m, quads_of(self@[pos])),
    {
        match self.chunk(pos) {
            Some(c) => {
                let quads = generate_mesh(c);
                Some(build_mesh(&quads))
            },
            None => None,
        }
    }

    /// Fresh geometry of each loaded chunk of `dirty`, in the order of
    /// `dirty`; coordinates that are not loaded are skipped.
    pub fn remesh(&self, dirty: &Vec<IVec3>) -> (r: Vec<(IVec3, MeshData)>)
        requires
            self.wf(),
        ensures
            r@.map_values(|e: (IVec3, MeshData)| e.0) == dirty@.filter(|k: IVec3| self@.contains_key(k)),
            forall|i: int| 0 <= i < r.len() ==> is_mesh_of(&(#[trigger] r@[i]).1, quads_of(self@[r@[i].0])),
    {
        let mut out: Vec<(IVec3, MeshData)> = Vec::new();
        let mut i: usize = 0;
        while i < dirty.len()
            invariant
                self.wf(),
                i <= dirty.len(),
                out@.map_values(|e: (IVec3, MeshData)| e.0) == dirty@.take(i as int).filter(|k: IVec3| self@.contains_key(k)),
                forall|j: int| 0 <= j < out.len() ==> self@.contains_key(#[trigger] out@[j].0),
                forall|j: int| 0 <= j < out.len() ==> is_mesh_of(&(#[trigger] out@[j]).1, quads_of(self@[out@[j].0])),
            decreases dirty.len() - i,
        {
            let k = dirty[i];
            proof {
                let pred = |q: IVec3| self@.contains_key(q);
                assert(dirty@.take(i + 1).drop_last() =~= dirty@.take(i as int));
                assert(dirty@.take(i + 1).last() == k);
                reveal_with_fuel(Seq::filter, 1);
                assert(dirty@.take(i + 1).filter(pred) == if pred(k) {
                    dirty@.take(i as int).filter(pred).push(k)
                } else {
                    dirty@.take(i as int).filter(pred)
                });
            }
            let ghost before = out@;
            match self.mesh_chunk(k) {
                Some(m) => {
                    out.push((k, m));
                    assert(out@.map_values(|e: (IVec3, MeshData)| e.0) =~= before.map_values(|e: (IVec3, MeshData)| e.0).push(k));
                },
                None => {},
            }
            i = i + 1;
        }
        assert(dirty@.take(dirty.len() as int) =~= dirty@);
        out
    }

    /// The world at startup: every chunk within `render_distance` of the
    /// origin chunk, generated by `generate`, together with their coordinates.
    pub fn startup_load<F: Fn(IVec3) -> Chunk>(render_distance: u32, generate: &F) -> (r: (WorldChunks, Vec<IVec3>))
        requires
            generates_chunks(*generate),
        ensures
            r.0.wf(),
            r.0@.dom() == square(IVec3 { x: 0, y: 0, z: 0 }, render_distance as int),
            forall|k: IVec3| #[trigger] r.0@.contains_key(k) ==> generated(*generate, k, r.0@[k]),
            r.1@.no_duplicates(),
            r.1@.to_set() == square(IVec3 { x: 0, y: 0, z: 0 }, render_distance as int),
    {
        let mut world = WorldChunks::new();
        let origin = IVec3 { x: 0, y: 0, z: 0 };
        let loaded = world.load_missing(origin, render_distance, generate);
        assert(world@.dom() =~= square(origin, render_distance as int));
        assert(loaded@.to_set() =~= square(origin, render_distance as int));
        (world, loaded)
    }
}



/// Appends `k` unless it is already there.
fn push_unique(v: &mut Vec<IVec3>, k: IVec3)
    requires
        old(v)@.no_duplicates(),
    ensures
        final(v)@.no_duplicates(),
        final(v)@.to_set() == old(v)@.to_set().insert(k),
{
    let mut i: usize = 0;
    while i < v.len()
        invariant
            v@ == old(v)@,
            v@.no_duplicates(),
            i <= v.len(),
            forall|j: int| 0 <= j < i ==> v@[j] != k,
        decreases v.len() - i,
    {
        if v[i] == k {
            assert(v@.contains(k));
            assert(v@.to_set() =~= v@.to_set().insert(k));
            return;
        }
        i = i + 1;
    }
    let ghost before = v@;
    v.push(k);
    assert(!before.contains(k));
    assert(v@.to_set() =~= before.to_set().insert(k)) by {
        assert forall|q: IVec3| #[trigger] v@.to_set().contains(q) <==> before.to_set().insert(k).contains(q) by {
            if v@.contains(q) && q != k {
                let m = choose|m: int| 0 <= m < v@.len() && v@[m] == q;
                assert(before[m] == q);
            }
            if before.contains(q) {
                let m = choose|m: int| 0 <= m < before.len() && before[m] == q;
                assert(v@[m] == q);
            }
            if q == k {
                assert(v@[before.len() as int] == q);
            }
        }
    }
}

/// Whether `k` lies in the square of radius `r` around `center`.
fn in_range_exec(center: IVec3, r: u32, k: IVec3) -> (b: bool)
    ensures
        b == in_range(center, r as int, k),
{
    let r = r as i64;
    k.y == 0 && center.x as i64 - r <= k.x as i64 && k.x as i64 <= center.x as i64 + r
        && center.z as i64 - r <= k.z as i64 && k.z as i64 <= center.z as i64 + r
}

} // verus!
