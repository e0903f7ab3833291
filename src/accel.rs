use vstd::prelude::*;
use crate::buffer::{buffer_retire, push_buffer_retire, Buffer, MemoryKind};
use crate::destruction::CleanupEvent;
use crate::geometry::GeometryDescr;

verus! {

/// Whether an acceleration structure object exists yet.
#[derive(Clone, Copy, Debug, PartialEq, Eq, Structural)]
pub enum AsHandle {
    NotBuilt,
    Built(u64),
}

/// An acceleration structure: its native object, the buffer backing it and
/// the device address by which instances and shaders refer to it.
#[derive(Clone, Copy, Debug, PartialEq, Eq, Structural)]
pub struct AccelerationStructure {
    pub handle: AsHandle,
    pub buffer: Buffer,
    pub address: u64,
}

impl AccelerationStructure {
    /// Nothing built, no backing buffer.
    pub fn not_built() -> (r: AccelerationStructure)
        ensures
            r.handle == AsHandle::NotBuilt,
            r.buffer.nr_elements == 0,
            r.buffer.handle == 0,
            r.address == 0,
    {
        AccelerationStructure { handle: AsHandle::NotBuilt, buffer: Buffer::null(0, MemoryKind::DeviceLocal), address: 0 }
    }

    /// The structure can be traced against.
    pub fn is_ready(&self) -> (r: bool)
        ensures
            r == (self.handle is Built),
    {
        match self.handle {
            AsHandle::NotBuilt => false,
            AsHandle::Built(_) => true,
        }
    }

    /// The reference an instance record stores: the structure's device address.
    pub fn get_reference(&self) -> (r: u64)
        ensures
            r == self.address,
    {
        self.address
    }
}

/// The destruction queued for a structure object: none if it was never built.
pub open spec fn as_retire(h: AsHandle) -> Seq<CleanupEvent> {
    match h {
        AsHandle::Built(x) => seq![CleanupEvent::AccelerationStructure(x)],
        AsHandle::NotBuilt => Seq::<CleanupEvent>::empty(),
    }
}

/// Appends the destruction of a structure object, if it was built.
pub fn push_as_retire(out: &mut Vec<CleanupEvent>, h: AsHandle)
    ensures
        final(out)@ == old(out)@ + as_retire(h),
{
    match h {
        AsHandle::Built(x) => out.push(CleanupEvent::AccelerationStructure(x)),
        AsHandle::NotBuilt => {},
    }
    assert(final(out)@ =~= old(out)@ + as_retire(h));
}

/// Build flag: the structure may be compacted after its build.
pub const ALLOW_COMPACTION: u32 = 0x2;

/// Build flag: favour trace speed over build speed.
pub const PREFER_FAST_TRACE: u32 = 0x4;

/// What a structure is built from.
#[derive(Clone, Copy, Debug, PartialEq, Eq, Structural)]
pub enum BuildKind {
    /// A bottom-level structure over a loaded mesh's triangles.
    MeshBlas,
    /// A bottom-level structure over the procedural sphere's box.
    ProceduralBlas,
    /// The scene's top-level structure over instances.
    Tlas,
}

/// The build flags of each kind of structure: meshes are built for fast
/// tracing and later compacted; the procedural structure and the top level
/// are built for fast tracing only.
pub fn build_flags(kind: BuildKind) -> (r: u32)
    ensures
        r == match kind {
            BuildKind::MeshBlas => PREFER_FAST_TRACE | ALLOW_COMPACTION,
            BuildKind::ProceduralBlas => PREFER_FAST_TRACE,
            BuildKind::Tlas => PREFER_FAST_TRACE,
        },
        kind == BuildKind::MeshBlas ==> r == 0x6,
        kind != BuildKind::MeshBlas ==> r == 0x4,
{
    assert(PREFER_FAST_TRACE | ALLOW_COMPACTION == 0x6u32) by (bit_vector);
    match kind {
        BuildKind::MeshBlas => PREFER_FAST_TRACE | ALLOW_COMPACTION,
        BuildKind::ProceduralBlas => PREFER_FAST_TRACE,
        BuildKind::Tlas => PREFER_FAST_TRACE,
    }
}

/// Range of one geometry in a bottom-level build: its triangle count and the
/// byte offset of its first index.
#[derive(Clone, Copy, Debug, PartialEq, Eq, Structural)]
pub struct BuildRange {
    pub primitive_count: u32,
    pub primitive_offset: u32,
    pub first_vertex: u32,
    pub transform_offset: u32,
}

/// Byte size of one `u32` index.
pub const INDEX_SIZE: usize = 4;

/// The build range of each geometry: `index_count / 3` triangles starting at
/// byte `4 * first_index` of the index buffer.
pub fn build_ranges(geoms: &Vec<GeometryDescr>) -> (r: Vec<BuildRange>)
    requires
        forall|i: int| 0 <= i < geoms@.len() ==> #[trigger] geoms@[i].first_index * 4 <= u32::MAX
            && geoms@[i].index_count / 3 <= u32::MAX,
    ensures
        r@.len() == geoms@.len(),
        forall|i: int| 0 <= i < geoms@.len() ==> #[trigger] r@[i] == (BuildRange {
            primitive_count: (geoms@[i].index_count / 3) as u32,
            primitive_offset: (geoms@[i].first_index * 4) as u32,
            first_vertex: 0,
            transform_offset: 0,
        }),
{
    let mut r: Vec<BuildRange> = Vec::new();
    let mut i: usize = 0;
    while i < geoms.len()
        invariant
            i <= geoms@.len(),
            r@.len() == i,
            forall|j: int| 0 <= j < geoms@.len() ==> #[trigger] geoms@[j].first_index * 4 <= u32::MAX
                && geoms@[j].index_count / 3 <= u32::MAX,
            forall|j: int| 0 <= j < i ==> #[trigger] r@[j] == (BuildRange {
                primitive_count: (geoms@[j].index_count / 3) as u32,
                primitive_offset: (geoms@[j].first_index * 4) as u32,
                first_vertex: 0,
                transform_offset: 0,
            }),
        decreases geoms@.len() - i,
    {
        let g = geoms[i];
        assert(g.first_index * 4 <= u32::MAX && g.index_count / 3 <= u32::MAX);
        r.push(BuildRange {
            primitive_count: (g.index_count / 3) as u32,
            primitive_offset: (g.first_index * INDEX_SIZE) as u32,
            first_vertex: 0,
            transform_offset: 0,
        });
        i = i + 1;
    }
    r
}

/// The geometry-to-first-index table a hit shader reads.
pub fn geometry_index_offsets(geoms: &Vec<GeometryDescr>) -> (r: Vec<u32>)
    requires
        forall|i: int| 0 <= i < geoms@.len() ==> #[trigger] geoms@[i].first_index <= u32::MAX,
    ensures
        r@.len() == geoms@.len(),
        forall|i: int| 0 <= i < geoms@.len() ==> #[trigger] r@[i] == geoms@[i].first_index,
{
    let mut r: Vec<u32> = Vec::new();
    let mut i: usize = 0;
    while i < geoms.len()
        invariant
            i <= geoms@.len(),
            r@.len() == i,
            forall|j: int| 0 <= j < geoms@.len() ==> #[trigger] geoms@[j].first_index <= u32::MAX,
            forall|j: int| 0 <= j < i ==> #[trigger] r@[j] == geoms@[j].first_index,
        decreases geoms@.len() - i,
    {
        let g = geoms[i];
        assert(g.first_index <= u32::MAX);
        r.push(g.first_index as u32);
        i = i + 1;
    }
    r
}

/// A build is submitted only when it has at least one triangle: empty lists
/// are a no-op, never a zero-primitive build.
pub fn has_primitives(ranges: &Vec<BuildRange>) -> (r: bool)
    ensures
        r == exists|i: int| 0 <= i < ranges@.len() && #[trigger] ranges@[i].primitive_count > 0,
{
    let mut i: usize = 0;
    while i < ranges.len()
        invariant
            i <= ranges@.len(),
            forall|j: int| 0 <= j < i ==> #[trigger] ranges@[j].primitive_count == 0,
        decreases ranges@.len() - i,
    {
        if ranges[i].primitive_count > 0 {
            return true;
        }
        i = i + 1;
    }
    false
}

/// Size of a scratch buffer for a build needing `scratch_size` bytes whose
/// start must be aligned: one alignment unit of padding.
pub fn padded_scratch_size(scratch_size: u64, alignment: u64) -> (r: Option<u64>)
    ensures
        r matches Some(n) ==> n == scratch_size + alignment,
        r is None <==> scratch_size + alignment > u64::MAX,
{
    scratch_size.checked_add(alignment)
}

/// The scratch address handed to a build: the buffer's address rounded up
/// past the next alignment boundary, which stays inside the padding.
pub fn scratch_address(base: u64, alignment: u64) -> (r: u64)
    requires
        alignment > 0,
        base + alignment <= u64::MAX,
    ensures
        r == base + alignment - base % alignment,
        r % alignment == 0,
        base < r <= base + alignment,
{
    assert((base + alignment - base % alignment) % (alignment as int) == 0) by (nonlinear_arith)
        requires alignment > 0;
    base + alignment - base % alignment
}

/// The size a compacted structure is given. Compaction is taken only when the
/// queried compacted size is positive and no larger than the uncompacted size; else
/// the uncompacted structure is kept.
pub fn compacted_size(uncompacted_size: u64, queried_size: u64) -> (r: Option<u64>)
    ensures
        r is Some <==> 0 < queried_size <= uncompacted_size,
        r matches Some(n) ==> n == queried_size && n <= uncompacted_size,
{
    if queried_size > 0 && queried_size <= uncompacted_size {
        Some(queried_size)
    } else {
        None
    }
}

/// One step of building a mesh's bottom-level structure.
#[derive(Clone, Copy, Debug, PartialEq, Eq, Structural)]
pub enum BlasStep {
    /// Copy vertices, indices and the geometry offset table from staging
    /// buffers to device buffers, then free the staging buffers.
    UploadGeometry,
    /// Build into a structure of the worst-case size using a padded scratch
    /// buffer, wait for the build, then free the scratch buffer.
    Build,
    /// Query the compacted size and wait for the result.
    QueryCompactedSize,
    /// Create a structure of `size` bytes and copy into it with compaction,
    /// waiting for the copy.
    CopyCompacted { size: u64 },
    /// Destroy the uncompacted structure and its buffer.
    DestroyUncompacted,
    /// Upload the per-geometry materials, then free their staging buffer.
    UploadMaterials,
}

/// The steps up to and including the compacted-size query, in order.
pub open spec fn build_steps_spec() -> Seq<BlasStep> {
    seq![BlasStep::UploadGeometry, BlasStep::Build, BlasStep::QueryCompactedSize]
}

/// The steps that follow the query answer, in order: compaction copies
/// first and only then destroys the uncompacted structure; when compaction
/// is declined the uncompacted structure is kept.
pub open spec fn finish_steps_spec(uncompacted_size: u64, queried_size: u64) -> Seq<BlasStep> {
    if 0 < queried_size <= uncompacted_size {
        seq![BlasStep::CopyCompacted { size: queried_size }, BlasStep::DestroyUncompacted, BlasStep::UploadMaterials]
    } else {
        seq![BlasStep::UploadMaterials]
    }
}

/// The steps of a mesh structure's build before its compacted size is known.
pub fn blas_build_steps() -> (r: Vec<BlasStep>)
    ensures
        r@ == build_steps_spec(),
{
    let r = vec![BlasStep::UploadGeometry, BlasStep::Build, BlasStep::QueryCompactedSize];
    assert(r@ =~= build_steps_spec());
    r
}

/// The remaining steps once the query has answered `queried_size` for a
/// structure built at `uncompacted_size` bytes.
pub fn blas_finish_steps(uncompacted_size: u64, queried_size: u64) -> (r: Vec<BlasStep>)
    ensures
        r@ == finish_steps_spec(uncompacted_size, queried_size),
{
    let r = match compacted_size(uncompacted_size, queried_size) {
        Some(size) => vec![BlasStep::CopyCompacted { size }, BlasStep::DestroyUncompacted, BlasStep::UploadMaterials],
        None => vec![BlasStep::UploadMaterials],
    };
    assert(r@ =~= finish_steps_spec(uncompacted_size, queried_size));
    r
}

/// A bottom-level structure over triangle meshes with the buffers and
/// textures it owns.
pub struct TriangleBlas {
    pub vertex_buffer: Buffer,
    pub index_buffer: Buffer,
    pub geometry_to_index_offset: Buffer,
    pub geometry_to_material: Buffer,
    /// (image, view) handles of the textures loaded for this mesh.
    pub textures: Vec<(u64, u64)>,
    pub acceleration_structure: AccelerationStructure,
}

/// The destruction events of a triangle structure, in the order they are
/// queued: each texture's view then image, the four data buffers, the
/// structure object and finally the buffer backing it. Absent objects (null
/// buffers, a structure never built) queue nothing.
pub open spec fn blas_destroy_events(b: TriangleBlas) -> Seq<CleanupEvent> {
    let tex = Seq::new(2 * b.textures@.len(), |k: int|
        if k % 2 == 0 {
            CleanupEvent::ImageView(b.textures@[k / 2].1)
        } else {
            CleanupEvent::Image(b.textures@[k / 2].0)
        });
    tex + buffer_retire(b.vertex_buffer) + buffer_retire(b.index_buffer) + buffer_retire(
        b.geometry_to_index_offset,
    ) + buffer_retire(b.geometry_to_material) + as_retire(b.acceleration_structure.handle)
        + buffer_retire(b.acceleration_structure.buffer)
}

impl TriangleBlas {
    /// The reference instances use to point at this structure.
    pub fn get_reference(&self) -> (r: u64)
        ensures
            r == self.acceleration_structure.address,
    {
        self.acceleration_structure.get_reference()
    }

    /// Hands the structure and everything it owns to deferred destruction.
    pub fn destroy_events(&self) -> (r: Vec<CleanupEvent>)
        requires
            self.textures@.len() * 2 + 6 <= usize::MAX,
        ensures
            r@ == blas_destroy_events(*self),
    {
        let mut r: Vec<CleanupEvent> = Vec::new();
        let mut i: usize = 0;
        while i < self.textures.len()
            invariant
                i <= self.textures@.len(),
                r@ == Seq::new(2 * i as nat, |k: int|
                    if k % 2 == 0 {
                        CleanupEvent::ImageView(self.textures@[k / 2].1)
                    } else {
                        CleanupEvent::Image(self.textures@[k / 2].0)
                    }),
            decreases self.textures@.len() - i,
        {
            let (image, view) = self.textures[i];
            r.push(CleanupEvent::ImageView(view));
            r.push(CleanupEvent::Image(image));
            i = i + 1;
            assert(r@ =~= Seq::new(2 * i as nat, |k: int|
                if k % 2 == 0 {
                    CleanupEvent::ImageView(self.textures@[k / 2].1)
                } else {
                    CleanupEvent::Image(self.textures@[k / 2].0)
                }));
        }
        push_buffer_retire(&mut r, &self.vertex_buffer);
        push_buffer_retire(&mut r, &self.index_buffer);
        push_buffer_retire(&mut r, &self.geometry_to_index_offset);
        push_buffer_retire(&mut r, &self.geometry_to_material);
        push_as_retire(&mut r, self.acceleration_structure.handle);
        push_buffer_retire(&mut r, &self.acceleration_structure.buffer);
        assert(r@ =~= blas_destroy_events(*self));
        r
    }
}

} // verus!
