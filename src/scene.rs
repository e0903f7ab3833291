use std::collections::HashMap;
use vstd::prelude::*;
use vstd::std_specs::hash::group_hash_axioms;
use crate::accel::{as_retire, push_as_retire, AccelerationStructure, AsHandle};
use crate::buffer::{buffer_retire, plan_resize, push_buffer_retire, Buffer, MemoryKind, ResizePlan};
use crate::destruction::CleanupEvent;

verus! {

broadcast use group_hash_axioms;

/// Instance mask that lets every ray see the instance.
pub const INSTANCE_MASK: u8 = 0xFF;

/// Instance flag that disables triangle facing culling.
pub const INSTANCE_FLAGS: u8 = 0x01;

/// A 24-bit value and an 8-bit value packed into one word, low bits first.
pub open spec fn packed_24_8(low_24: u32, high_8: u8) -> u32 {
    ((low_24 as int % 0x100_0000) + high_8 as int * 0x100_0000) as u32
}

/// Packs the low 24 bits of `low_24` under `high_8`, as instance records
/// store their custom index with mask, and their record offset with flags.
pub fn pack_24_8(low_24: u32, high_8: u8) -> (r: u32)
    ensures
        r == packed_24_8(low_24, high_8),
        r & 0xFF_FFFF == low_24 & 0xFF_FFFF,
        r >> 24u32 == high_8,
{
    let h = high_8 as u32;
    let r = (low_24 & 0x00ff_ffff) | (h << 24u32);
    assert(r == (low_24 & 0x00ff_ffff) + (h << 24u32)) by (bit_vector)
        requires r == (low_24 & 0x00ff_ffff) | (h << 24u32), h <= 0xff;
    assert(low_24 & 0x00ff_ffff == low_24 % 0x100_0000) by (bit_vector);
    assert(h << 24u32 == h * 0x100_0000) by (bit_vector)
        requires h <= 0xff;
    assert(r & 0xFF_FFFF == low_24 & 0xFF_FFFF) by (bit_vector)
        requires r == (low_24 & 0x00ff_ffff) | (h << 24u32), h <= 0xff;
    assert(r >> 24u32 == h) by (bit_vector)
        requires r == (low_24 & 0x00ff_ffff) | (h << 24u32), h <= 0xff;
    r
}

/// The parts of an instance record the engine decides; the transform is
/// copied from the renderable's world transform by the caller.
#[derive(Clone, Copy, Debug, PartialEq, Eq, Structural)]
pub struct InstanceRecord {
    /// Index of the renderable this instance comes from: spheres first,
    /// then meshes, in the caller's order.
    pub source: usize,
    pub custom_index_and_mask: u32,
    pub sbt_offset_and_flags: u32,
    pub blas_reference: u64,
}

/// A mesh renderable becomes an instance only when its structure is ready
/// and its hit record is known.
pub open spec fn mesh_resolves(
    mesh: u64,
    blas: Map<u64, u64>,
    offsets: Map<u64, u32>,
) -> bool {
    blas.contains_key(mesh) && offsets.contains_key(mesh)
}

/// (source, hit-record offset, structure reference) of the instances, in
/// order: every sphere, then the meshes that resolve.
pub open spec fn resolved_spec(
    sphere_count: nat,
    sphere_blas: u64,
    meshes: Seq<u64>,
    blas: Map<u64, u64>,
    offsets: Map<u64, u32>,
) -> Seq<(int, u32, u64)>
    decreases meshes.len(),
{
    if meshes.len() == 0 {
        Seq::new(sphere_count, |i: int| (i, 0u32, sphere_blas))
    } else {
        let prev = resolved_spec(sphere_count, sphere_blas, meshes.drop_last(), blas, offsets);
        let m = meshes.last();
        if mesh_resolves(m, blas, offsets) {
            prev.push((sphere_count + meshes.len() - 1, offsets[m], blas[m]))
        } else {
            prev
        }
    }
}

/// The instance record of the `i`-th resolved renderable.
pub open spec fn instance_spec(i: int, x: (int, u32, u64)) -> InstanceRecord {
    InstanceRecord {
        source: x.0 as usize,
        custom_index_and_mask: packed_24_8(i as u32, INSTANCE_MASK),
        sbt_offset_and_flags: packed_24_8(x.1, INSTANCE_FLAGS),
        blas_reference: x.2,
    }
}

/// Builds the instance records of a frame: one per sphere (hit record 0,
/// the shared sphere structure), then one per mesh whose structure is
/// published in `blas` and whose hit record is known in `offsets`; meshes
/// that are not ready are skipped. Instance `i` gets custom index `i`.
pub fn resolve_instances(
    sphere_count: usize,
    sphere_blas: u64,
    meshes: &Vec<u64>,
    blas: &HashMap<u64, u64>,
    offsets: &HashMap<u64, u32>,
) -> (r: Vec<InstanceRecord>)
    requires
        sphere_count + meshes@.len() <= u32::MAX,
    ensures
        ({
            let s = resolved_spec(sphere_count as nat, sphere_blas, meshes@, blas@, offsets@);
            &&& r@.len() == s.len()
            &&& forall|i: int| 0 <= i < s.len() ==> #[trigger] r@[i] == instance_spec(i, s[i])
        }),
{
    let mut r: Vec<InstanceRecord> = Vec::new();
    let mut i: usize = 0;
    while i < sphere_count
        invariant
            i <= sphere_count,
            sphere_count + meshes@.len() <= u32::MAX,
            r@.len() == i,
            forall|j: int| 0 <= j < i ==> #[trigger] r@[j] == instance_spec(j, (j, 0u32, sphere_blas)),
        decreases sphere_count - i,
    {
        let custom = pack_24_8(i as u32, INSTANCE_MASK);
        let offset = pack_24_8(0, INSTANCE_FLAGS);
        r.push(InstanceRecord {
            source: i,
            custom_index_and_mask: custom,
            sbt_offset_and_flags: offset,
            blas_reference: sphere_blas,
        });
        i = i + 1;
    }
    assert(meshes@.take(0) =~= seq![]);
    let mut j: usize = 0;
    while j < meshes.len()
        invariant
            j <= meshes@.len(),
            sphere_count + meshes@.len() <= u32::MAX,
            ({
                let s = resolved_spec(sphere_count as nat, sphere_blas, meshes@.take(j as int), blas@, offsets@);
                &&& r@.len() == s.len()
                &&& s.len() <= sphere_count + j
                &&& forall|k: int| 0 <= k < s.len() ==> #[trigger] r@[k] == instance_spec(k, s[k])
            }),
        decreases meshes@.len() - j,
    {
        let m = meshes[j];
        proof {
            assert(meshes@.take(j as int + 1).drop_last() =~= meshes@.take(j as int));
            assert(meshes@.take(j as int + 1).last() == m);
        }
        match blas.get(&m) {
            Some(reference) => match offsets.get(&m) {
                Some(hit_offset) => {
                    let n = r.len();
                    let custom = pack_24_8(n as u32, INSTANCE_MASK);
                    let offset = pack_24_8(*hit_offset, INSTANCE_FLAGS);
                    r.push(InstanceRecord {
                        source: sphere_count + j,
                        custom_index_and_mask: custom,
                        sbt_offset_and_flags: offset,
                        blas_reference: *reference,
                    });
                },
                None => {},
            },
            None => {},
        }
        j = j + 1;
    }
    assert(meshes@.take(meshes@.len() as int) =~= meshes@);
    r
}

/// The retirement a resize plan queues, if any.
pub open spec fn plan_retires(p: ResizePlan) -> Seq<CleanupEvent> {
    match p {
        ResizePlan::Replace { retire: Some(e), nr_elements: _ } => seq![e],
        _ => Seq::<CleanupEvent>::empty(),
    }
}

fn push_retire(out: &mut Vec<CleanupEvent>, p: ResizePlan)
    ensures
        final(out)@ == old(out)@ + plan_retires(p),
{
    match p {
        ResizePlan::Replace { retire: Some(e), nr_elements: _ } => out.push(e),
        _ => {},
    }
    assert(final(out)@ =~= old(out)@ + plan_retires(p));
}

/// Everything one frame's top-level rebuild changes, in order.
pub struct TlasUpdate {
    pub instances: ResizePlan,
    pub storage: ResizePlan,
    pub scratch: ResizePlan,
    /// Destructions to queue before the build is submitted, in order: the
    /// old instance buffer, the old structure, its old buffer, the old
    /// scratch buffer (each only when it is replaced or exists).
    pub retire: Vec<CleanupEvent>,
}

/// The top-level structure of the scene with the buffers it reuses across
/// rebuilds.
pub struct Scene {
    pub tlas: AccelerationStructure,
    pub scratch_buffer: Buffer,
    pub instance_buffer: Buffer,
}

impl Scene {
    /// A scene with nothing built and every buffer absent.
    pub fn new() -> (r: Scene)
        ensures
            r.tlas.handle == AsHandle::NotBuilt,
            r.tlas.buffer.nr_elements == 0,
            r.scratch_buffer.nr_elements == 0 && r.scratch_buffer.handle == 0,
            r.instance_buffer.nr_elements == 0 && r.instance_buffer.handle == 0,
    {
        Scene {
            tlas: AccelerationStructure::not_built(),
            scratch_buffer: Buffer::null(0, MemoryKind::DeviceLocal),
            instance_buffer: Buffer::null(0, MemoryKind::HostVisible),
        }
    }

    /// The scene can be traced.
    pub fn is_ready(&self) -> (r: bool)
        ensures
            r == (self.tlas.handle is Built),
    {
        self.tlas.is_ready()
    }

    /// How the instance buffer must change for `instance_count` instances;
    /// `None` when there are no instances, so nothing is built this frame.
    pub fn plan_instances(&self, instance_count: u64) -> (r: Option<ResizePlan>)
        ensures
            r is None <==> instance_count == 0,
            r matches Some(p) ==> (p == ResizePlan::Keep <==> self.instance_buffer.nr_elements == instance_count),
            r matches Some(ResizePlan::Replace { retire, nr_elements }) ==> nr_elements == instance_count
                && retire == (if self.instance_buffer.handle == 0 {
                    None::<CleanupEvent>
                } else {
                    Some(CleanupEvent::Buffer(self.instance_buffer.handle))
                }),
    {
        if instance_count == 0 {
            None
        } else {
            Some(plan_resize(&self.instance_buffer, instance_count))
        }
    }

    /// Installs a newly created instance buffer.
    pub fn set_instance_buffer(&mut self, b: Buffer)
        ensures
            final(self).instance_buffer == b,
            final(self).tlas == old(self).tlas,
            final(self).scratch_buffer == old(self).scratch_buffer,
    {
        self.instance_buffer = b;
    }

    /// The structure is rebuilt every frame: the old object is retired (it
    /// is queued before the new build is submitted) and the scene is marked
    /// not built until the new one is installed. Its buffer is kept.
    pub fn retire_tlas(&mut self) -> (r: Option<CleanupEvent>)
        ensures
            r == match old(self).tlas.handle {
                AsHandle::Built(h) => Some(CleanupEvent::AccelerationStructure(h)),
                AsHandle::NotBuilt => None::<CleanupEvent>,
            },
            final(self).tlas.handle == AsHandle::NotBuilt,
            final(self).tlas.buffer == old(self).tlas.buffer,
            final(self).instance_buffer == old(self).instance_buffer,
            final(self).scratch_buffer == old(self).scratch_buffer,
    {
        let r = match self.tlas.handle {
            AsHandle::Built(h) => Some(CleanupEvent::AccelerationStructure(h)),
            AsHandle::NotBuilt => None,
        };
        self.tlas.handle = AsHandle::NotBuilt;
        r
    }

    /// How the structure's backing buffer must change to hold `size` bytes.
    pub fn plan_tlas_storage(&self, size: u64) -> (r: ResizePlan)
        ensures
            (r == ResizePlan::Keep) <==> self.tlas.buffer.nr_elements == size,
            r matches ResizePlan::Replace { retire, nr_elements } ==> nr_elements == size
                && retire == (if self.tlas.buffer.handle == 0 {
                    None::<CleanupEvent>
                } else {
                    Some(CleanupEvent::Buffer(self.tlas.buffer.handle))
                }),
    {
        plan_resize(&self.tlas.buffer, size)
    }

    /// Installs a newly created backing buffer for the structure.
    pub fn set_tlas_buffer(&mut self, b: Buffer)
        ensures
            final(self).tlas.buffer == b,
            final(self).tlas.handle == old(self).tlas.handle,
            final(self).tlas.address == old(self).tlas.address,
            final(self).instance_buffer == old(self).instance_buffer,
            final(self).scratch_buffer == old(self).scratch_buffer,
    {
        self.tlas.buffer = b;
    }

    /// How the scratch buffer must change to hold `padded_size` bytes.
    pub fn plan_scratch(&self, padded_size: u64) -> (r: ResizePlan)
        ensures
            (r == ResizePlan::Keep) <==> self.scratch_buffer.nr_elements == padded_size,
            r matches ResizePlan::Replace { retire, nr_elements } ==> nr_elements == padded_size
                && retire == (if self.scratch_buffer.handle == 0 {
                    None::<CleanupEvent>
                } else {
                    Some(CleanupEvent::Buffer(self.scratch_buffer.handle))
                }),
    {
        plan_resize(&self.scratch_buffer, padded_size)
    }

    /// Installs a newly created scratch buffer.
    pub fn set_scratch_buffer(&mut self, b: Buffer)
        ensures
            final(self).scratch_buffer == b,
            final(self).tlas == old(self).tlas,
            final(self).instance_buffer == old(self).instance_buffer,
    {
        self.scratch_buffer = b;
    }

    /// Records the structure just built on the current backing buffer.
    pub fn set_tlas_built(&mut self, handle: u64, address: u64)
        ensures
            final(self).tlas.handle == AsHandle::Built(handle),
            final(self).tlas.address == address,
            final(self).tlas.buffer == old(self).tlas.buffer,
            final(self).instance_buffer == old(self).instance_buffer,
            final(self).scratch_buffer == old(self).scratch_buffer,
    {
        self.tlas.handle = AsHandle::Built(handle);
        self.tlas.address = address;
    }

    /// Plans one frame's rebuild for `instance_count` instances whose build
    /// needs `tlas_size` bytes of storage and `build_scratch_size` bytes of
    /// scratch aligned to `scratch_alignment`. `None` when there are no
    /// instances (nothing is built) or the padded scratch size overflows.
    /// The structure itself is always rebuilt; each buffer is recreated
    /// only when its size changes.
    pub fn plan_tlas_update(
        &self,
        instance_count: u64,
        tlas_size: u64,
        build_scratch_size: u64,
        scratch_alignment: u64,
    ) -> (r: Option<TlasUpdate>)
        ensures
            r is None <==> instance_count == 0 || build_scratch_size + scratch_alignment > u64::MAX,
            r matches Some(u) ==> {
                &&& u.instances == (if self.instance_buffer.nr_elements == instance_count {
                    ResizePlan::Keep
                } else {
                    ResizePlan::Replace {
                        retire: if self.instance_buffer.handle == 0 {
                            None::<CleanupEvent>
                        } else {
                            Some(CleanupEvent::Buffer(self.instance_buffer.handle))
                        },
                        nr_elements: instance_count,
                    }
                })
                &&& u.storage == (if self.tlas.buffer.nr_elements == tlas_size {
                    ResizePlan::Keep
                } else {
                    ResizePlan::Replace {
                        retire: if self.tlas.buffer.handle == 0 {
                            None::<CleanupEvent>
                        } else {
                            Some(CleanupEvent::Buffer(self.tlas.buffer.handle))
                        },
                        nr_elements: tlas_size,
                    }
                })
                &&& u.scratch == (if self.scratch_buffer.nr_elements == build_scratch_size + scratch_alignment {
                    ResizePlan::Keep
                } else {
                    ResizePlan::Replace {
                        retire: if self.scratch_buffer.handle == 0 {
                            None::<CleanupEvent>
                        } else {
                            Some(CleanupEvent::Buffer(self.scratch_buffer.handle))
                        },
                        nr_elements: (build_scratch_size + scratch_alignment) as u64,
                    }
                })
                &&& u.retire@ == plan_retires(u.instances) + match self.tlas.handle {
                    AsHandle::Built(h) => seq![CleanupEvent::AccelerationStructure(h)],
                    AsHandle::NotBuilt => Seq::<CleanupEvent>::empty(),
                } + plan_retires(u.storage) + plan_retires(u.scratch)
            },
    {
        if instance_count == 0 {
            return None;
        }
        let padded = match build_scratch_size.checked_add(scratch_alignment) {
            Some(n) => n,
            None => return None,
        };
        let instances = plan_resize(&self.instance_buffer, instance_count);
        let storage = plan_resize(&self.tlas.buffer, tlas_size);
        let scratch = plan_resize(&self.scratch_buffer, padded);
        let mut retire: Vec<CleanupEvent> = Vec::new();
        push_retire(&mut retire, instances);
        match self.tlas.handle {
            AsHandle::Built(h) => retire.push(CleanupEvent::AccelerationStructure(h)),
            AsHandle::NotBuilt => {},
        }
        let ghost mid = retire@;
        push_retire(&mut retire, storage);
        push_retire(&mut retire, scratch);
        proof {
            match self.tlas.handle {
                AsHandle::Built(h) => {
                    assert(mid =~= plan_retires(instances) + seq![CleanupEvent::AccelerationStructure(h)]);
                },
                AsHandle::NotBuilt => {
                    assert(mid =~= plan_retires(instances) + Seq::<CleanupEvent>::empty());
                },
            }
        }
        Some(TlasUpdate { instances, storage, scratch, retire })
    }

    /// Everything the scene owns, queued for destruction at shutdown: the
    /// structure object before the buffer backing it, then the instance and
    /// scratch buffers. Absent objects queue nothing.
    pub fn destroy_events(&self) -> (r: Vec<CleanupEvent>)
        ensures
            r@ == as_retire(self.tlas.handle) + buffer_retire(self.tlas.buffer) + buffer_retire(
                self.instance_buffer,
            ) + buffer_retire(self.scratch_buffer),
    {
        let mut r: Vec<CleanupEvent> = Vec::new();
        push_as_retire(&mut r, self.tlas.handle);
        push_buffer_retire(&mut r, &self.tlas.buffer);
        push_buffer_retire(&mut r, &self.instance_buffer);
        push_buffer_retire(&mut r, &self.scratch_buffer);
        assert(r@ =~= as_retire(self.tlas.handle) + buffer_retire(self.tlas.buffer) + buffer_retire(
            self.instance_buffer,
        ) + buffer_retire(self.scratch_buffer));
        r
    }
}

} // verus!
