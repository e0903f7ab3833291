use std::collections::HashMap;
use vstd::prelude::*;
use vstd::std_specs::hash::group_hash_axioms;
use crate::align::{align_up, aligned_size_u64, lemma_align_up};
use crate::buffer::{plan_resize, Buffer, ResizePlan};
use crate::destruction::CleanupEvent;

verus! {

broadcast use group_hash_axioms;

/// Bytes of a raw shader group handle as stored in a record.
pub const GROUP_HANDLE_SIZE: u64 = 32;

/// Bytes of a triangle hit record: the handle, then the device addresses of
/// the vertex buffer, the index buffer and the geometry-to-first-index table.
pub const TRIANGLE_HIT_RECORD_SIZE: u64 = 56;

/// Bytes of a sphere hit record: the handle alone.
pub const SPHERE_HIT_RECORD_SIZE: u64 = 32;

/// The hardware's shader-group properties that the layout depends on.
#[derive(Clone, Copy, Debug, PartialEq, Eq, Structural)]
pub struct GroupProperties {
    pub handle_size: u32,
    pub handle_alignment: u32,
    pub base_alignment: u32,
}

impl GroupProperties {
    /// Both alignments are positive.
    pub open spec fn wf(&self) -> bool {
        &&& self.handle_alignment > 0
        &&& self.base_alignment > 0
    }
}

/// One region of the table: where it starts, the distance between records
/// and its total byte size.
#[derive(Clone, Copy, Debug, PartialEq, Eq, Structural)]
pub struct Region {
    pub device_address: u64,
    pub stride: u64,
    pub size: u64,
}

/// The three regions of a shader binding table, laid out back to back.
#[derive(Clone, Copy, Debug, PartialEq, Eq, Structural)]
pub struct SbtLayout {
    pub raygen: Region,
    pub miss: Region,
    pub hit: Region,
}

pub open spec fn handle_size_aligned(p: GroupProperties) -> int {
    align_up(p.handle_size as int, p.handle_alignment as int)
}

pub open spec fn raygen_size(p: GroupProperties) -> int {
    align_up(handle_size_aligned(p), p.base_alignment as int)
}

pub open spec fn miss_size(p: GroupProperties) -> int {
    align_up(handle_size_aligned(p), p.base_alignment as int)
}

/// The larger of the two hit record sizes: every hit record gets that room.
pub open spec fn hit_record_size() -> int {
    if TRIANGLE_HIT_RECORD_SIZE >= SPHERE_HIT_RECORD_SIZE {
        TRIANGLE_HIT_RECORD_SIZE as int
    } else {
        SPHERE_HIT_RECORD_SIZE as int
    }
}

pub open spec fn hit_stride(p: GroupProperties) -> int {
    align_up(hit_record_size(), p.base_alignment as int)
}

pub open spec fn hit_size(p: GroupProperties, record_count: int) -> int {
    align_up(record_count * hit_stride(p), p.base_alignment as int)
}

/// Total bytes of the table.
pub open spec fn sbt_size(p: GroupProperties, record_count: int) -> int {
    raygen_size(p) + miss_size(p) + hit_size(p, record_count)
}

/// The layout of a table of `record_count` hit records whose buffer starts
/// at `base`.
pub open spec fn layout_spec(p: GroupProperties, record_count: int, base: int) -> SbtLayout {
    SbtLayout {
        raygen: Region {
            device_address: base as u64,
            stride: raygen_size(p) as u64,
            size: raygen_size(p) as u64,
        },
        miss: Region {
            device_address: (base + raygen_size(p)) as u64,
            stride: handle_size_aligned(p) as u64,
            size: miss_size(p) as u64,
        },
        hit: Region {
            device_address: (base + raygen_size(p) + miss_size(p)) as u64,
            stride: hit_stride(p) as u64,
            size: hit_size(p, record_count) as u64,
        },
    }
}

/// The layout fits in 64-bit sizes and addresses.
pub open spec fn layout_fits(p: GroupProperties, record_count: int, base: int) -> bool {
    &&& record_count * hit_stride(p) + p.base_alignment - 1 <= u64::MAX
    &&& base + sbt_size(p, record_count) <= u64::MAX
}

proof fn lemma_sizes_bounded(p: GroupProperties, record_count: int)
    requires
        p.wf(),
        record_count >= 0,
    ensures
        p.handle_size <= handle_size_aligned(p) < p.handle_size + p.handle_alignment,
        handle_size_aligned(p) % p.handle_alignment as int == 0,
        handle_size_aligned(p) <= raygen_size(p) < handle_size_aligned(p) + p.base_alignment,
        raygen_size(p) % p.base_alignment as int == 0,
        hit_record_size() <= hit_stride(p) < hit_record_size() + p.base_alignment,
        hit_stride(p) % p.base_alignment as int == 0,
        record_count * hit_stride(p) >= 0,
        hit_size(p, record_count) >= 0,
        hit_size(p, record_count) % p.base_alignment as int == 0,
{
    lemma_align_up(p.handle_size as int, p.handle_alignment as int);
    lemma_align_up(handle_size_aligned(p), p.base_alignment as int);
    lemma_align_up(hit_record_size(), p.base_alignment as int);
    assert(record_count * hit_stride(p) >= 0) by (nonlinear_arith)
        requires record_count >= 0, hit_stride(p) >= 0;
    lemma_align_up(record_count * hit_stride(p), p.base_alignment as int);
}

proof fn lemma_multiple_transitive(x: int, b: int, h: int)
    requires
        b > 0,
        h > 0,
        x % b == 0,
        b % h == 0,
    ensures
        x % h == 0,
{
    let q = x / b;
    let t = b / h;
    assert(x == q * b) by (nonlinear_arith)
        requires b > 0, x % b == 0, q == x / b;
    assert(b == t * h) by (nonlinear_arith)
        requires h > 0, b % h == 0, t == b / h;
    assert(x == (q * t) * h) by (nonlinear_arith)
        requires x == q * b, b == t * h;
    assert((q * t) * h % h == 0) by (nonlinear_arith)
        requires h > 0;
}

/// Every region's size is a multiple of the base alignment and every
/// region's stride a multiple of the handle alignment (the API guarantees
/// that the base alignment is a multiple of the handle alignment); each
/// stride has room for its record: a handle in the ray-generation and miss
/// regions, the larger hit record in the hit region. Sizes and strides
/// depend only on the properties and the record count: recomputing the
/// table with these unchanged gives the same sizes, wherever its buffer lies.
pub proof fn lemma_sbt_layout_aligned(p: GroupProperties, record_count: int, base: int, other_base: int)
    requires
        p.wf(),
        p.base_alignment % p.handle_alignment == 0,
        record_count >= 0,
        base >= 0,
        layout_fits(p, record_count, base),
    ensures
        ({
            let l = layout_spec(p, record_count, base);
            &&& l.raygen.stride >= p.handle_size
            &&& l.miss.stride >= p.handle_size
            &&& l.hit.stride >= TRIANGLE_HIT_RECORD_SIZE
            &&& l.hit.stride >= SPHERE_HIT_RECORD_SIZE
        }),
        ({
            let l = layout_spec(p, record_count, base);
            &&& l.raygen.size % p.base_alignment as u64 == 0
            &&& l.miss.size % p.base_alignment as u64 == 0
            &&& l.hit.size % p.base_alignment as u64 == 0
            &&& l.raygen.stride % p.handle_alignment as u64 == 0
            &&& l.miss.stride % p.handle_alignment as u64 == 0
            &&& l.hit.stride % p.handle_alignment as u64 == 0
        }),
        ({
            let l = layout_spec(p, record_count, base);
            let m = layout_spec(p, record_count, other_base);
            &&& l.raygen.size == m.raygen.size && l.raygen.stride == m.raygen.stride
            &&& l.miss.size == m.miss.size && l.miss.stride == m.miss.stride
            &&& l.hit.size == m.hit.size && l.hit.stride == m.hit.stride
        }),
{
    lemma_sizes_bounded(p, record_count);
    lemma_multiple_transitive(raygen_size(p), p.base_alignment as int, p.handle_alignment as int);
    lemma_multiple_transitive(hit_stride(p), p.base_alignment as int, p.handle_alignment as int);
}

/// Computes the three regions for `record_count` hit records placed in a
/// buffer at `base`; `None` when the sizes or addresses overflow 64 bits.
pub fn compute_layout(p: GroupProperties, record_count: u64, base: u64) -> (r: Option<SbtLayout>)
    requires
        p.wf(),
    ensures
        r is Some <==> layout_fits(p, record_count as int, base as int),
        r matches Some(l) ==> l == layout_spec(p, record_count as int, base as int),
{
    proof {
        lemma_sizes_bounded(p, record_count as int);
    }
    let hsa = aligned_size_u64(p.handle_size as u64, p.handle_alignment as u64);
    let rg = aligned_size_u64(hsa, p.base_alignment as u64);
    let miss = rg;
    let record_size = if TRIANGLE_HIT_RECORD_SIZE >= SPHERE_HIT_RECORD_SIZE {
        TRIANGLE_HIT_RECORD_SIZE
    } else {
        SPHERE_HIT_RECORD_SIZE
    };
    let stride = aligned_size_u64(record_size, p.base_alignment as u64);
    let hit_bytes = match record_count.checked_mul(stride) {
        Some(b) => b,
        None => return None,
    };
    if hit_bytes > u64::MAX - (p.base_alignment as u64 - 1) {
        return None;
    }
    let hit = aligned_size_u64(hit_bytes, p.base_alignment as u64);
    if base > u64::MAX - rg || base + rg > u64::MAX - miss || base + rg + miss > u64::MAX - hit {
        return None;
    }
    Some(SbtLayout {
        raygen: Region { device_address: base, stride: rg, size: rg },
        miss: Region { device_address: base + rg, stride: hsa, size: miss },
        hit: Region { device_address: base + rg + miss, stride, size: hit },
    })
}

/// Total byte size of the table that a layout describes.
pub fn layout_total_size(l: &SbtLayout) -> (r: u64)
    requires
        l.raygen.size + l.miss.size + l.hit.size <= u64::MAX,
    ensures
        r == l.raygen.size + l.miss.size + l.hit.size,
{
    l.raygen.size + l.miss.size + l.hit.size
}

/// What to do with the table's host-visible buffer for layout `l`: it is
/// reused when its byte size already matches the table, and otherwise
/// replaced by a buffer of the table's size, the old one (if any) being
/// queued for destruction first.
pub fn plan_table_buffer(current: &Buffer, l: &SbtLayout) -> (r: ResizePlan)
    requires
        l.raygen.size + l.miss.size + l.hit.size <= u64::MAX,
    ensures
        (r == ResizePlan::Keep) <==> current.nr_elements == l.raygen.size + l.miss.size + l.hit.size,
        r matches ResizePlan::Replace { retire, nr_elements } ==> {
            &&& nr_elements == l.raygen.size + l.miss.size + l.hit.size
            &&& retire == if current.handle == 0 {
                None::<CleanupEvent>
            } else {
                Some(CleanupEvent::Buffer(current.handle))
            }
        },
{
    plan_resize(current, layout_total_size(l))
}

/// Hit-record indices of the triangle meshes: record 0 is the sphere
/// record, mesh `ids[i]` gets record `i + 1`.
pub fn assign_hit_records(ids: &Vec<u64>) -> (r: HashMap<u64, u32>)
    requires
        ids@.no_duplicates(),
        ids@.len() < u32::MAX,
    ensures
        r@.dom() == ids@.to_set(),
        forall|i: int| 0 <= i < ids@.len() ==> r@[#[trigger] ids@[i]] == i + 1,
{
    let mut m: HashMap<u64, u32> = HashMap::new();
    let mut i: usize = 0;
    while i < ids.len()
        invariant
            i <= ids@.len(),
            ids@.len() < u32::MAX,
            ids@.no_duplicates(),
            m@.dom() == ids@.take(i as int).to_set(),
            forall|j: int| 0 <= j < i ==> m@[#[trigger] ids@[j]] == j + 1,
        decreases ids@.len() - i,
    {
        let ghost before = m@;
        m.insert(ids[i], (i + 1) as u32);
        proof {
            assert(ids@.take(i as int + 1) =~= ids@.take(i as int).push(ids@[i as int]));
            ids@.take(i as int).lemma_push_to_set_commute(ids@[i as int]);
            assert(ids@.take(i as int + 1).to_set() =~= ids@.take(i as int).to_set().insert(ids@[i as int]));
            assert forall|j: int| 0 <= j < i + 1 implies m@[#[trigger] ids@[j]] == j + 1 by {
                if j < i {
                    assert(ids@[j] != ids@[i as int]);
                }
            }
        }
        i = i + 1;
    }
    assert(ids@.take(ids@.len() as int) =~= ids@);
    m
}

} // verus!
