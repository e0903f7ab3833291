use vstd::prelude::*;
use std::collections::HashMap;
use vstd::std_specs::hash::group_hash_axioms;
use crate::sbt::{assign_hit_records, SbtLayout, GROUP_HANDLE_SIZE, TRIANGLE_HIT_RECORD_SIZE};

verus! {

broadcast use group_hash_axioms;

/// One hit record of the table, by primitive type.
#[derive(Clone, Copy, Debug, PartialEq, Eq, Structural)]
pub enum HitRecord {
    /// A triangle mesh: device addresses of its vertex buffer, index buffer
    /// and geometry-to-first-index table.
    Triangle { vertex_buffer: u64, index_buffer: u64, geometry_to_index_offset: u64 },
    /// The procedural sphere: no payload after the handle.
    Sphere,
}

/// A prepared triangle mesh as the hit region sees it: its identity and the
/// device addresses its hit shader reads.
#[derive(Clone, Copy, Debug, PartialEq, Eq, Structural)]
pub struct MeshHitData {
    pub id: u64,
    pub vertex_buffer: u64,
    pub index_buffer: u64,
    pub geometry_to_index_offset: u64,
}

/// The hit record of a mesh.
pub open spec fn mesh_record(m: MeshHitData) -> HitRecord {
    HitRecord::Triangle {
        vertex_buffer: m.vertex_buffer,
        index_buffer: m.index_buffer,
        geometry_to_index_offset: m.geometry_to_index_offset,
    }
}

/// Identities of the meshes, in order.
pub open spec fn mesh_ids(meshes: Seq<MeshHitData>) -> Seq<u64> {
    meshes.map_values(|m: MeshHitData| m.id)
}

/// The hit records of the table and the record index of each mesh: the
/// sphere record comes first, then mesh `i` as record `i + 1`, so an
/// instance of a mesh finds that mesh's record at its offset.
pub fn build_hit_region(meshes: &Vec<MeshHitData>) -> (r: (Vec<HitRecord>, HashMap<u64, u32>))
    requires
        mesh_ids(meshes@).no_duplicates(),
        meshes@.len() < u32::MAX,
    ensures
        r.0@.len() == meshes@.len() + 1,
        r.0@[0] == HitRecord::Sphere,
        forall|i: int| 0 <= i < meshes@.len() ==> r.0@[i + 1] == mesh_record(#[trigger] meshes@[i]),
        r.1@.dom() == mesh_ids(meshes@).to_set(),
        forall|i: int| 0 <= i < meshes@.len() ==> r.1@[(#[trigger] meshes@[i]).id] == i + 1,
        forall|i: int| 0 <= i < meshes@.len() ==> r.0@[r.1@[(#[trigger] meshes@[i]).id] as int] == mesh_record(
            meshes@[i],
        ),
{
    let mut records: Vec<HitRecord> = Vec::new();
    let mut ids: Vec<u64> = Vec::new();
    records.push(HitRecord::Sphere);
    let mut i: usize = 0;
    while i < meshes.len()
        invariant
            i <= meshes@.len(),
            records@.len() == i + 1,
            records@[0] == HitRecord::Sphere,
            forall|j: int| 0 <= j < i ==> records@[j + 1] == mesh_record(#[trigger] meshes@[j]),
            ids@ == mesh_ids(meshes@).take(i as int),
        decreases meshes@.len() - i,
    {
        let m = meshes[i];
        records.push(HitRecord::Triangle {
            vertex_buffer: m.vertex_buffer,
            index_buffer: m.index_buffer,
            geometry_to_index_offset: m.geometry_to_index_offset,
        });
        ids.push(m.id);
        proof {
            assert(ids@ =~= mesh_ids(meshes@).take(i as int + 1));
            assert forall|j: int| 0 <= j < i + 1 implies records@[j + 1] == mesh_record(#[trigger] meshes@[j]) by {
                if j < i {
                }
            }
        }
        i = i + 1;
    }
    assert(ids@ =~= mesh_ids(meshes@));
    let offsets = assign_hit_records(&ids);
    proof {
        assert forall|i: int| 0 <= i < meshes@.len() implies offsets@[(#[trigger] meshes@[i]).id] == i + 1 by {
            assert(ids@[i] == meshes@[i].id);
        }
    }
    (records, offsets)
}

/// Number of shader groups of the ray-tracing pipeline: ray generation,
/// miss, triangle hit and sphere hit, in that order.
pub const GROUP_COUNT: usize = 4;

/// The raw handles of the pipeline's shader groups.
pub struct GroupHandles {
    pub raygen: Vec<u8>,
    pub miss: Vec<u8>,
    pub triangle_hit: Vec<u8>,
    pub sphere_hit: Vec<u8>,
}

fn copy_range(data: &Vec<u8>, start: usize, len: usize) -> (r: Vec<u8>)
    requires
        start + len <= data@.len(),
    ensures
        r@ == data@.subrange(start as int, start + len),
{
    let mut r: Vec<u8> = Vec::new();
    let n = data.len();
    let mut k: usize = 0;
    while k < len
        invariant
            start + len <= data@.len(),
            n == data@.len(),
            k <= len,
            r@ == data@.subrange(start as int, start + k),
        decreases len - k,
    {
        r.push(data[start + k]);
        k = k + 1;
        assert(r@ =~= data@.subrange(start as int, start + k));
    }
    r
}

/// Splits the bytes the driver returns for the four shader groups into one
/// handle each. Only 32-byte handles are supported, and the data must hold
/// exactly four of them; otherwise `None`.
pub fn group_handles_from_bytes(data: &Vec<u8>, handle_size: u32) -> (r: Option<GroupHandles>)
    ensures
        r is Some <==> handle_size == GROUP_HANDLE_SIZE && data@.len() == GROUP_COUNT * GROUP_HANDLE_SIZE,
        r matches Some(h) ==> {
            &&& h.raygen@ == data@.subrange(0, 32)
            &&& h.miss@ == data@.subrange(32, 64)
            &&& h.triangle_hit@ == data@.subrange(64, 96)
            &&& h.sphere_hit@ == data@.subrange(96, 128)
        },
{
    if handle_size as u64 != GROUP_HANDLE_SIZE || data.len() != GROUP_COUNT * 32 {
        return None;
    }
    Some(GroupHandles {
        raygen: copy_range(data, 0, 32),
        miss: copy_range(data, 32, 32),
        triangle_hit: copy_range(data, 64, 32),
        sphere_hit: copy_range(data, 96, 32),
    })
}

/// Byte `k` (least significant first) of `x`.
pub open spec fn le_byte(x: nat, k: nat) -> nat
    decreases k,
{
    if k == 0 { x % 256 } else { le_byte(x / 256, (k - 1) as nat) }
}

/// `out[at..at + src.len()]` holds `src`.
pub open spec fn holds_bytes(out: Seq<u8>, at: int, src: Seq<u8>) -> bool {
    forall|k: int| 0 <= k < src.len() ==> #[trigger] out[at + k] == src[k]
}

/// `out[at..at + 8]` holds `x` in little-endian order.
pub open spec fn holds_u64(out: Seq<u8>, at: int, x: u64) -> bool {
    forall|k: int| 0 <= k < 8 ==> #[trigger] out[at + k] == le_byte(x as nat, k as nat)
}

/// Byte offset of hit record `i` from the start of the table.
pub open spec fn record_offset(l: SbtLayout, i: int) -> int {
    l.raygen.size + l.miss.size + i * l.hit.stride
}

/// Hit record `i` is written: its handle, then for a triangle its three
/// addresses at bytes 32, 40 and 48 of the record.
pub open spec fn record_written(
    out: Seq<u8>,
    l: SbtLayout,
    e: HitRecord,
    i: int,
    triangle_handle: Seq<u8>,
    sphere_handle: Seq<u8>,
) -> bool {
    let at = record_offset(l, i);
    match e {
        HitRecord::Triangle { vertex_buffer, index_buffer, geometry_to_index_offset } => {
            &&& holds_bytes(out, at, triangle_handle)
            &&& holds_u64(out, at + 32, vertex_buffer)
            &&& holds_u64(out, at + 40, index_buffer)
            &&& holds_u64(out, at + 48, geometry_to_index_offset)
        },
        HitRecord::Sphere => holds_bytes(out, at, sphere_handle),
    }
}

/// Bytes a hit record occupies.
pub open spec fn record_len(e: HitRecord) -> int {
    match e {
        HitRecord::Triangle { .. } => TRIANGLE_HIT_RECORD_SIZE as int,
        HitRecord::Sphere => GROUP_HANDLE_SIZE as int,
    }
}

/// Byte `k` of the table belongs to the ray-generation handle, the miss
/// handle, or one of the first `n` hit records.
pub open spec fn covered(l: SbtLayout, records: Seq<HitRecord>, n: int, k: int) -> bool {
    let h = l.raygen.size + l.miss.size;
    let s = l.hit.stride as int;
    ||| 0 <= k < GROUP_HANDLE_SIZE
    ||| l.raygen.size <= k < l.raygen.size + GROUP_HANDLE_SIZE
    ||| (k >= h && (k - h) / s < n && (k - h) % s < record_len(records[(k - h) / s]))
}

proof fn lemma_in_record(l: SbtLayout, records: Seq<HitRecord>, i: int, t: int)
    requires
        0 <= i < records.len(),
        0 <= t < record_len(records[i]),
        l.hit.stride >= TRIANGLE_HIT_RECORD_SIZE,
    ensures
        covered(l, records, i + 1, record_offset(l, i) + t),
{
    let h = l.raygen.size + l.miss.size;
    let s = l.hit.stride as int;
    let k = record_offset(l, i) + t;
    assert(k - h == i * s + t);
    vstd::arithmetic::div_mod::lemma_fundamental_div_mod_converse(k - h, s, i, t);
    assert(i * s >= 0) by (nonlinear_arith)
        requires i >= 0, s >= 0;
}

/// The layout has room for a handle in each single-record region and for
/// `n` records in the hit region, and the table's size fits in memory.
pub open spec fn table_fits(l: SbtLayout, n: int) -> bool {
    &&& l.raygen.size >= GROUP_HANDLE_SIZE
    &&& l.miss.size >= GROUP_HANDLE_SIZE
    &&& l.hit.stride >= TRIANGLE_HIT_RECORD_SIZE
    &&& n * l.hit.stride <= l.hit.size
    &&& l.raygen.size + l.miss.size + l.hit.size <= usize::MAX
    &&& l.hit.stride <= usize::MAX
}

fn write_bytes(out: &mut Vec<u8>, at: usize, src: &Vec<u8>)
    requires
        at + src@.len() <= old(out)@.len(),
        old(out)@.len() <= usize::MAX,
    ensures
        final(out)@.len() == old(out)@.len(),
        holds_bytes(final(out)@, at as int, src@),
        forall|j: int| 0 <= j < old(out)@.len() && !(at <= j < at + src@.len()) ==> final(out)@[j] == old(out)@[j],
{
    let mut k: usize = 0;
    while k < src.len()
        invariant
            at + src@.len() <= out@.len(),
            out@.len() <= usize::MAX,
            out@.len() == old(out)@.len(),
            k <= src@.len(),
            forall|t: int| 0 <= t < k ==> #[trigger] out@[at + t] == src@[t],
            forall|j: int| 0 <= j < old(out)@.len() && !(at <= j < at + k) ==> out@[j] == old(out)@[j],
        decreases src@.len() - k,
    {
        out[at + k] = src[k];
        k = k + 1;
    }
}

fn write_u64_le(out: &mut Vec<u8>, at: usize, x: u64)
    requires
        at + 8 <= old(out)@.len(),
        old(out)@.len() <= usize::MAX,
    ensures
        final(out)@.len() == old(out)@.len(),
        holds_u64(final(out)@, at as int, x),
        forall|j: int| 0 <= j < old(out)@.len() && !(at <= j < at + 8) ==> final(out)@[j] == old(out)@[j],
{
    let mut v: u64 = x;
    let mut k: usize = 0;
    while k < 8
        invariant
            at + 8 <= out@.len(),
            out@.len() <= usize::MAX,
            out@.len() == old(out)@.len(),
            k <= 8,
            forall|j: nat| #[trigger] le_byte(v as nat, j) == le_byte(x as nat, (k + j) as nat),
            forall|t: int| 0 <= t < k ==> #[trigger] out@[at + t] == le_byte(x as nat, t as nat),
            forall|j: int| 0 <= j < old(out)@.len() && !(at <= j < at + k) ==> out@[j] == old(out)@[j],
        decreases 8 - k,
    {
        assert(le_byte(v as nat, 0) == le_byte(x as nat, k as nat));
        out[at + k] = (v % 256) as u8;
        let ghost old_v = v;
        v = v / 256;
        assert forall|j: nat| #[trigger] le_byte(v as nat, j) == le_byte(x as nat, (k + 1 + j) as nat) by {
            assert(le_byte(old_v as nat, j + 1) == le_byte(v as nat, j));
            assert(le_byte(old_v as nat, j + 1) == le_byte(x as nat, (k + (j + 1)) as nat));
        }
        k = k + 1;
    }
}

proof fn lemma_record_bounds(l: SbtLayout, n: int, i: int)
    requires
        table_fits(l, n),
        0 <= i < n,
    ensures
        record_offset(l, i) + TRIANGLE_HIT_RECORD_SIZE <= l.raygen.size + l.miss.size + l.hit.size,
        forall|i2: int| 0 <= i2 < i ==> record_offset(l, i2) + TRIANGLE_HIT_RECORD_SIZE <= record_offset(l, i),
        record_offset(l, i) >= l.raygen.size + l.miss.size,
{
    let s = l.hit.stride as int;
    assert(i * s + s <= n * s) by (nonlinear_arith)
        requires 0 <= i < n, s >= 0;
    assert(i * s >= 0) by (nonlinear_arith)
        requires 0 <= i, s >= 0;
    assert forall|i2: int| 0 <= i2 < i implies record_offset(l, i2) + TRIANGLE_HIT_RECORD_SIZE
        <= record_offset(l, i) by {
        assert(i2 * s + s <= i * s) by (nonlinear_arith)
            requires 0 <= i2 < i, s >= 0;
    }
}

/// The bytes of a shader binding table: the ray-generation handle at the
/// start of its region, the miss handle at the start of the miss region, and
/// hit record `i` at `i` strides into the hit region. Bytes no record
/// covers are zero.
pub fn encode_table(
    l: &SbtLayout,
    raygen_handle: &Vec<u8>,
    miss_handle: &Vec<u8>,
    triangle_handle: &Vec<u8>,
    sphere_handle: &Vec<u8>,
    records: &Vec<HitRecord>,
) -> (out: Vec<u8>)
    requires
        raygen_handle@.len() == GROUP_HANDLE_SIZE,
        miss_handle@.len() == GROUP_HANDLE_SIZE,
        triangle_handle@.len() == GROUP_HANDLE_SIZE,
        sphere_handle@.len() == GROUP_HANDLE_SIZE,
        table_fits(*l, records@.len() as int),
    ensures
        out@.len() == l.raygen.size + l.miss.size + l.hit.size,
        holds_bytes(out@, 0, raygen_handle@),
        holds_bytes(out@, l.raygen.size as int, miss_handle@),
        forall|i: int| 0 <= i < records@.len() ==> record_written(
            out@, *l, #[trigger] records@[i], i, triangle_handle@, sphere_handle@),
        forall|k: int| 0 <= k < out@.len() && !covered(*l, records@, records@.len() as int, k) ==> out@[k] == 0,
{
    let total: usize = (l.raygen.size + l.miss.size + l.hit.size) as usize;
    let mut out: Vec<u8> = vec![0u8; total];
    write_bytes(&mut out, 0, raygen_handle);
    let miss_at: usize = l.raygen.size as usize;
    write_bytes(&mut out, miss_at, miss_handle);
    let hit_at: usize = (l.raygen.size + l.miss.size) as usize;
    let stride: usize = l.hit.stride as usize;
    let mut i: usize = 0;
    while i < records.len()
        invariant
            table_fits(*l, records@.len() as int),
            raygen_handle@.len() == GROUP_HANDLE_SIZE,
            miss_handle@.len() == GROUP_HANDLE_SIZE,
            triangle_handle@.len() == GROUP_HANDLE_SIZE,
            sphere_handle@.len() == GROUP_HANDLE_SIZE,
            out@.len() == total,
            total == l.raygen.size + l.miss.size + l.hit.size,
            miss_at == l.raygen.size,
            hit_at == l.raygen.size + l.miss.size,
            stride == l.hit.stride,
            i <= records@.len(),
            holds_bytes(out@, 0, raygen_handle@),
            holds_bytes(out@, l.raygen.size as int, miss_handle@),
            forall|i2: int| 0 <= i2 < i ==> record_written(
                out@, *l, #[trigger] records@[i2], i2, triangle_handle@, sphere_handle@),
            forall|k: int| 0 <= k < out@.len() && !covered(*l, records@, i as int, k) ==> out@[k] == 0,
        decreases records@.len() - i,
    {
        proof {
            lemma_record_bounds(*l, records@.len() as int, i as int);
        }
        let ghost before = out@;
        let at: usize = hit_at + i * stride;
        assert(at == record_offset(*l, i as int));
        match records[i] {
            HitRecord::Triangle { vertex_buffer, index_buffer, geometry_to_index_offset } => {
                write_bytes(&mut out, at, triangle_handle);
                let ghost s1 = out@;
                write_u64_le(&mut out, at + 32, vertex_buffer);
                let ghost s2 = out@;
                write_u64_le(&mut out, at + 40, index_buffer);
                let ghost s3 = out@;
                write_u64_le(&mut out, at + 48, geometry_to_index_offset);
                assert forall|k: int| 0 <= k < out@.len() && !(at <= k < at + 56) implies out@[k] == before[k] by {
                    assert(out@[k] == s3[k]);
                    assert(s3[k] == s2[k]);
                    assert(s2[k] == s1[k]);
                }
            },
            HitRecord::Sphere => {
                write_bytes(&mut out, at, sphere_handle);
            },
        }
        proof {
            assert(forall|j: int| 0 <= j < out@.len() && !(at <= j < at + record_len(records@[i as int]))
                ==> out@[j] == before[j]);
            assert(forall|j: int| 0 <= j < at ==> out@[j] == before[j]);
            assert forall|k: int| 0 <= k < out@.len() && !covered(*l, records@, i + 1, k) implies out@[k] == 0 by {
                if at <= k < at + record_len(records@[i as int]) {
                    lemma_in_record(*l, records@, i as int, k - at);
                }
                assert(out@[k] == before[k]);
                assert(!covered(*l, records@, i as int, k));
            }
            assert forall|i2: int| 0 <= i2 < i implies record_written(
                out@, *l, #[trigger] records@[i2], i2, triangle_handle@, sphere_handle@) by {
                assert(record_written(before, *l, records@[i2], i2, triangle_handle@, sphere_handle@));
                assert(record_offset(*l, i2) + TRIANGLE_HIT_RECORD_SIZE <= at);
                match records@[i2] {
                    HitRecord::Triangle { vertex_buffer, index_buffer, geometry_to_index_offset } => {
                        let a = record_offset(*l, i2);
                        assert forall|k: int| 0 <= k < 32 implies #[trigger] out@[a + k] == triangle_handle@[k] by {
                            assert(before[a + k] == triangle_handle@[k]);
                        }
                        assert forall|k: int| 0 <= k < 8 implies #[trigger] out@[a + 32 + k] == le_byte(vertex_buffer as nat, k as nat) by {
                            assert(before[a + 32 + k] == le_byte(vertex_buffer as nat, k as nat));
                        }
                        assert forall|k: int| 0 <= k < 8 implies #[trigger] out@[a + 40 + k] == le_byte(index_buffer as nat, k as nat) by {
                            assert(before[a + 40 + k] == le_byte(index_buffer as nat, k as nat));
                        }
                        assert forall|k: int| 0 <= k < 8 implies #[trigger] out@[a + 48 + k] == le_byte(geometry_to_index_offset as nat, k as nat) by {
                            assert(before[a + 48 + k] == le_byte(geometry_to_index_offset as nat, k as nat));
                        }
                    },
                    HitRecord::Sphere => {
                        let a = record_offset(*l, i2);
                        assert forall|k: int| 0 <= k < 32 implies #[trigger] out@[a + k] == sphere_handle@[k] by {
                            assert(before[a + k] == sphere_handle@[k]);
                        }
                    },
                }
            }
            assert forall|k: int| 0 <= k < 32 implies #[trigger] out@[0 + k] == raygen_handle@[k] by {
                assert(before[0 + k] == raygen_handle@[k]);
            }
            assert forall|k: int| 0 <= k < 32 implies #[trigger] out@[l.raygen.size + k] == miss_handle@[k] by {
                assert(before[l.raygen.size + k] == miss_handle@[k]);
            }
        }
        i = i + 1;
    }
    out
}

} // verus!
