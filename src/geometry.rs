use vstd::prelude::*;

verus! {

/// Counts read from one primitive (sub-mesh) of a source mesh, together with
/// its index data. `vertex_count` and `index_count` are the counts the asset
/// declares; the other counts are what its data readers actually produced.
pub struct PrimitiveData {
    pub vertex_count: usize,
    pub position_count: usize,
    pub normal_count: usize,
    pub index_count: usize,
    pub indices: Vec<u32>,
}

/// Where one primitive's vertices and indices sit in the merged buffers.
#[derive(Clone, Copy, Debug, PartialEq, Eq, Structural)]
pub struct GeometryDescr {
    pub first_vertex: usize,
    pub vertex_count: usize,
    pub first_index: usize,
    pub index_count: usize,
}

/// Why a mesh cannot be turned into bottom-level geometry.
#[derive(Clone, Copy, Debug, PartialEq, Eq, Structural)]
pub enum GeometryError {
    /// A reader's length differs from the declared count, or the index count
    /// is not a whole number of triangles.
    Inconsistent { primitive: usize },
    /// An index, once offset by the primitive's first vertex, exceeds `u32`.
    IndexOverflow { primitive: usize },
}

/// The merged geometry of one mesh: one descriptor per primitive and the
/// concatenated index buffer, each index offset by its primitive's first vertex.
pub struct MeshLayout {
    pub geometries: Vec<GeometryDescr>,
    pub indices: Vec<u32>,
}

/// Number of vertices declared by the first `i` primitives.
pub open spec fn vertex_base(p: Seq<PrimitiveData>, i: int) -> int
    decreases i,
{
    if i <= 0 { 0 } else { vertex_base(p, i - 1) + p[i - 1].vertex_count }
}

/// Number of indices declared by the first `i` primitives.
pub open spec fn index_base(p: Seq<PrimitiveData>, i: int) -> int
    decreases i,
{
    if i <= 0 { 0 } else { index_base(p, i - 1) + p[i - 1].index_count }
}

/// The readers agree with the declared counts and the indices form triangles.
pub open spec fn primitive_consistent(q: PrimitiveData) -> bool {
    &&& q.position_count == q.vertex_count
    &&& q.normal_count == q.vertex_count
    &&& q.indices@.len() == q.index_count
    &&& q.index_count % 3 == 0
}

/// Every index of `q`, offset by `base`, fits in a `u32`.
pub open spec fn indices_fit(q: PrimitiveData, base: int) -> bool {
    forall|j: int| 0 <= j < q.indices@.len() ==> q.indices@[j] + base <= u32::MAX
}

/// Primitive `i` can be merged.
pub open spec fn primitive_ok(p: Seq<PrimitiveData>, i: int) -> bool {
    primitive_consistent(p[i]) && indices_fit(p[i], vertex_base(p, i))
}

/// The descriptor of primitive `i`.
pub open spec fn descr_of(p: Seq<PrimitiveData>, i: int) -> GeometryDescr {
    GeometryDescr {
        first_vertex: vertex_base(p, i) as usize,
        vertex_count: p[i].vertex_count,
        first_index: index_base(p, i) as usize,
        index_count: p[i].index_count,
    }
}

/// The indices of primitive `i`, offset by its first vertex.
pub open spec fn rebased(p: Seq<PrimitiveData>, i: int) -> Seq<int> {
    p[i].indices@.map_values(|x: u32| x as int + vertex_base(p, i))
}

/// The merged index buffer of the first `i` primitives.
pub open spec fn merged_indices(p: Seq<PrimitiveData>, i: int) -> Seq<int>
    decreases i,
{
    if i <= 0 { seq![] } else { merged_indices(p, i - 1) + rebased(p, i - 1) }
}

proof fn lemma_bases_monotone(p: Seq<PrimitiveData>, i: int, j: int)
    requires
        0 <= i <= j,
    ensures
        vertex_base(p, i) <= vertex_base(p, j),
        index_base(p, i) <= index_base(p, j),
    decreases j - i,
{
    if i < j {
        lemma_bases_monotone(p, i, j - 1);
    }
}

/// Total vertex and index counts that a mesh declares.
pub fn extract_mesh_sizes(p: &Vec<PrimitiveData>) -> (r: (usize, usize))
    requires
        vertex_base(p@, p@.len() as int) <= usize::MAX,
        index_base(p@, p@.len() as int) <= usize::MAX,
    ensures
        r.0 == vertex_base(p@, p@.len() as int),
        r.1 == index_base(p@, p@.len() as int),
{
    let mut vertex_count: usize = 0;
    let mut index_count: usize = 0;
    let mut i: usize = 0;
    while i < p.len()
        invariant
            i <= p@.len(),
            vertex_count == vertex_base(p@, i as int),
            index_count == index_base(p@, i as int),
            vertex_base(p@, p@.len() as int) <= usize::MAX,
            index_base(p@, p@.len() as int) <= usize::MAX,
        decreases p@.len() - i,
    {
        proof {
            lemma_bases_monotone(p@, i as int + 1, p@.len() as int);
        }
        vertex_count = vertex_count + p[i].vertex_count;
        index_count = index_count + p[i].index_count;
        i = i + 1;
    }
    (vertex_count, index_count)
}

/// Checks that every primitive can be merged: reader lengths match the
/// declared counts, index counts are whole triangles, and offset indices fit
/// in `u32`. Reports the first primitive, in order, that fails. A mesh that
/// fails is corrupt and must not be built.
pub fn check_mesh(p: &Vec<PrimitiveData>) -> (r: Result<(), GeometryError>)
    requires
        vertex_base(p@, p@.len() as int) <= usize::MAX,
    ensures
        r is Ok <==> forall|i: int| 0 <= i < p@.len() ==> primitive_ok(p@, i),
        r matches Err(e) ==> {
            let k = match e {
                GeometryError::Inconsistent { primitive } => primitive as int,
                GeometryError::IndexOverflow { primitive } => primitive as int,
            };
            &&& 0 <= k < p@.len()
            &&& !primitive_ok(p@, k)
            &&& forall|j: int| 0 <= j < k ==> primitive_ok(p@, j)
            &&& (e is Inconsistent <==> !primitive_consistent(p@[k]))
        },
{
    let mut vertex_head: usize = 0;
    let mut i: usize = 0;
    while i < p.len()
        invariant
            i <= p@.len(),
            vertex_head == vertex_base(p@, i as int),
            vertex_base(p@, p@.len() as int) <= usize::MAX,
            forall|j: int| 0 <= j < i ==> primitive_ok(p@, j),
        decreases p@.len() - i,
    {
        proof {
            lemma_bases_monotone(p@, i as int + 1, p@.len() as int);
        }
        let q = &p[i];
        if q.position_count != q.vertex_count || q.normal_count != q.vertex_count
            || q.indices.len() != q.index_count || q.index_count % 3 != 0 {
            assert(!primitive_ok(p@, i as int));
            return Err(GeometryError::Inconsistent { primitive: i });
        }
        let mut j: usize = 0;
        while j < q.indices.len()
            invariant
                i < p@.len(),
                q == &p@[i as int],
                forall|t: int| 0 <= t < i ==> primitive_ok(p@, t),
                primitive_consistent(*q),
                j <= q.indices@.len(),
                vertex_head == vertex_base(p@, i as int),
                forall|t: int| 0 <= t < j ==> q.indices@[t] + vertex_head <= u32::MAX,
            decreases q.indices@.len() - j,
        {
            let x = q.indices[j];
            if vertex_head > u32::MAX as usize || x > u32::MAX - vertex_head as u32 {
                assert(!indices_fit(p@[i as int], vertex_base(p@, i as int))) by {
                    assert(q.indices@[j as int] + vertex_head > u32::MAX);
                }
                assert(!primitive_ok(p@, i as int));
                return Err(GeometryError::IndexOverflow { primitive: i });
            }
            j = j + 1;
        }
        vertex_head = vertex_head + q.vertex_count;
        i = i + 1;
    }
    Ok(())
}

/// Merges the primitives of one mesh into shared vertex/index ranges. Only
/// meshes that pass `check_mesh` may be merged.
pub fn extract_mesh_data(p: &Vec<PrimitiveData>) -> (m: MeshLayout)
    requires
        vertex_base(p@, p@.len() as int) <= usize::MAX,
        index_base(p@, p@.len() as int) <= usize::MAX,
        forall|i: int| 0 <= i < p@.len() ==> primitive_ok(p@, i),
    ensures
        m.geometries@.len() == p@.len(),
        forall|i: int| 0 <= i < p@.len() ==> m.geometries@[i] == descr_of(p@, i),
        m.indices@.map_values(|x: u32| x as int) == merged_indices(p@, p@.len() as int),
{
    let mut geometries: Vec<GeometryDescr> = Vec::new();
    let mut indices: Vec<u32> = Vec::new();
    let mut vertex_head: usize = 0;
    let mut index_head: usize = 0;
    let mut i: usize = 0;
    while i < p.len()
        invariant
            i <= p@.len(),
            vertex_head == vertex_base(p@, i as int),
            index_head == index_base(p@, i as int),
            vertex_base(p@, p@.len() as int) <= usize::MAX,
            index_base(p@, p@.len() as int) <= usize::MAX,
            forall|j: int| 0 <= j < p@.len() ==> primitive_ok(p@, j),
            geometries@.len() == i,
            forall|j: int| 0 <= j < i ==> geometries@[j] == descr_of(p@, j),
            indices@.map_values(|x: u32| x as int) == merged_indices(p@, i as int),
        decreases p@.len() - i,
    {
        proof {
            lemma_bases_monotone(p@, i as int + 1, p@.len() as int);
        }
        let q = &p[i];
        assert(primitive_ok(p@, i as int));
        let ghost before = indices@;
        let mut j: usize = 0;
        while j < q.indices.len()
            invariant
                i < p@.len(),
                q == &p@[i as int],
                primitive_ok(p@, i as int),
                j <= q.indices@.len(),
                vertex_head == vertex_base(p@, i as int),
                indices@.len() == before.len() + j,
                indices@.subrange(0, before.len() as int) == before,
                forall|t: int| 0 <= t < j ==>
                    indices@[before.len() + t] == q.indices@[t] + vertex_head,
            decreases q.indices@.len() - j,
        {
            let x = q.indices[j];
            assert(q.indices@[j as int] + vertex_head <= u32::MAX);
            indices.push(x + vertex_head as u32);
            j = j + 1;
        }
        proof {
            let old_view = before.map_values(|x: u32| x as int);
            assert(indices@.map_values(|x: u32| x as int) =~= old_view + rebased(p@, i as int));
        }
        geometries.push(GeometryDescr {
            first_vertex: vertex_head,
            vertex_count: q.vertex_count,
            first_index: index_head,
            index_count: q.index_count,
        });
        vertex_head = vertex_head + q.vertex_count;
        index_head = index_head + q.index_count;
        i = i + 1;
    }
    MeshLayout { geometries, indices }
}

} // verus!
