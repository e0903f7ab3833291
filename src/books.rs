use vstd::prelude::*;
use crate::accel::{as_retire, blas_destroy_events, AsHandle, TriangleBlas};
use crate::buffer::{
    buffer_retire, lemma_build_then_destroy_leaks_nothing, register_all, release_all, Buffer,
};
use crate::destruction::CleanupEvent;

verus! {

/// The allocator's buffer books after the destruction worker has executed
/// `evs` in order: each buffer destruction frees that buffer's allocation.
pub open spec fn apply_buffer_events(m: Map<u64, u64>, evs: Seq<CleanupEvent>) -> Map<u64, u64>
    decreases evs.len(),
{
    if evs.len() == 0 {
        m
    } else {
        let prev = apply_buffer_events(m, evs.drop_last());
        match evs.last() {
            CleanupEvent::Buffer(h) => prev.remove(h),
            _ => prev,
        }
    }
}

/// The allocator's image books after `evs` have been executed in order.
pub open spec fn apply_image_events(m: Map<u64, u64>, evs: Seq<CleanupEvent>) -> Map<u64, u64>
    decreases evs.len(),
{
    if evs.len() == 0 {
        m
    } else {
        let prev = apply_image_events(m, evs.drop_last());
        match evs.last() {
            CleanupEvent::Image(h) => prev.remove(h),
            _ => prev,
        }
    }
}

/// The handle of a buffer that holds an allocation, if it does.
pub open spec fn allocated_handle(b: Buffer) -> Seq<u64> {
    if b.handle == 0 { Seq::<u64>::empty() } else { seq![b.handle] }
}

/// The buffers with an allocation that a triangle structure owns.
pub open spec fn blas_buffer_handles(b: TriangleBlas) -> Seq<u64> {
    allocated_handle(b.vertex_buffer) + allocated_handle(b.index_buffer) + allocated_handle(
        b.geometry_to_index_offset,
    ) + allocated_handle(b.geometry_to_material) + allocated_handle(b.acceleration_structure.buffer)
}

/// The texture images a triangle structure owns.
pub open spec fn blas_image_handles(b: TriangleBlas) -> Seq<u64> {
    b.textures@.map_values(|t: (u64, u64)| t.0)
}

proof fn lemma_buffer_events_concat(m: Map<u64, u64>, a: Seq<CleanupEvent>, b: Seq<CleanupEvent>)
    ensures
        apply_buffer_events(m, a + b) == apply_buffer_events(apply_buffer_events(m, a), b),
    decreases b.len(),
{
    if b.len() == 0 {
        assert(a + b =~= a);
    } else {
        lemma_buffer_events_concat(m, a, b.drop_last());
        assert((a + b).drop_last() =~= a + b.drop_last());
    }
}

proof fn lemma_image_events_concat(m: Map<u64, u64>, a: Seq<CleanupEvent>, b: Seq<CleanupEvent>)
    ensures
        apply_image_events(m, a + b) == apply_image_events(apply_image_events(m, a), b),
    decreases b.len(),
{
    if b.len() == 0 {
        assert(a + b =~= a);
    } else {
        lemma_image_events_concat(m, a, b.drop_last());
        assert((a + b).drop_last() =~= a + b.drop_last());
    }
}

proof fn lemma_release_concat(m: Map<u64, u64>, a: Seq<u64>, b: Seq<u64>)
    ensures
        release_all(m, a + b) == release_all(release_all(m, a), b),
    decreases b.len(),
{
    if b.len() == 0 {
        assert(a + b =~= a);
    } else {
        lemma_release_concat(m, a, b.drop_last());
        assert((a + b).drop_last() =~= a + b.drop_last());
    }
}

proof fn lemma_one_buffer(m: Map<u64, u64>, x: Buffer)
    ensures
        apply_buffer_events(m, buffer_retire(x)) == release_all(m, allocated_handle(x)),
        apply_image_events(m, buffer_retire(x)) == m,
{
    assert(apply_buffer_events(m, Seq::<CleanupEvent>::empty()) == m);
    assert(apply_image_events(m, Seq::<CleanupEvent>::empty()) == m);
    assert(release_all(m, Seq::<u64>::empty()) == m);
    if x.handle != 0 {
        assert(buffer_retire(x).drop_last() =~= Seq::<CleanupEvent>::empty());
        assert(allocated_handle(x).drop_last() =~= Seq::<u64>::empty());
        assert(buffer_retire(x).last() == CleanupEvent::Buffer(x.handle));
        assert(allocated_handle(x).last() == x.handle);
    } else {
        assert(buffer_retire(x) =~= Seq::<CleanupEvent>::empty());
        assert(allocated_handle(x) =~= Seq::<u64>::empty());
    }
}

proof fn lemma_one_structure(m: Map<u64, u64>, h: AsHandle)
    ensures
        apply_buffer_events(m, as_retire(h)) == m,
        apply_image_events(m, as_retire(h)) == m,
{
    assert(apply_buffer_events(m, Seq::<CleanupEvent>::empty()) == m);
    assert(apply_image_events(m, Seq::<CleanupEvent>::empty()) == m);
    match h {
        AsHandle::Built(x) => {
            assert(as_retire(h).drop_last() =~= Seq::<CleanupEvent>::empty());
            assert(as_retire(h).last() == CleanupEvent::AccelerationStructure(x));
        },
        AsHandle::NotBuilt => {
            assert(as_retire(h) =~= Seq::<CleanupEvent>::empty());
        },
    }
}

spec fn texture_events(t: Seq<(u64, u64)>, n: int) -> Seq<CleanupEvent> {
    Seq::new(2 * n as nat, |k: int|
        if k % 2 == 0 {
            CleanupEvent::ImageView(t[k / 2].1)
        } else {
            CleanupEvent::Image(t[k / 2].0)
        })
}

proof fn lemma_texture_events(m_buf: Map<u64, u64>, m_img: Map<u64, u64>, t: Seq<(u64, u64)>, n: int)
    requires
        0 <= n <= t.len(),
    ensures
        apply_buffer_events(m_buf, texture_events(t, n)) == m_buf,
        apply_image_events(m_img, texture_events(t, n)) == release_all(
            m_img,
            t.map_values(|x: (u64, u64)| x.0).take(n),
        ),
    decreases n,
{
    let imgs = t.map_values(|x: (u64, u64)| x.0);
    if n == 0 {
        assert(texture_events(t, 0) =~= Seq::<CleanupEvent>::empty());
        assert(imgs.take(0) =~= Seq::<u64>::empty());
        assert(apply_buffer_events(m_buf, Seq::<CleanupEvent>::empty()) == m_buf);
        assert(apply_image_events(m_img, Seq::<CleanupEvent>::empty()) == m_img);
        assert(release_all(m_img, Seq::<u64>::empty()) == m_img);
    } else {
        lemma_texture_events(m_buf, m_img, t, n - 1);
        let pair = seq![CleanupEvent::ImageView(t[n - 1].1), CleanupEvent::Image(t[n - 1].0)];
        assert(texture_events(t, n) =~= texture_events(t, n - 1) + pair) by {
            assert forall|k: int| 2 * (n - 1) <= k < 2 * n implies #[trigger] texture_events(t, n)[k] == pair[
                k - 2 * (n - 1)] by {
                if k == 2 * (n - 1) {
                    assert(k % 2 == 0 && k / 2 == n - 1) by (nonlinear_arith)
                        requires k == 2 * (n - 1);
                } else {
                    assert(k % 2 == 1 && k / 2 == n - 1) by (nonlinear_arith)
                        requires k == 2 * (n - 1) + 1;
                }
            }
        }
        lemma_buffer_events_concat(m_buf, texture_events(t, n - 1), pair);
        lemma_image_events_concat(m_img, texture_events(t, n - 1), pair);
        assert(pair.drop_last() =~= seq![CleanupEvent::ImageView(t[n - 1].1)]);
        assert(pair.drop_last().drop_last() =~= Seq::<CleanupEvent>::empty());
        let mb = apply_buffer_events(m_buf, texture_events(t, n - 1));
        let mi = apply_image_events(m_img, texture_events(t, n - 1));
        assert(apply_buffer_events(mb, Seq::<CleanupEvent>::empty()) == mb);
        assert(apply_image_events(mi, Seq::<CleanupEvent>::empty()) == mi);
        assert(apply_buffer_events(mb, pair.drop_last()) == mb);
        assert(apply_image_events(mi, pair.drop_last()) == mi);
        assert(apply_buffer_events(mb, pair) == mb);
        assert(apply_image_events(mi, pair) == mi.remove(t[n - 1].0));
        assert(imgs.take(n).drop_last() =~= imgs.take(n - 1));
    }
}

/// Executing a triangle structure's destruction events frees exactly the
/// buffers and texture images it owns, in order.
pub proof fn lemma_blas_teardown_frees_owned(m_buf: Map<u64, u64>, m_img: Map<u64, u64>, b: TriangleBlas)
    ensures
        apply_buffer_events(m_buf, blas_destroy_events(b)) == release_all(m_buf, blas_buffer_handles(b)),
        apply_image_events(m_img, blas_destroy_events(b)) == release_all(m_img, blas_image_handles(b)),
{
    let t = b.textures@;
    let n = t.len() as int;
    lemma_texture_events(m_buf, m_img, t, n);
    assert(t.map_values(|x: (u64, u64)| x.0).take(n) =~= blas_image_handles(b));
    let tex = texture_events(t, n);
    let e1 = buffer_retire(b.vertex_buffer);
    let e2 = buffer_retire(b.index_buffer);
    let e3 = buffer_retire(b.geometry_to_index_offset);
    let e4 = buffer_retire(b.geometry_to_material);
    let e5 = as_retire(b.acceleration_structure.handle);
    let e6 = buffer_retire(b.acceleration_structure.buffer);
    assert(blas_destroy_events(b) == tex + e1 + e2 + e3 + e4 + e5 + e6);
    // buffers
    let m0 = apply_buffer_events(m_buf, tex);
    lemma_buffer_events_concat(m_buf, tex + e1 + e2 + e3 + e4 + e5, e6);
    lemma_buffer_events_concat(m_buf, tex + e1 + e2 + e3 + e4, e5);
    lemma_buffer_events_concat(m_buf, tex + e1 + e2 + e3, e4);
    lemma_buffer_events_concat(m_buf, tex + e1 + e2, e3);
    lemma_buffer_events_concat(m_buf, tex + e1, e2);
    lemma_buffer_events_concat(m_buf, tex, e1);
    let h1 = allocated_handle(b.vertex_buffer);
    let h2 = allocated_handle(b.index_buffer);
    let h3 = allocated_handle(b.geometry_to_index_offset);
    let h4 = allocated_handle(b.geometry_to_material);
    let h6 = allocated_handle(b.acceleration_structure.buffer);
    lemma_one_buffer(m0, b.vertex_buffer);
    let m1 = release_all(m0, h1);
    lemma_one_buffer(m1, b.index_buffer);
    let m2 = release_all(m1, h2);
    lemma_one_buffer(m2, b.geometry_to_index_offset);
    let m3 = release_all(m2, h3);
    lemma_one_buffer(m3, b.geometry_to_material);
    let m4 = release_all(m3, h4);
    lemma_one_structure(m4, b.acceleration_structure.handle);
    lemma_one_buffer(m4, b.acceleration_structure.buffer);
    lemma_release_concat(m_buf, h1 + h2 + h3 + h4, h6);
    lemma_release_concat(m_buf, h1 + h2 + h3, h4);
    lemma_release_concat(m_buf, h1 + h2, h3);
    lemma_release_concat(m_buf, h1, h2);
    // images
    let i0 = apply_image_events(m_img, tex);
    lemma_image_events_concat(m_img, tex + e1 + e2 + e3 + e4 + e5, e6);
    lemma_image_events_concat(m_img, tex + e1 + e2 + e3 + e4, e5);
    lemma_image_events_concat(m_img, tex + e1 + e2 + e3, e4);
    lemma_image_events_concat(m_img, tex + e1 + e2, e3);
    lemma_image_events_concat(m_img, tex + e1, e2);
    lemma_image_events_concat(m_img, tex, e1);
    lemma_one_buffer(i0, b.vertex_buffer);
    lemma_one_buffer(i0, b.index_buffer);
    lemma_one_buffer(i0, b.geometry_to_index_offset);
    lemma_one_buffer(i0, b.geometry_to_material);
    lemma_one_buffer(i0, b.acceleration_structure.buffer);
    lemma_one_structure(i0, b.acceleration_structure.handle);
}

/// A mesh structure's whole life leaves the allocator's books as they were:
/// the build registers the allocations of its transient buffers (staging,
/// scratch, the uncompacted structure) and frees them before it returns;
/// the buffers and texture images the structure keeps are registered too,
/// and executing its destruction events frees them. All handles are
/// distinct and unknown to the books beforehand.
pub proof fn lemma_blas_life_leaks_nothing(
    m_buf: Map<u64, u64>,
    m_img: Map<u64, u64>,
    b: TriangleBlas,
    transient: Seq<u64>,
    transient_sizes: Seq<u64>,
    kept_sizes: Seq<u64>,
    image_sizes: Seq<u64>,
)
    requires
        (transient + blas_buffer_handles(b)).no_duplicates(),
        transient_sizes.len() == transient.len(),
        kept_sizes.len() == blas_buffer_handles(b).len(),
        forall|i: int| 0 <= i < transient.len() ==> !m_buf.contains_key(#[trigger] transient[i]),
        forall|i: int| 0 <= i < blas_buffer_handles(b).len() ==> !m_buf.contains_key(
            #[trigger] blas_buffer_handles(b)[i],
        ),
        blas_image_handles(b).no_duplicates(),
        image_sizes.len() == blas_image_handles(b).len(),
        forall|i: int| 0 <= i < blas_image_handles(b).len() ==> !m_img.contains_key(
            #[trigger] blas_image_handles(b)[i],
        ),
    ensures
        ({
            let built = release_all(register_all(m_buf, transient, transient_sizes), transient);
            let owned = register_all(built, blas_buffer_handles(b), kept_sizes);
            apply_buffer_events(owned, blas_destroy_events(b)) == m_buf
        }),
        apply_image_events(register_all(m_img, blas_image_handles(b), image_sizes), blas_destroy_events(b))
            == m_img,
{
    let kept = blas_buffer_handles(b);
    assert(transient.no_duplicates()) by {
        assert forall|i: int, j: int| 0 <= i < j < transient.len() implies transient[i] != transient[j] by {
            assert((transient + kept)[i] == transient[i]);
            assert((transient + kept)[j] == transient[j]);
        }
    }
    assert(kept.no_duplicates()) by {
        assert forall|i: int, j: int| 0 <= i < j < kept.len() implies kept[i] != kept[j] by {
            assert((transient + kept)[transient.len() + i] == kept[i]);
            assert((transient + kept)[transient.len() + j] == kept[j]);
        }
    }
    lemma_build_then_destroy_leaks_nothing(m_buf, transient, transient_sizes);
    let built = release_all(register_all(m_buf, transient, transient_sizes), transient);
    let owned = register_all(built, kept, kept_sizes);
    lemma_blas_teardown_frees_owned(owned, m_img, b);
    lemma_build_then_destroy_leaks_nothing(m_buf, kept, kept_sizes);
    lemma_blas_teardown_frees_owned(m_buf, register_all(m_img, blas_image_handles(b), image_sizes), b);
    lemma_build_then_destroy_leaks_nothing(m_img, blas_image_handles(b), image_sizes);
}

} // verus!
