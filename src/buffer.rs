use std::collections::HashMap;
use vstd::prelude::*;
use vstd::std_specs::hash::group_hash_axioms;
use crate::destruction::CleanupEvent;

verus! {

broadcast use group_hash_axioms;

/// Usage bit that lets a buffer's GPU address be queried and embedded elsewhere.
pub const SHADER_DEVICE_ADDRESS: u32 = 0x0002_0000;

/// Where a buffer's memory lives.
#[derive(Clone, Copy, Debug, PartialEq, Eq, Structural)]
pub enum MemoryKind {
    HostVisible,
    DeviceLocal,
}

/// A typed GPU buffer, reduced to the values the engine's logic reads.
/// A buffer of zero elements is the null sentinel: handle and address are 0
/// and no allocation stands behind it.
#[derive(Clone, Copy, Debug, PartialEq, Eq, Structural)]
pub struct Buffer {
    pub nr_elements: u64,
    pub usage: u32,
    pub handle: u64,
    pub address: u64,
    pub memory: MemoryKind,
}

impl Buffer {
    /// The sentinel state: zero elements, null handle, no address.
    pub open spec fn wf(&self) -> bool {
        self.nr_elements == 0 <==> self.handle == 0
    }

    /// The absent buffer with the given usage and memory kind.
    pub fn null(usage: u32, memory: MemoryKind) -> (r: Buffer)
        ensures
            r.nr_elements == 0,
            r.handle == 0,
            r.address == 0,
            r.usage == usage,
            r.memory == memory,
            r.wf(),
    {
        Buffer { nr_elements: 0, usage, handle: 0, address: 0, memory }
    }

    /// The buffer is the null sentinel and must be treated as absent.
    pub fn is_null(&self) -> (r: bool)
        ensures
            r == (self.handle == 0),
    {
        self.handle == 0
    }

    /// Only host-visible memory may be mapped for CPU writes.
    pub fn is_mappable(&self) -> (r: bool)
        ensures
            r == (self.memory == MemoryKind::HostVisible && self.handle != 0),
    {
        self.handle != 0 && match self.memory {
            MemoryKind::HostVisible => true,
            MemoryKind::DeviceLocal => false,
        }
    }
}

/// Usage flags actually requested for a buffer: every buffer gets a device
/// address.
pub fn buffer_usage(usage: u32) -> (r: u32)
    ensures
        r == usage | SHADER_DEVICE_ADDRESS,
{
    usage | SHADER_DEVICE_ADDRESS
}

/// Byte size of `nr_elements` elements of `element_size` bytes, if it fits.
pub fn buffer_byte_size(nr_elements: u64, element_size: u64) -> (r: Option<u64>)
    ensures
        r matches Some(n) ==> n == nr_elements * element_size,
        r is None <==> nr_elements * element_size > u64::MAX,
{
    nr_elements.checked_mul(element_size)
}

/// Whether creating a buffer of `nr_elements` needs a GPU allocation; a
/// zero-element buffer degrades to the null sentinel instead.
pub fn needs_allocation(nr_elements: u64) -> (r: bool)
    ensures
        r == (nr_elements > 0),
{
    nr_elements > 0
}

/// Assembles the buffer record once the GPU handle and address are known.
pub fn make_buffer(nr_elements: u64, usage: u32, handle: u64, address: u64, memory: MemoryKind) -> (r: Buffer)
    requires
        nr_elements > 0,
        handle != 0,
    ensures
        r == (Buffer { nr_elements, usage: usage | SHADER_DEVICE_ADDRESS, handle, address, memory }),
        r.wf(),
{
    Buffer { nr_elements, usage: buffer_usage(usage), handle, address, memory }
}

/// The destruction queued for a buffer: none for the null sentinel, which
/// stands for an absent buffer.
pub open spec fn buffer_retire(b: Buffer) -> Seq<CleanupEvent> {
    if b.handle == 0 {
        Seq::<CleanupEvent>::empty()
    } else {
        seq![CleanupEvent::Buffer(b.handle)]
    }
}

/// Appends the destruction of `b`, unless it is the null sentinel.
pub fn push_buffer_retire(out: &mut Vec<CleanupEvent>, b: &Buffer)
    ensures
        final(out)@ == old(out)@ + buffer_retire(*b),
{
    if b.handle != 0 {
        out.push(CleanupEvent::Buffer(b.handle));
    }
    assert(final(out)@ =~= old(out)@ + buffer_retire(*b));
}

/// What to do with a buffer that must hold `required` elements.
#[derive(Clone, Copy, Debug, PartialEq, Eq, Structural)]
pub enum ResizePlan {
    /// The element count is unchanged: rewrite the existing buffer.
    Keep,
    /// Create a buffer of `nr_elements`; `retire` is the old buffer's
    /// destruction, queued before the new buffer is used (absent for the
    /// null sentinel).
    Replace { retire: Option<CleanupEvent>, nr_elements: u64 },
}

/// A buffer is recreated exactly when its element count must change.
pub fn plan_resize(current: &Buffer, required: u64) -> (r: ResizePlan)
    ensures
        (r == ResizePlan::Keep) <==> current.nr_elements == required,
        r matches ResizePlan::Replace { retire, nr_elements } ==> {
            &&& nr_elements == required
            &&& retire == if current.handle == 0 {
                None::<CleanupEvent>
            } else {
                Some(CleanupEvent::Buffer(current.handle))
            }
        },
{
    if current.nr_elements == required {
        ResizePlan::Keep
    } else {
        let retire = if current.handle == 0 { None } else { Some(CleanupEvent::Buffer(current.handle)) };
        ResizePlan::Replace { retire, nr_elements: required }
    }
}

/// The allocator's books: for each live buffer or image handle, the size in
/// bytes of the allocation bound to it.
pub struct AllocationTable {
    pub buffers: HashMap<u64, u64>,
    pub images: HashMap<u64, u64>,
}

/// The table after registering `hs[i]` with `sizes[i]`, in order.
pub open spec fn register_all(m: Map<u64, u64>, hs: Seq<u64>, sizes: Seq<u64>) -> Map<u64, u64>
    decreases hs.len(),
{
    if hs.len() == 0 {
        m
    } else {
        register_all(m, hs.drop_last(), sizes).insert(hs.last(), sizes[hs.len() - 1])
    }
}

/// The table after releasing every handle of `hs`.
pub open spec fn release_all(m: Map<u64, u64>, hs: Seq<u64>) -> Map<u64, u64>
    decreases hs.len(),
{
    if hs.len() == 0 {
        m
    } else {
        release_all(m, hs.drop_last()).remove(hs.last())
    }
}

impl AllocationTable {
    /// An allocator with nothing allocated.
    pub fn new() -> (r: AllocationTable)
        ensures
            r.buffers@ == Map::<u64, u64>::empty(),
            r.images@ == Map::<u64, u64>::empty(),
    {
        AllocationTable { buffers: HashMap::new(), images: HashMap::new() }
    }

    /// Records the allocation bound to a freshly created buffer.
    pub fn register_buffer(&mut self, handle: u64, bytes: u64)
        ensures
            final(self).buffers@ == old(self).buffers@.insert(handle, bytes),
            final(self).images@ == old(self).images@,
    {
        self.buffers.insert(handle, bytes);
    }

    /// Forgets a buffer's allocation, returning its size if one was recorded.
    pub fn release_buffer(&mut self, handle: u64) -> (r: Option<u64>)
        ensures
            final(self).buffers@ == old(self).buffers@.remove(handle),
            final(self).images@ == old(self).images@,
            r == (if old(self).buffers@.contains_key(handle) {
                Some(old(self).buffers@[handle])
            } else {
                None::<u64>
            }),
    {
        self.buffers.remove(&handle)
    }

    /// Records the allocation bound to a freshly created image.
    pub fn register_image(&mut self, handle: u64, bytes: u64)
        ensures
            final(self).images@ == old(self).images@.insert(handle, bytes),
            final(self).buffers@ == old(self).buffers@,
    {
        self.images.insert(handle, bytes);
    }

    /// Forgets an image's allocation, returning its size if one was recorded.
    pub fn release_image(&mut self, handle: u64) -> (r: Option<u64>)
        ensures
            final(self).images@ == old(self).images@.remove(handle),
            final(self).buffers@ == old(self).buffers@,
            r == (if old(self).images@.contains_key(handle) {
                Some(old(self).images@[handle])
            } else {
                None::<u64>
            }),
    {
        self.images.remove(&handle)
    }
}

/// Registering the distinct, previously unknown handles that one build
/// creates and then releasing all of them leaves the allocator's books
/// exactly as they were: nothing leaks.
pub proof fn lemma_build_then_destroy_leaks_nothing(m: Map<u64, u64>, hs: Seq<u64>, sizes: Seq<u64>)
    requires
        hs.no_duplicates(),
        sizes.len() == hs.len(),
        forall|i: int| 0 <= i < hs.len() ==> !m.contains_key(#[trigger] hs[i]),
    ensures
        release_all(register_all(m, hs, sizes), hs) == m,
    decreases hs.len(),
{
    if hs.len() > 0 {
        let init = hs.drop_last();
        let h = hs.last();
        let s = sizes[hs.len() - 1];
        assert(!init.contains(h)) by {
            if init.contains(h) {
                let i = choose|i: int| 0 <= i < init.len() && init[i] == h;
                assert(hs[i] == hs[hs.len() - 1]);
            }
        }
        assert(!m.contains_key(h)) by {
            assert(!m.contains_key(hs[hs.len() - 1]));
        }
        lemma_release_keeps_other(register_all(m, init, sizes), init, h, s);
        lemma_build_then_destroy_leaks_nothing(m, init, sizes.drop_last());
        lemma_register_prefix_sizes(m, init, sizes);
        assert(m.insert(h, s).remove(h) =~= m);
    }
}

proof fn lemma_register_prefix_sizes(m: Map<u64, u64>, hs: Seq<u64>, sizes: Seq<u64>)
    requires
        hs.len() < sizes.len(),
    ensures
        register_all(m, hs, sizes) == register_all(m, hs, sizes.drop_last()),
    decreases hs.len(),
{
    if hs.len() > 0 {
        lemma_register_prefix_sizes(m, hs.drop_last(), sizes);
    }
}

proof fn lemma_release_keeps_other(m: Map<u64, u64>, hs: Seq<u64>, h: u64, s: u64)
    requires
        !hs.contains(h),
    ensures
        release_all(m.insert(h, s), hs) == release_all(m, hs).insert(h, s),
    decreases hs.len(),
{
    if hs.len() > 0 {
        assert(!hs.drop_last().contains(h)) by {
            if hs.drop_last().contains(h) {
                let i = choose|i: int| 0 <= i < hs.drop_last().len() && hs.drop_last()[i] == h;
                assert(hs[i] == h);
            }
        }
        lemma_release_keeps_other(m, hs.drop_last(), h, s);
        assert(hs.last() != h) by {
            assert(hs[hs.len() - 1] == hs.last());
        }
        assert(release_all(m, hs.drop_last()).insert(h, s).remove(hs.last())
            =~= release_all(m, hs.drop_last()).remove(hs.last()).insert(h, s));
    }
}

} // verus!
