use vstd::prelude::*;

verus! {

/// A GPU object whose destruction has been deferred, by its native handle.
#[derive(Clone, Copy, Debug, PartialEq, Eq, Structural)]
pub enum CleanupEvent {
    DescriptorSetLayout(u64),
    PipelineLayout(u64),
    Pipeline(u64),
    Buffer(u64),
    ImageView(u64),
    Image(u64),
    Semaphore(u64),
    Fence(u64),
    ShaderModule(u64),
    Swapchain(u64),
    AccelerationStructure(u64),
}

/// What the destruction worker receives on its channel.
#[derive(Clone, Copy, Debug, PartialEq, Eq, Structural)]
pub enum CleanupMessage {
    Destroy(CleanupEvent),
    NextFrame,
    Shutdown,
}

/// What the worker must do after one message: destroy `execute`, in order,
/// and stop when `stop` holds. `wait_idle` asks for a full GPU-idle wait
/// before anything is destroyed.
pub struct CleanupStep {
    pub execute: Vec<CleanupEvent>,
    pub wait_idle: bool,
    pub stop: bool,
}

/// The ring of per-frame pending lists. The last list is the one being
/// filled during the current frame; the first is the oldest.
pub struct DestructionRing {
    lists: Vec<Vec<CleanupEvent>>,
}

/// All pending events, oldest list first, each list in insertion order.
pub open spec fn pending(r: Seq<Seq<CleanupEvent>>) -> Seq<CleanupEvent>
    decreases r.len(),
{
    if r.len() == 0 { seq![] } else { pending(r.drop_last()) + r.last() }
}

/// The ring after an event is pushed to the current frame's list.
pub open spec fn ring_push(r: Seq<Seq<CleanupEvent>>, e: CleanupEvent) -> Seq<Seq<CleanupEvent>> {
    r.update(r.len() - 1, r[r.len() - 1].push(e))
}

/// The ring after a frame boundary: the oldest list leaves, an empty one
/// becomes current.
pub open spec fn ring_next(r: Seq<Seq<CleanupEvent>>) -> Seq<Seq<CleanupEvent>> {
    r.drop_first().push(seq![])
}

/// One operation on the ring: `Some(e)` pushes `e`, `None` is a frame boundary.
pub open spec fn ring_step(r: Seq<Seq<CleanupEvent>>, op: Option<CleanupEvent>) -> Seq<Seq<CleanupEvent>> {
    match op {
        Some(e) => ring_push(r, e),
        None => ring_next(r),
    }
}

/// What one operation destroys.
pub open spec fn step_executed(r: Seq<Seq<CleanupEvent>>, op: Option<CleanupEvent>) -> Seq<CleanupEvent> {
    match op {
        Some(e) => seq![],
        None => r[0],
    }
}

/// The ring after a sequence of operations.
pub open spec fn ring_run(r: Seq<Seq<CleanupEvent>>, ops: Seq<Option<CleanupEvent>>) -> Seq<Seq<CleanupEvent>>
    decreases ops.len(),
{
    if ops.len() == 0 { r } else { ring_step(ring_run(r, ops.drop_last()), ops.last()) }
}

/// Everything destroyed by a sequence of operations, in order.
pub open spec fn executed(r: Seq<Seq<CleanupEvent>>, ops: Seq<Option<CleanupEvent>>) -> Seq<CleanupEvent>
    decreases ops.len(),
{
    if ops.len() == 0 {
        seq![]
    } else {
        executed(r, ops.drop_last()) + step_executed(ring_run(r, ops.drop_last()), ops.last())
    }
}

/// The events pushed by a sequence of operations, in order.
pub open spec fn pushed(ops: Seq<Option<CleanupEvent>>) -> Seq<CleanupEvent>
    decreases ops.len(),
{
    if ops.len() == 0 {
        seq![]
    } else {
        pushed(ops.drop_last()) + match ops.last() {
            Some(e) => seq![e],
            None => seq![],
        }
    }
}

/// Number of frame boundaries in a sequence of operations.
pub open spec fn frame_count(ops: Seq<Option<CleanupEvent>>) -> nat
    decreases ops.len(),
{
    if ops.len() == 0 {
        0
    } else {
        frame_count(ops.drop_last()) + if ops.last() is None { 1nat } else { 0nat }
    }
}

proof fn lemma_pending_push(r: Seq<Seq<CleanupEvent>>, t: Seq<CleanupEvent>)
    ensures
        pending(r.push(t)) == pending(r) + t,
{
    assert(r.push(t).drop_last() =~= r);
}

proof fn lemma_pending_front(r: Seq<Seq<CleanupEvent>>)
    requires
        r.len() > 0,
    ensures
        pending(r) == r[0] + pending(r.drop_first()),
    decreases r.len(),
{
    if r.len() == 1 {
        assert(r.drop_last() =~= seq![]);
        assert(r.drop_first() =~= seq![]);
        assert(pending(r.drop_last()) =~= seq![]);
        assert(r.last() == r[0]);
        assert(pending(r) =~= r[0]);
        assert(pending(r.drop_first()) =~= seq![]);
    } else {
        lemma_pending_front(r.drop_last());
        assert(r.drop_first().drop_last() =~= r.drop_last().drop_first());
        assert(r.drop_first().last() == r.last());
        assert(pending(r) =~= r[0] + pending(r.drop_first()));
    }
}

proof fn lemma_pending_ring_push(r: Seq<Seq<CleanupEvent>>, e: CleanupEvent)
    requires
        r.len() > 0,
    ensures
        pending(ring_push(r, e)) == pending(r).push(e),
{
    let r1 = ring_push(r, e);
    assert(r1.drop_last() =~= r.drop_last());
    assert(pending(r1) =~= pending(r).push(e));
}

proof fn lemma_pending_take_len(r: Seq<Seq<CleanupEvent>>, k: int)
    requires
        0 <= k <= r.len(),
    ensures
        pending(r.take(k)).len() <= pending(r).len(),
    decreases r.len() - k,
{
    if k < r.len() {
        lemma_pending_take_len(r, k + 1);
        assert(r.take(k + 1).drop_last() =~= r.take(k));
    } else {
        assert(r.take(k) =~= r);
    }
}

/// Each event is destroyed exactly once: what a sequence of pushes and frame
/// boundaries destroyed, followed by what is still pending, is what was
/// pending before followed by what was pushed, in the same order.
pub proof fn lemma_ring_conserves_events(r: Seq<Seq<CleanupEvent>>, ops: Seq<Option<CleanupEvent>>)
    requires
        r.len() >= 2,
    ensures
        ring_run(r, ops).len() == r.len(),
        executed(r, ops) + pending(ring_run(r, ops)) == pending(r) + pushed(ops),
    decreases ops.len(),
{
    if ops.len() > 0 {
        let init = ops.drop_last();
        lemma_ring_conserves_events(r, init);
        let mid = ring_run(r, init);
        match ops.last() {
            Some(e) => {
                lemma_pending_ring_push(mid, e);
                assert(executed(r, ops) =~= executed(r, init));
                assert(pushed(ops) == pushed(init) + seq![e]);
                assert(ring_run(r, ops) == ring_push(mid, e));
                assert(executed(r, ops) + pending(ring_run(r, ops)) =~= executed(r, init) + pending(mid)
                    + seq![e]);
            },
            None => {
                lemma_pending_front(mid);
                lemma_pending_push(mid.drop_first(), seq![]);
                assert(pending(mid.drop_first()) + seq![] =~= pending(mid.drop_first()));
                assert(pushed(ops) =~= pushed(init));
                assert(ring_run(r, ops) == ring_next(mid));
                assert(executed(r, ops) == executed(r, init) + mid[0]);
                assert(executed(r, ops) + pending(ring_run(r, ops)) =~= executed(r, init) + (mid[0]
                    + pending(mid.drop_first())));
            },
        }
        assert(executed(r, ops) + pending(ring_run(r, ops)) =~= pending(r) + pushed(ops));
    }
}

proof fn lemma_pending_empty_ring(n: nat)
    ensures
        pending(Seq::new(n, |i: int| Seq::<CleanupEvent>::empty())) == Seq::<CleanupEvent>::empty(),
    decreases n,
{
    let r = Seq::new(n, |i: int| Seq::<CleanupEvent>::empty());
    if n > 0 {
        lemma_pending_empty_ring((n - 1) as nat);
        assert(r.drop_last() =~= Seq::new((n - 1) as nat, |i: int| Seq::<CleanupEvent>::empty()));
        assert(pending(r) =~= Seq::<CleanupEvent>::empty());
    } else {
        assert(r =~= Seq::<Seq<CleanupEvent>>::empty());
    }
}

/// From a freshly made ring, the events destroyed at frame boundaries
/// followed by those the shutdown flush destroys (everything still pending)
/// are exactly the events sent, each once and in the order sent.
pub proof fn lemma_shutdown_flushes_every_event(n: nat, ops: Seq<Option<CleanupEvent>>)
    requires
        n >= 2,
    ensures
        ({
            let r = Seq::new(n, |i: int| Seq::<CleanupEvent>::empty());
            executed(r, ops) + pending(ring_run(r, ops)) == pushed(ops)
        }),
{
    let r = Seq::new(n, |i: int| Seq::<CleanupEvent>::empty());
    lemma_ring_conserves_events(r, ops);
    lemma_pending_empty_ring(n);
    assert(pending(r) + pushed(ops) =~= pushed(ops));
}

/// An event pushed during the current frame is not destroyed before `N`
/// frame boundaries have passed (`N` the ring's length), whatever is pushed
/// meanwhile, and it is destroyed at the `N`-th. Events are counted by their
/// place in the stream: the new event is the one at index
/// `pending(r).len()` of `pending(r) + pushed`.
pub proof fn lemma_destruction_delay(r: Seq<Seq<CleanupEvent>>, e: CleanupEvent, ops: Seq<Option<CleanupEvent>>)
    requires
        r.len() >= 2,
    ensures
        frame_count(ops) < r.len() ==> executed(ring_push(r, e), ops).len() <= pending(r).len(),
        frame_count(ops) >= r.len() ==> executed(ring_push(r, e), ops).len() > pending(r).len(),
{
    lemma_delay_inv(r, e, ops);
    let k = frame_count(ops) as int;
    if k < r.len() {
        lemma_pending_take_len(r, k);
    }
}

proof fn lemma_delay_inv(r: Seq<Seq<CleanupEvent>>, e: CleanupEvent, ops: Seq<Option<CleanupEvent>>)
    requires
        r.len() >= 2,
    ensures
        ({
            let n = r.len() as int;
            let k = frame_count(ops) as int;
            let cur = ring_run(ring_push(r, e), ops);
            let ex = executed(ring_push(r, e), ops);
            &&& cur.len() == n
            &&& k < n ==> {
                &&& forall|i: int| 0 <= i < n - 1 - k ==> cur[i] == r[i + k]
                &&& cur[n - 1 - k].len() >= r[n - 1].len() + 1
                &&& ex.len() == pending(r.take(k)).len()
            }
            &&& k >= n ==> ex.len() >= pending(r).len() + 1
        }),
    decreases ops.len(),
{
    let n = r.len() as int;
    let r1 = ring_push(r, e);
    if ops.len() == 0 {
        assert(r.take(0) =~= seq![]);
        assert(pending(r.take(0)) =~= seq![]);
    } else {
        let init = ops.drop_last();
        lemma_delay_inv(r, e, init);
        let k0 = frame_count(init) as int;
        let mid = ring_run(r1, init);
        match ops.last() {
            Some(x) => {
                assert(frame_count(ops) == frame_count(init));
            },
            None => {
                assert(frame_count(ops) == k0 + 1);
                if k0 + 1 < n {
                    assert(r.take(k0 + 1).drop_last() =~= r.take(k0));
                    assert(r.take(k0 + 1).last() == r[k0]);
                } else if k0 + 1 == n {
                    assert(r.take(k0 + 1) =~= r);
                    assert(r.take(k0 + 1).drop_last() =~= r.take(k0));
                    assert(pending(r).len() == pending(r.take(k0)).len() + r[n - 1].len());
                }
            },
        }
    }
}

impl DestructionRing {
    /// The pending lists, oldest first.
    pub closed spec fn view(&self) -> Seq<Seq<CleanupEvent>> {
        self.lists@.map_values(|l: Vec<CleanupEvent>| l@)
    }

    /// At least two lists, so the current one is never the oldest.
    pub open spec fn wf(&self) -> bool {
        self.view().len() >= 2
    }

    /// A ring with one empty list per frame that may be in flight.
    pub fn new(frames_in_flight: usize) -> (r: DestructionRing)
        requires
            frames_in_flight >= 2,
        ensures
            r.wf(),
            r.view() == Seq::new(frames_in_flight as nat, |i: int| Seq::<CleanupEvent>::empty()),
    {
        let mut lists: Vec<Vec<CleanupEvent>> = Vec::new();
        let mut i: usize = 0;
        while i < frames_in_flight
            invariant
                i <= frames_in_flight,
                lists@.len() == i,
                forall|j: int| 0 <= j < i ==> lists@[j]@ == Seq::<CleanupEvent>::empty(),
            decreases frames_in_flight - i,
        {
            lists.push(Vec::new());
            i = i + 1;
        }
        let r = DestructionRing { lists };
        assert(r.view() =~= Seq::new(frames_in_flight as nat, |i: int| Seq::<CleanupEvent>::empty()));
        r
    }

    /// Number of lists, that is of frames an event waits.
    pub fn frames_in_flight(&self) -> (r: usize)
        ensures
            r == self.view().len(),
    {
        self.lists.len()
    }

    /// Defers an event to the current frame's list.
    pub fn push(&mut self, e: CleanupEvent)
        requires
            old(self).wf(),
        ensures
            final(self).wf(),
            final(self).view() == ring_push(old(self).view(), e),
    {
        let mut list = self.lists.pop().unwrap();
        list.push(e);
        self.lists.push(list);
        assert(self.view() =~= ring_push(old(self).view(), e));
    }

    /// A frame boundary: hands back the oldest list for destruction, in
    /// insertion order, and makes a new empty list current.
    pub fn next_frame(&mut self) -> (r: Vec<CleanupEvent>)
        requires
            old(self).wf(),
        ensures
            final(self).wf(),
            r@ == old(self).view()[0],
            final(self).view() == ring_next(old(self).view()),
    {
        let oldest = self.lists.remove(0);
        self.lists.push(Vec::new());
        assert(self.view() =~= ring_next(old(self).view()));
        oldest
    }

    /// Shutdown: hands back every pending event, oldest list first, and
    /// leaves every list empty.
    pub fn drain_all(&mut self) -> (r: Vec<CleanupEvent>)
        requires
            old(self).wf(),
        ensures
            final(self).wf(),
            r@ == pending(old(self).view()),
            final(self).view() == Seq::new(old(self).view().len(), |i: int| Seq::<CleanupEvent>::empty()),
    {
        let n = self.lists.len();
        let mut out: Vec<CleanupEvent> = Vec::new();
        let mut i: usize = 0;
        while i < n
            invariant
                n == old(self).view().len(),
                i <= n,
                self.lists@.len() == n - i,
                self.view() == old(self).view().skip(i as int),
                out@ == pending(old(self).view().take(i as int)),
            decreases n - i,
        {
            let ghost before = out@;
            let ghost lists_before = self.lists@;
            assert(self.view()[0] == old(self).view()[i as int]);
            let mut list = self.lists.remove(0);
            assert(list@ == old(self).view()[i as int]);
            out.append(&mut list);
            proof {
                assert(self.lists@ =~= lists_before.skip(1));
                let t = old(self).view().take(i as int + 1);
                assert(t.drop_last() =~= old(self).view().take(i as int));
                assert(t.last() == old(self).view()[i as int]);
                let v = self.view();
                let w = old(self).view().skip(i as int + 1);
                assert(v.len() == w.len());
                assert forall|k: int| 0 <= k < v.len() implies v[k] == w[k] by {
                    assert(self.lists@[k] == lists_before[k + 1]);
                    assert(old(self).view().skip(i as int)[k + 1] == w[k]);
                }
                assert(v =~= w);
            }
            i = i + 1;
        }
        let mut j: usize = 0;
        while j < n
            invariant
                j <= n,
                self.lists@.len() == j,
                self.view() == Seq::new(j as nat, |i: int| Seq::<CleanupEvent>::empty()),
            decreases n - j,
        {
            let ghost lists_before = self.lists@;
            let ghost view_before = self.view();
            self.lists.push(Vec::new());
            j = j + 1;
            assert forall|k: int| 0 <= k < j implies self.view()[k] == Seq::<CleanupEvent>::empty() by {
                if k < j - 1 {
                    assert(self.lists@[k] == lists_before[k]);
                    assert(view_before[k] == lists_before[k]@);
                    assert(view_before[k] == Seq::<CleanupEvent>::empty());
                }
            }
            assert(self.view() =~= Seq::new(j as nat, |i: int| Seq::<CleanupEvent>::empty()));
        }
        assert(old(self).view().take(n as int) =~= old(self).view());
        assert(self.view() =~= Seq::new(old(self).view().len(), |i: int| Seq::<CleanupEvent>::empty()));
        out
    }

    /// The worker's decision on one message: a destruction is deferred, a
    /// frame boundary releases the oldest list, shutdown waits for the GPU
    /// to go idle and then releases everything.
    pub fn step(&mut self, msg: CleanupMessage) -> (r: CleanupStep)
        requires
            old(self).wf(),
        ensures
            final(self).wf(),
            match msg {
                CleanupMessage::Destroy(e) => {
                    &&& final(self).view() == ring_push(old(self).view(), e)
                    &&& r.execute@ == Seq::<CleanupEvent>::empty()
                    &&& !r.wait_idle && !r.stop
                },
                CleanupMessage::NextFrame => {
                    &&& final(self).view() == ring_next(old(self).view())
                    &&& r.execute@ == old(self).view()[0]
                    &&& !r.wait_idle && !r.stop
                },
                CleanupMessage::Shutdown => {
                    &&& r.execute@ == pending(old(self).view())
                    &&& r.wait_idle && r.stop
                },
            },
    {
        match msg {
            CleanupMessage::Destroy(e) => {
                self.push(e);
                CleanupStep { execute: Vec::new(), wait_idle: false, stop: false }
            },
            CleanupMessage::NextFrame => {
                let execute = self.next_frame();
                CleanupStep { execute, wait_idle: false, stop: false }
            },
            CleanupMessage::Shutdown => {
                let execute = self.drain_all();
                CleanupStep { execute, wait_idle: true, stop: true }
            },
        }
    }
}

} // verus!
