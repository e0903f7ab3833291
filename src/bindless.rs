use std::collections::HashMap;
use vstd::prelude::*;
use vstd::std_specs::hash::group_hash_axioms;

verus! {

broadcast use group_hash_axioms;

/// Slots of the bindless texture array, keyed by image-view handle. Each
/// view keeps the slot it was first given; slots are handed out in order and
/// never reused.
pub struct DescriptorSlots {
    slots: HashMap<u64, u32>,
    next: u32,
}

impl DescriptorSlots {
    pub closed spec fn view(&self) -> Map<u64, u32> {
        self.slots@
    }

    /// The slot the next new view will get.
    pub closed spec fn next_slot(&self) -> u32 {
        self.next
    }

    /// Every slot given out is below the next one, and no two views share a slot.
    pub open spec fn wf(&self) -> bool {
        &&& forall|v: u64| #[trigger] self@.contains_key(v) ==> self@[v] < self.next_slot()
        &&& forall|a: u64, b: u64| #[trigger] self@.contains_key(a) && #[trigger] self@.contains_key(b)
            && a != b ==> self@[a] != self@[b]
    }

    /// No slot given out yet.
    pub fn new() -> (r: DescriptorSlots)
        ensures
            r.wf(),
            r@ == Map::<u64, u32>::empty(),
            r.next_slot() == 0,
    {
        DescriptorSlots { slots: HashMap::new(), next: 0 }
    }

    /// The slot of `view`: its memoized slot if it has one (`fresh` false),
    /// else the next slot (`fresh` true, and the caller writes the
    /// descriptor). `None` only when a new view finds every slot taken.
    pub fn slot_for(&mut self, view: u64) -> (r: Option<(u32, bool)>)
        requires
            old(self).wf(),
        ensures
            final(self).wf(),
            old(self)@.contains_key(view) ==> r == Some((old(self)@[view], false))
                && final(self)@ == old(self)@ && final(self).next_slot() == old(self).next_slot(),
            !old(self)@.contains_key(view) && old(self).next_slot() == u32::MAX ==> r is None
                && final(self)@ == old(self)@ && final(self).next_slot() == old(self).next_slot(),
            !old(self)@.contains_key(view) && old(self).next_slot() < u32::MAX ==> r == Some((
                old(self).next_slot(),
                true,
            )) && final(self)@ == old(self)@.insert(view, old(self).next_slot()) && final(self).next_slot()
                == old(self).next_slot() + 1,
    {
        match self.slots.get(&view) {
            Some(slot) => Some((*slot, false)),
            None => {
                if self.next == u32::MAX {
                    None
                } else {
                    let slot = self.next;
                    self.slots.insert(view, slot);
                    self.next = slot + 1;
                    Some((slot, true))
                }
            },
        }
    }
}

} // verus!
