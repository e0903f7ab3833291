use std::collections::HashMap;
use vstd::prelude::*;
use vstd::std_specs::hash::group_hash_axioms;

verus! {

broadcast use group_hash_axioms;

/// The live lookup table of one asset type: for each asset identity, the
/// GPU resource most recently published for it. Entries are replaced, never
/// changed in place; the value a replacement supersedes is handed back for
/// deferred destruction.
pub struct PreparedAssets<V> {
    lookup: HashMap<u64, V>,
    /// The identities present, in the order they were first published.
    ids: Vec<u64>,
}

/// The table and the superseded entries, in order, after publishing `batch`
/// (identity, resource) pairs one after another.
pub open spec fn publish_spec<V>(m: Map<u64, V>, batch: Seq<(u64, V)>) -> (Map<u64, V>, Seq<(u64, V)>)
    decreases batch.len(),
{
    if batch.len() == 0 {
        (m, seq![])
    } else {
        let (m1, r1) = publish_spec(m, batch.drop_last());
        let (id, v) = batch.last();
        (m1.insert(id, v), if m1.contains_key(id) { r1.push((id, m1[id])) } else { r1 })
    }
}

/// The values that `s` carries for identity `id`, in order.
pub open spec fn for_id<V>(s: Seq<(u64, V)>, id: u64) -> Seq<V>
    decreases s.len(),
{
    if s.len() == 0 {
        seq![]
    } else {
        for_id(s.drop_last(), id) + if s.last().0 == id { seq![s.last().1] } else { Seq::<V>::empty() }
    }
}

/// Publishing keeps, for each identity, the order in which its resources
/// were produced: afterwards the entry holds the last one published for it,
/// and the entries superseded for it are the one held before (if any)
/// followed by every earlier one of the batch, in order. Each superseded
/// resource is handed back exactly once.
pub proof fn lemma_publish_keeps_order<V>(m: Map<u64, V>, batch: Seq<(u64, V)>, id: u64)
    ensures
        ({
            let (m2, retired) = publish_spec(m, batch);
            let mine = for_id(batch, id);
            let before = if m.contains_key(id) { seq![m[id]] } else { Seq::<V>::empty() };
            &&& mine.len() > 0 ==> m2.contains_key(id) && m2[id] == mine.last()
            &&& mine.len() == 0 ==> (m2.contains_key(id) == m.contains_key(id)
                && (m.contains_key(id) ==> m2[id] == m[id]))
            &&& for_id(retired, id) == if mine.len() > 0 { before + mine.drop_last() } else { Seq::<V>::empty() }
        }),
    decreases batch.len(),
{
    if batch.len() > 0 {
        let init = batch.drop_last();
        lemma_publish_keeps_order(m, init, id);
        let (m1, r1) = publish_spec(m, init);
        let (x, v) = batch.last();
        let mine0 = for_id(init, id);
        let before = if m.contains_key(id) { seq![m[id]] } else { Seq::<V>::empty() };
        if x == id {
            assert(for_id(batch, id) == mine0.push(v)) by {
                assert(mine0 + seq![v] =~= mine0.push(v));
            }
            assert(mine0.push(v).drop_last() =~= mine0);
            let r2 = publish_spec(m, batch).1;
            if m1.contains_key(id) {
                assert(r2 == r1.push((id, m1[id])));
                assert(r1.push((id, m1[id])).drop_last() =~= r1);
                assert(for_id(r2, id) =~= for_id(r1, id) + seq![m1[id]]);
                if mine0.len() > 0 {
                    assert(before + mine0.drop_last() + seq![mine0.last()] =~= before + mine0);
                } else {
                    assert(for_id(r1, id) =~= Seq::<V>::empty());
                    assert(before =~= seq![m1[id]]);
                    assert(before + mine0 =~= before);
                }
            } else {
                assert(r2 == r1);
                if mine0.len() > 0 {
                    assert(false);
                }
                assert(before =~= Seq::<V>::empty());
                assert(before + mine0 =~= Seq::<V>::empty());
            }
        } else {
            assert(for_id(batch, id) =~= mine0);
            let r2 = publish_spec(m, batch).1;
            if m1.contains_key(x) {
                assert(r1.push((x, m1[x])).drop_last() =~= r1);
                assert(for_id(r2, id) =~= for_id(r1, id));
            }
        }
    }
}

/// A change notification for one asset identity.
#[derive(Clone, Copy, Debug, PartialEq, Eq, Structural)]
pub enum AssetChange {
    Created(u64),
    Modified(u64),
    Removed(u64),
}

/// The identities a change stream asks to extract, in order.
pub open spec fn extract_ids_spec(events: Seq<AssetChange>) -> Seq<u64>
    decreases events.len(),
{
    if events.len() == 0 {
        seq![]
    } else {
        extract_ids_spec(events.drop_last()) + match events.last() {
            AssetChange::Created(id) => seq![id],
            AssetChange::Modified(id) => seq![id],
            AssetChange::Removed(_) => Seq::<u64>::empty(),
        }
    }
}

/// The extract stage's work list: each creation or modification, in the
/// order notified, is extracted once; removals leave the published
/// resource in place.
pub fn extract_ids(events: &Vec<AssetChange>) -> (r: Vec<u64>)
    ensures
        r@ == extract_ids_spec(events@),
{
    let mut r: Vec<u64> = Vec::new();
    let mut i: usize = 0;
    while i < events.len()
        invariant
            i <= events@.len(),
            r@ == extract_ids_spec(events@.take(i as int)),
        decreases events@.len() - i,
    {
        proof {
            assert(events@.take(i as int + 1).drop_last() =~= events@.take(i as int));
        }
        match events[i] {
            AssetChange::Created(id) => r.push(id),
            AssetChange::Modified(id) => r.push(id),
            AssetChange::Removed(_) => {},
        }
        proof {
            assert(r@ =~= extract_ids_spec(events@.take(i as int + 1)));
        }
        i = i + 1;
    }
    assert(events@.take(events@.len() as int) =~= events@);
    r
}

/// An asset's dependencies once all are loaded, in order; `None` while any
/// is missing, in which case the change is skipped and retried when the
/// dependency itself reports a change.
pub fn resolve_dependencies<T>(deps: Vec<Option<T>>) -> (r: Option<Vec<T>>)
    ensures
        r is None <==> exists|i: int| 0 <= i < deps@.len() && #[trigger] deps@[i] is None,
        r matches Some(v) ==> v@.len() == deps@.len() && forall|i: int| 0 <= i < deps@.len() ==> deps@[i]
            == Some(#[trigger] v@[i]),
{
    let ghost all = deps@;
    let mut rest = deps;
    let n = rest.len();
    let mut out: Vec<T> = Vec::new();
    let mut i: usize = 0;
    while i < n
        invariant
            n == all.len(),
            all == deps@,
            i <= n,
            rest@ == all.skip(i as int),
            out@.len() == i,
            forall|j: int| 0 <= j < i ==> all[j] == Some(#[trigger] out@[j]),
        decreases n - i,
    {
        let d = rest.remove(0);
        assert(d == all[i as int]);
        match d {
            Some(x) => out.push(x),
            None => {
                assert(all[i as int] is None);
                return None;
            },
        }
        assert(rest@ =~= all.skip(i as int + 1));
        i = i + 1;
    }
    assert forall|j: int| 0 <= j < all.len() implies !(#[trigger] all[j] is None) by {
        assert(all[j] == Some(out@[j]));
    }
    Some(out)
}

/// A stream passed through the prepare stage: each extracted snapshot,
/// in arrival order, turned into its resource by `prepare`.
pub open spec fn prepared_stream<E, V>(s: Seq<(u64, E)>, prepare: spec_fn(E) -> V) -> Seq<(u64, V)> {
    s.map_values(|x: (u64, E)| (x.0, prepare(x.1)))
}

/// The prepare stage keeps each identity's order: the resources it hands
/// to publish for `id` are that identity's snapshots, prepared, in the
/// order they were extracted.
pub proof fn lemma_prepare_keeps_order<E, V>(s: Seq<(u64, E)>, prepare: spec_fn(E) -> V, id: u64)
    ensures
        for_id(prepared_stream(s, prepare), id) == for_id(s, id).map_values(prepare),
    decreases s.len(),
{
    if s.len() > 0 {
        lemma_prepare_keeps_order(s.drop_last(), prepare, id);
        assert(prepared_stream(s, prepare).drop_last() =~= prepared_stream(s.drop_last(), prepare));
        let a = for_id(s.drop_last(), id);
        if s.last().0 == id {
            assert((a + seq![s.last().1]).map_values(prepare) =~= a.map_values(prepare) + seq![prepare(s.last().1)]);
        } else {
            assert((a + Seq::<E>::empty()).map_values(prepare) =~= a.map_values(prepare) + Seq::<V>::empty());
        }
    }
}

impl<V> PreparedAssets<V> {
    pub closed spec fn view(&self) -> Map<u64, V> {
        self.lookup@
    }

    /// The identity list names each entry of the table once.
    pub closed spec fn wf(&self) -> bool {
        &&& self.ids@.no_duplicates()
        &&& self.ids@.to_set() == self.lookup@.dom()
    }

    /// An empty table.
    pub fn new() -> (r: PreparedAssets<V>)
        ensures
            r.wf(),
            r@ == Map::<u64, V>::empty(),
    {
        let r = PreparedAssets { lookup: HashMap::new(), ids: Vec::new() };
        assert(r.ids@.to_set() =~= Set::<u64>::empty());
        r
    }

    /// The resource published for `id`, if any; render-time consumers treat
    /// `None` as "not ready".
    pub fn get(&self, id: u64) -> (r: Option<&V>)
        ensures
            r matches Some(v) ==> self@.contains_key(id) && *v == self@[id],
            r is None <==> !self@.contains_key(id),
    {
        self.lookup.get(&id)
    }

    /// Number of identities with a published resource.
    pub fn len(&self) -> (r: usize)
        ensures
            r == self@.len(),
    {
        self.lookup.len()
    }

    /// Installs each prepared resource of `batch`, in order, and hands back
    /// every entry it supersedes, in order, for deferred destruction.
    pub fn publish(&mut self, batch: Vec<(u64, V)>) -> (retired: Vec<(u64, V)>)
        requires
            old(self).wf(),
        ensures
            final(self).wf(),
            final(self)@ == publish_spec(old(self)@, batch@).0,
            retired@ == publish_spec(old(self)@, batch@).1,
    {
        let mut batch = batch;
        let ghost all = batch@;
        let mut retired: Vec<(u64, V)> = Vec::new();
        let mut i: usize = 0;
        let n = batch.len();
        while i < n
            invariant
                n == all.len(),
                i <= n,
                batch@ == all.skip(i as int),
                (self@, retired@) == publish_spec(old(self)@, all.take(i as int)),
                self.wf(),
            decreases n - i,
        {
            let (id, v) = batch.remove(0);
            proof {
                assert(all.take(i as int + 1).drop_last() =~= all.take(i as int));
                assert(all.take(i as int + 1).last() == all[i as int]);
            }
            let ghost m1 = self@;
            match self.lookup.insert(id, v) {
                Some(old_v) => {
                    retired.push((id, old_v));
                },
                None => {
                    proof {
                        self.ids@.lemma_push_to_set_commute(id);
                        assert(!self.ids@.contains(id));
                    }
                    self.ids.push(id);
                },
            }
            proof {
                assert(self.ids@.to_set() =~= self.lookup@.dom());
                assert(batch@ =~= all.skip(i as int + 1));
            }
            i = i + 1;
        }
        assert(all.take(n as int) =~= all);
        retired
    }

    /// Empties the table at shutdown, handing back every entry once for
    /// deferred destruction.
    pub fn take_all(&mut self) -> (r: Vec<(u64, V)>)
        requires
            old(self).wf(),
        ensures
            final(self).wf(),
            final(self)@ == Map::<u64, V>::empty(),
            r@.len() == old(self)@.len(),
            r@.map_values(|e: (u64, V)| e.0).no_duplicates(),
            r@.map_values(|e: (u64, V)| e.0).to_set() == old(self)@.dom(),
            forall|i: int| 0 <= i < r@.len() ==> old(self)@.contains_key(#[trigger] r@[i].0) && old(self)@[r@[i].0] == r@[i].1,
    {
        let mut ids: Vec<u64> = Vec::new();
        std::mem::swap(&mut ids, &mut self.ids);
        let ghost old_map = self.lookup@;
        let mut r: Vec<(u64, V)> = Vec::new();
        let mut i: usize = 0;
        while i < ids.len()
            invariant
                ids@.no_duplicates(),
                ids@.to_set() == old_map.dom(),
                i <= ids@.len(),
                self.ids@ == Seq::<u64>::empty(),
                self.lookup@ == old_map.remove_keys(ids@.take(i as int).to_set()),
                r@.map_values(|e: (u64, V)| e.0) == ids@.take(i as int),
                forall|j: int| 0 <= j < r@.len() ==> old_map.contains_key(#[trigger] r@[j].0) && old_map[r@[j].0] == r@[j].1,
            decreases ids@.len() - i,
        {
            let id = ids[i];
            proof {
                assert(ids@.to_set().contains(ids@[i as int]));
                assert(!ids@.take(i as int).contains(id)) by {
                    if ids@.take(i as int).contains(id) {
                        let k = choose|k: int| 0 <= k < i && ids@.take(i as int)[k] == id;
                        assert(ids@[k] == ids@[i as int]);
                    }
                }
            }
            match self.lookup.remove(&id) {
                Some(v) => {
                    r.push((id, v));
                },
                None => {
                    assert(false);
                },
            }
            proof {
                ids@.take(i as int).lemma_push_to_set_commute(id);
                assert(ids@.take(i as int + 1) =~= ids@.take(i as int).push(id));
                assert(self.lookup@ =~= old_map.remove_keys(ids@.take(i as int + 1).to_set()));
                assert(r@.map_values(|e: (u64, V)| e.0) =~= ids@.take(i as int + 1));
            }
            i = i + 1;
        }
        proof {
            assert(ids@.take(ids@.len() as int) =~= ids@);
            assert(self.lookup@ =~= Map::<u64, V>::empty());
            assert(self.ids@.to_set() =~= Set::<u64>::empty());
            ids@.unique_seq_to_set();
        }
        r
    }
}

} // verus!
