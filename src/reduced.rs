use vstd::prelude::*;
use crate::keyed::{
    append_items, duplicate_entries, entry_views, insert_entry, keys_unique, upsert,
};
use crate::model::{Call, Constant, Entry, Error, Event, ItemView, PalletId, PalletItem, Storage};

verus! {

/// What the comparison sees of a pallet: its index, its name, and its items of
/// all five kinds (calls, events, errors, storage entries, constants, in this
/// order).
pub struct PalletView {
    pub index: u32,
    pub name: Seq<char>,
    pub items: Seq<ItemView>,
}

/// The canonical form of one pallet. Each of the five collections is a
/// mapping: no two of its entries share a key.
#[derive(Debug)]
pub struct ReducedPallet {
    pub index: PalletId,
    pub name: String,
    pub calls: Vec<Call>,
    pub events: Vec<Event>,
    pub errors: Vec<Error>,
    pub storages: Vec<Storage>,
    pub constants: Vec<Constant>,
}

impl View for ReducedPallet {
    type V = PalletView;

    open spec fn view(&self) -> PalletView {
        PalletView {
            index: self.index,
            name: self.name@,
            items: entry_views(self.calls@) + entry_views(self.events@) + entry_views(
                self.errors@,
            ) + entry_views(self.storages@) + entry_views(self.constants@),
        }
    }
}

pub proof fn lemma_concat_unique(a: Seq<ItemView>, b: Seq<ItemView>)
    requires
        keys_unique(a),
        keys_unique(b),
        forall|i: int, j: int| 0 <= i < a.len() && 0 <= j < b.len() ==> a[i].key != b[j].key,
    ensures
        keys_unique(a + b),
{
    let s = a + b;
    assert forall|i: int, j: int|
        0 <= i < s.len() && 0 <= j < s.len() && #[trigger] s[i].key == #[trigger] s[j].key
        implies i == j by {
        if i < a.len() && j >= a.len() {
            assert(a[i].key != b[j - a.len()].key);
        } else if j < a.len() && i >= a.len() {
            assert(a[j].key != b[i - a.len()].key);
        } else if i >= a.len() && j >= a.len() {
            assert(b[i - a.len()].key == b[j - a.len()].key);
        } else {
            assert(a[i].key == a[j].key);
        }
    }
}

impl ReducedPallet {
    /// Each of the five collections is a mapping.
    pub open spec fn wf(&self) -> bool {
        &&& keys_unique(entry_views(self.calls@))
        &&& keys_unique(entry_views(self.events@))
        &&& keys_unique(entry_views(self.errors@))
        &&& keys_unique(entry_views(self.storages@))
        &&& keys_unique(entry_views(self.constants@))
    }

    pub proof fn lemma_wf_items(&self)
        requires
            self.wf(),
        ensures
            keys_unique(self@.items),
    {
        let c = entry_views(self.calls@);
        let ev = entry_views(self.events@);
        let er = entry_views(self.errors@);
        let st = entry_views(self.storages@);
        let co = entry_views(self.constants@);
        lemma_concat_unique(c, ev);
        lemma_concat_unique(c + ev, er);
        lemma_concat_unique(c + ev + er, st);
        lemma_concat_unique(c + ev + er + st, co);
    }

    /// A pallet with no item.
    pub fn new(index: PalletId, name: String) -> (r: ReducedPallet)
        ensures
            r.wf(),
            r@.index == index,
            r@.name == name@,
            r@.items == Seq::<ItemView>::empty(),
    {
        let r = ReducedPallet {
            index,
            name,
            calls: Vec::new(),
            events: Vec::new(),
            errors: Vec::new(),
            storages: Vec::new(),
            constants: Vec::new(),
        };
        assert(r@.items =~= Seq::<ItemView>::empty());
        r
    }

    /// Adds a call; one with the same index is replaced.
    pub fn add_call(&mut self, c: Call)
        requires
            old(self).wf(),
        ensures
            final(self).wf(),
            final(self).index == old(self).index,
            final(self).name == old(self).name,
            entry_views(final(self).calls@) == upsert(entry_views(old(self).calls@), c@),
            final(self).events == old(self).events,
            final(self).errors == old(self).errors,
            final(self).storages == old(self).storages,
            final(self).constants == old(self).constants,
    {
        insert_entry(&mut self.calls, c);
    }

    /// Adds an event; one with the same index is replaced.
    pub fn add_event(&mut self, e: Event)
        requires
            old(self).wf(),
        ensures
            final(self).wf(),
            final(self).index == old(self).index,
            final(self).name == old(self).name,
            entry_views(final(self).events@) == upsert(entry_views(old(self).events@), e@),
            final(self).calls == old(self).calls,
            final(self).errors == old(self).errors,
            final(self).storages == old(self).storages,
            final(self).constants == old(self).constants,
    {
        insert_entry(&mut self.events, e);
    }

    /// Adds an error; one with the same index is replaced.
    pub fn add_error(&mut self, e: Error)
        requires
            old(self).wf(),
        ensures
            final(self).wf(),
            final(self).index == old(self).index,
            final(self).name == old(self).name,
            entry_views(final(self).errors@) == upsert(entry_views(old(self).errors@), e@),
            final(self).calls == old(self).calls,
            final(self).events == old(self).events,
            final(self).storages == old(self).storages,
            final(self).constants == old(self).constants,
    {
        insert_entry(&mut self.errors, e);
    }

    /// Adds a storage entry; one with the same name is replaced.
    pub fn add_storage(&mut self, s: Storage)
        requires
            old(self).wf(),
        ensures
            final(self).wf(),
            final(self).index == old(self).index,
            final(self).name == old(self).name,
            entry_views(final(self).storages@) == upsert(entry_views(old(self).storages@), s@),
            final(self).calls == old(self).calls,
            final(self).events == old(self).events,
            final(self).errors == old(self).errors,
            final(self).constants == old(self).constants,
    {
        insert_entry(&mut self.storages, s);
    }

    /// Adds a constant; one with the same name is replaced.
    pub fn add_constant(&mut self, c: Constant)
        requires
            old(self).wf(),
        ensures
            final(self).wf(),
            final(self).index == old(self).index,
            final(self).name == old(self).name,
            entry_views(final(self).constants@) == upsert(
                entry_views(old(self).constants@),
                c@,
            ),
            final(self).calls == old(self).calls,
            final(self).events == old(self).events,
            final(self).errors == old(self).errors,
            final(self).storages == old(self).storages,
    {
        insert_entry(&mut self.constants, c);
    }

    /// All the items of the pallet, kind after kind.
    pub fn items(&self) -> (r: Vec<PalletItem>)
        ensures
            entry_views(r@) == self@.items,
    {
        let mut r: Vec<PalletItem> = Vec::new();
        assert(entry_views(r@) =~= Seq::<ItemView>::empty());
        append_items(&self.calls, &mut r);
        append_items(&self.events, &mut r);
        append_items(&self.errors, &mut r);
        append_items(&self.storages, &mut r);
        append_items(&self.constants, &mut r);
        assert(entry_views(r@) =~= self@.items);
        r
    }

    pub fn duplicate(&self) -> (r: ReducedPallet)
        ensures
            r@ == self@,
            self.wf() ==> r.wf(),
    {
        ReducedPallet {
            index: self.index,
            name: self.name.clone(),
            calls: duplicate_entries(&self.calls),
            events: duplicate_entries(&self.events),
            errors: duplicate_entries(&self.errors),
            storages: duplicate_entries(&self.storages),
            constants: duplicate_entries(&self.constants),
        }
    }
}

/// Whether some pallet of `s` has the index `id`.
pub open spec fn has_pallet(s: Seq<PalletView>, id: u32) -> bool {
    exists|i: int| 0 <= i < s.len() && s[i].index == id
}

pub open spec fn pallet_position(s: Seq<PalletView>, id: u32) -> int {
    choose|i: int| 0 <= i < s.len() && s[i].index == id
}

/// The pallet of `s` with index `id` (meaningful where `has_pallet(s, id)`).
pub open spec fn pallet_lookup(s: Seq<PalletView>, id: u32) -> PalletView {
    s[pallet_position(s, id)]
}

pub open spec fn pallet_ids_unique(s: Seq<PalletView>) -> bool {
    forall|i: int, j: int|
        0 <= i < s.len() && 0 <= j < s.len() && #[trigger] s[i].index == #[trigger] s[j].index
            ==> i == j
}

/// Inserting the pallet `p` into `s`: it replaces the pallet with the same
/// index, in its place, or comes last.
pub open spec fn upsert_pallet(s: Seq<PalletView>, p: PalletView) -> Seq<PalletView> {
    if has_pallet(s, p.index) {
        s.update(pallet_position(s, p.index), p)
    } else {
        s.push(p)
    }
}

/// A runtime in canonical form: pallets keyed by index, items keyed inside
/// each pallet.
pub open spec fn runtime_wf(s: Seq<PalletView>) -> bool {
    &&& pallet_ids_unique(s)
    &&& forall|i: int| 0 <= i < s.len() ==> keys_unique(#[trigger] s[i].items)
}

pub proof fn lemma_pallet_lookup_at(s: Seq<PalletView>, i: int)
    requires
        pallet_ids_unique(s),
        0 <= i < s.len(),
    ensures
        has_pallet(s, s[i].index),
        pallet_position(s, s[i].index) == i,
        pallet_lookup(s, s[i].index) == s[i],
{
    assert(has_pallet(s, s[i].index));
    let p = pallet_position(s, s[i].index);
    assert(s[p].index == s[i].index);
}

/// The canonical form of a runtime: its pallets, keyed by index.
#[derive(Debug)]
pub struct ReducedRuntime {
    pub pallets: Vec<ReducedPallet>,
}

pub open spec fn pallet_views(s: Seq<ReducedPallet>) -> Seq<PalletView> {
    s.map_values(|p: ReducedPallet| p@)
}

impl View for ReducedRuntime {
    type V = Seq<PalletView>;

    open spec fn view(&self) -> Seq<PalletView> {
        pallet_views(self.pallets@)
    }
}

impl ReducedRuntime {
    pub open spec fn wf(&self) -> bool {
        &&& pallet_ids_unique(self@)
        &&& forall|i: int| 0 <= i < self.pallets.len() ==> (#[trigger] self.pallets@[i]).wf()
    }

    pub proof fn lemma_wf(&self)
        requires
            self.wf(),
        ensures
            runtime_wf(self@),
    {
        assert forall|i: int| 0 <= i < self@.len() implies keys_unique(#[trigger] self@[i].items) by {
            self.pallets@[i].lemma_wf_items();
        }
    }

    /// A runtime without pallets.
    pub fn new() -> (r: ReducedRuntime)
        ensures
            r.wf(),
            r@ == Seq::<PalletView>::empty(),
            r.pallets@.len() == 0,
    {
        let r = ReducedRuntime { pallets: Vec::new() };
        assert(r@ =~= Seq::<PalletView>::empty());
        r
    }

    /// Position of the pallet with index `id`.
    fn find(&self, id: PalletId) -> (r: Option<usize>)
        ensures
            match r {
                Some(i) => i < self.pallets.len() && self@[i as int].index == id,
                None => !has_pallet(self@, id),
            },
    {
        let mut i: usize = 0;
        while i < self.pallets.len()
            invariant
                i <= self.pallets.len(),
                forall|j: int| 0 <= j < i ==> self@[j].index != id,
            decreases self.pallets.len() - i,
        {
            if self.pallets[i].index == id {
                return Some(i);
            }
            i = i + 1;
        }
        None
    }

    /// Adds a pallet; one with the same index is replaced.
    pub fn insert(&mut self, p: ReducedPallet)
        requires
            old(self).wf(),
            p.wf(),
        ensures
            final(self).wf(),
            final(self)@ == upsert_pallet(old(self)@, p@),
            final(self).pallets@ == if has_pallet(old(self)@, p@.index) {
                old(self).pallets@.update(pallet_position(old(self)@, p@.index), p)
            } else {
                old(self).pallets@.push(p)
            },
    {
        let ghost s = self@;
        let ghost pv = p@;
        match self.find(p.index) {
            Some(i) => {
                proof {
                    lemma_pallet_lookup_at(s, i as int);
                }
                self.pallets.set(i, p);
                assert(self@ =~= s.update(i as int, pv));
                assert forall|a: int, b: int|
                    0 <= a < self@.len() && 0 <= b < self@.len() && #[trigger] self@[a].index
                        == #[trigger] self@[b].index implies a == b by {
                    assert(s[a].index == s[b].index);
                }
            },
            None => {
                self.pallets.push(p);
                assert(self@ =~= s.push(pv));
                assert forall|a: int, b: int|
                    0 <= a < self@.len() && 0 <= b < self@.len() && #[trigger] self@[a].index
                        == #[trigger] self@[b].index implies a == b by {
                    if a < s.len() && b == s.len() {
                        assert(s[a].index == pv.index);
                    }
                    if b < s.len() && a == s.len() {
                        assert(s[b].index == pv.index);
                    }
                }
            },
        }
    }

    /// The pallet with index `pallet_id`.
    pub fn get_pallet_by_id(&self, pallet_id: PalletId) -> (r: Option<&ReducedPallet>)
        requires
            self.wf(),
        ensures
            match r {
                Some(p) => has_pallet(self@, pallet_id) && p@ == pallet_lookup(self@, pallet_id),
                None => !has_pallet(self@, pallet_id),
            },
    {
        match self.find(pallet_id) {
            Some(i) => {
                proof {
                    lemma_pallet_lookup_at(self@, i as int);
                }
                Some(&self.pallets[i])
            },
            None => None,
        }
    }

    /// The first pallet named `pallet_name`. Prefer [`Self::get_pallet_by_id`]:
    /// the index is what identifies a pallet.
    pub fn get_pallet_by_name(&self, pallet_name: &str) -> (r: Option<&ReducedPallet>)
        ensures
            match r {
                Some(p) => exists|i: int|
                    0 <= i < self@.len() && self@[i] == p@ && p@.name == pallet_name@,
                None => forall|i: int| 0 <= i < self@.len() ==> self@[i].name != pallet_name@,
            },
    {
        let wanted = pallet_name.to_owned();
        let mut i: usize = 0;
        while i < self.pallets.len()
            invariant
                i <= self.pallets.len(),
                wanted@ == pallet_name@,
                forall|j: int| 0 <= j < i ==> self@[j].name != pallet_name@,
            decreases self.pallets.len() - i,
        {
            if self.pallets[i].name == wanted {
                assert(self@[i as int] == self.pallets@[i as int]@);
                return Some(&self.pallets[i]);
            }
            i = i + 1;
        }
        None
    }
}

} // verus!
