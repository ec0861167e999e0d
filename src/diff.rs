use vstd::prelude::*;
use crate::keyed::{entry_views, find_entry, has_key, keys_unique, lemma_lookup_at, lookup};
use crate::model::{Entry, FieldChange, ItemKey, ItemView, KeyView, PalletId, PalletItem};
use crate::reduced::{
    has_pallet, pallet_lookup, PalletView,
    ReducedPallet, ReducedRuntime,
};

verus! {

/// Mathematical form of an [`ItemChange`].
pub enum ChangeView {
    Added(KeyView, ItemView),
    Removed(KeyView),
    Changed(KeyView, Seq<FieldChange>),
}

/// How the item `x` of the old mapping fares in the new mapping `b`:
/// removed, changed (with the fields that differ), or unchanged (`None`).
pub open spec fn change_for(x: ItemView, b: Seq<ItemView>) -> Option<ChangeView> {
    if !has_key(b, x.key) {
        Some(ChangeView::Removed(x.key))
    } else if lookup(b, x.key) == x {
        None
    } else {
        Some(ChangeView::Changed(x.key, crate::model::field_changes(x, lookup(b, x.key))))
    }
}

pub open spec fn opt_seq<A>(o: Option<A>) -> Seq<A> {
    match o {
        Some(x) => seq![x],
        None => Seq::empty(),
    }
}

/// The removals and changes from `a` to `b`, in the order of `a`.
pub open spec fn removals_and_changes(a: Seq<ItemView>, b: Seq<ItemView>) -> Seq<ChangeView>
    decreases a.len(),
{
    if a.len() == 0 {
        Seq::empty()
    } else {
        removals_and_changes(a.drop_last(), b) + opt_seq(change_for(a.last(), b))
    }
}

/// The additions from `a` to `b`, in the order of `b`.
pub open spec fn additions(a: Seq<ItemView>, b: Seq<ItemView>) -> Seq<ChangeView>
    decreases b.len(),
{
    if b.len() == 0 {
        Seq::empty()
    } else {
        additions(a, b.drop_last()) + (if has_key(a, b.last().key) {
            Seq::empty()
        } else {
            seq![ChangeView::Added(b.last().key, b.last())]
        })
    }
}

/// How the item `x` fares in the new mapping `b`.
fn change_of(x: &PalletItem, b: &Vec<PalletItem>) -> (r: Option<ItemChange>)
    requires
        keys_unique(entry_views(b@)),
    ensures
        match r {
            Some(c) => change_for(x@, entry_views(b@)) == Some(c@),
            None => change_for(x@, entry_views(b@)) is None,
        },
{
    let ghost bv = entry_views(b@);
    let k = x.item_key();
    match find_entry(b, &k) {
        None => Some(ItemChange::Removed(k)),
        Some(j) => {
            proof {
                lemma_lookup_at(bv, j as int);
            }
            let fields = x.field_changes(&b[j]);
            if fields.len() == 0 {
                assert(x@ == b@[j as int]@);
                None
            } else {
                assert(x@ != b@[j as int]@);
                Some(ItemChange::Changed(k, fields))
            }
        },
    }
}

/// The keyed difference between the item mappings `a` (old) and `b` (new).
/// Unchanged items do not appear.
pub open spec fn item_changes(a: Seq<ItemView>, b: Seq<ItemView>) -> Seq<ChangeView> {
    removals_and_changes(a, b) + additions(a, b)
}

/// Mathematical form of a [`PalletChange`].
pub enum PalletChangeView {
    Added(u32, PalletView),
    Removed(u32),
    Changed(u32, Seq<ChangeView>),
}

/// How the pallet `x` of the old runtime fares in the new runtime `b`: it is
/// changed when at least one of its item mappings differs.
pub open spec fn pallet_change_for(x: PalletView, b: Seq<PalletView>) -> Option<PalletChangeView> {
    if !has_pallet(b, x.index) {
        Some(PalletChangeView::Removed(x.index))
    } else if item_changes(x.items, pallet_lookup(b, x.index).items).len() == 0 {
        None
    } else {
        Some(
            PalletChangeView::Changed(
                x.index,
                item_changes(x.items, pallet_lookup(b, x.index).items),
            ),
        )
    }
}

pub open spec fn pallet_removals_and_changes(a: Seq<PalletView>, b: Seq<PalletView>) -> Seq<
    PalletChangeView,
>
    decreases a.len(),
{
    if a.len() == 0 {
        Seq::empty()
    } else {
        pallet_removals_and_changes(a.drop_last(), b) + opt_seq(pallet_change_for(a.last(), b))
    }
}

pub open spec fn pallet_additions(a: Seq<PalletView>, b: Seq<PalletView>) -> Seq<PalletChangeView>
    decreases b.len(),
{
    if b.len() == 0 {
        Seq::empty()
    } else {
        pallet_additions(a, b.drop_last()) + (if has_pallet(a, b.last().index) {
            Seq::empty()
        } else {
            seq![PalletChangeView::Added(b.last().index, b.last())]
        })
    }
}

/// The keyed difference between the runtimes `a` (old) and `b` (new).
/// Unchanged pallets do not appear.
pub open spec fn runtime_changes(a: Seq<PalletView>, b: Seq<PalletView>) -> Seq<PalletChangeView> {
    pallet_removals_and_changes(a, b) + pallet_additions(a, b)
}

/// Whether one item change keeps the API compatible: additions do, removals
/// do not, and a changed item does only when it is a constant (whose value
/// changed).
pub open spec fn item_change_compatible(c: ChangeView) -> bool {
    match c {
        ChangeView::Added(_, _) => true,
        ChangeView::Removed(_) => false,
        ChangeView::Changed(k, _) => k is Constant,
    }
}

pub open spec fn changes_compatible(cs: Seq<ChangeView>) -> bool {
    forall|i: int| 0 <= i < cs.len() ==> item_change_compatible(#[trigger] cs[i])
}

/// Whether one pallet change keeps the API compatible: an added pallet does,
/// a removed one does not, a changed one does when all its item changes do.
pub open spec fn pallet_change_compatible(p: PalletChangeView) -> bool {
    match p {
        PalletChangeView::Added(_, _) => true,
        PalletChangeView::Removed(_) => false,
        PalletChangeView::Changed(_, cs) => changes_compatible(cs),
    }
}

pub open spec fn runtime_compatible(ps: Seq<PalletChangeView>) -> bool {
    forall|i: int| 0 <= i < ps.len() ==> pallet_change_compatible(#[trigger] ps[i])
}

/// One difference between two item mappings.
#[derive(Debug)]
pub enum ItemChange {
    Added(ItemKey, PalletItem),
    Removed(ItemKey),
    Changed(ItemKey, Vec<FieldChange>),
}

impl View for ItemChange {
    type V = ChangeView;

    open spec fn view(&self) -> ChangeView {
        match self {
            ItemChange::Added(k, x) => ChangeView::Added(k@, x@),
            ItemChange::Removed(k) => ChangeView::Removed(k@),
            ItemChange::Changed(k, f) => ChangeView::Changed(k@, f@),
        }
    }
}

pub open spec fn change_views(s: Seq<ItemChange>) -> Seq<ChangeView> {
    s.map_values(|c: ItemChange| c@)
}

/// One difference between two runtimes.
#[derive(Debug)]
pub enum PalletChange {
    Added(PalletId, ReducedPallet),
    Removed(PalletId),
    Changed(PalletId, Vec<ItemChange>),
}

impl View for PalletChange {
    type V = PalletChangeView;

    open spec fn view(&self) -> PalletChangeView {
        match self {
            PalletChange::Added(k, p) => PalletChangeView::Added(*k, p@),
            PalletChange::Removed(k) => PalletChangeView::Removed(*k),
            PalletChange::Changed(k, cs) => PalletChangeView::Changed(*k, change_views(cs@)),
        }
    }
}

impl PalletChange {
    /// The index of the pallet concerned.
    pub fn pallet_id(&self) -> (r: PalletId)
        ensures
            r == pallet_change_id(self@),
    {
        match self {
            PalletChange::Added(k, _) => *k,
            PalletChange::Removed(k) => *k,
            PalletChange::Changed(k, _) => *k,
        }
    }
}

pub open spec fn pallet_change_id(p: PalletChangeView) -> u32 {
    match p {
        PalletChangeView::Added(k, _) => k,
        PalletChangeView::Removed(k) => k,
        PalletChangeView::Changed(k, _) => k,
    }
}

/// The differences between two runtimes, pallet by pallet.
#[derive(Debug)]
pub struct ChangeSet {
    pub pallets: Vec<PalletChange>,
}

impl View for ChangeSet {
    type V = Seq<PalletChangeView>;

    open spec fn view(&self) -> Seq<PalletChangeView> {
        self.pallets@.map_values(|p: PalletChange| p@)
    }
}

/// The keyed difference between the item mappings `a` (old) and `b` (new):
/// first the removed and changed items, in the order of `a`, then the added
/// ones, in the order of `b`.
pub fn diff_items(a: &Vec<PalletItem>, b: &Vec<PalletItem>) -> (r: Vec<ItemChange>)
    requires
        keys_unique(entry_views(b@)),
    ensures
        change_views(r@) == item_changes(entry_views(a@), entry_views(b@)),
{
    let ghost av = entry_views(a@);
    let ghost bv = entry_views(b@);
    let mut r: Vec<ItemChange> = Vec::new();
    let mut i: usize = 0;
    while i < a.len()
        invariant
            i <= a.len(),
            av == entry_views(a@),
            bv == entry_views(b@),
            keys_unique(bv),
            change_views(r@) == removals_and_changes(av.subrange(0, i as int), bv),
        decreases a.len() - i,
    {
        let ghost before = r@;
        let ghost sub = av.subrange(0, i as int + 1);
        assert(sub.drop_last() =~= av.subrange(0, i as int));
        assert(sub.last() == a@[i as int]@);
        match change_of(&a[i], b) {
            Some(c) => {
                r.push(c);
            },
            None => {},
        }
        assert(change_views(r@) =~= change_views(before) + opt_seq(change_for(a@[i as int]@, bv)));
        i = i + 1;
    }
    assert(av.subrange(0, i as int) =~= av);
    let ghost first = r@;
    let mut j: usize = 0;
    while j < b.len()
        invariant
            i == a.len(),
            j <= b.len(),
            av == entry_views(a@),
            bv == entry_views(b@),
            change_views(first) == removals_and_changes(av, bv),
            change_views(r@) == change_views(first) + additions(av, bv.subrange(0, j as int)),
        decreases b.len() - j,
    {
        let ghost before = r@;
        let y = &b[j];
        let k = y.item_key();
        let ghost sub = bv.subrange(0, j as int + 1);
        assert(sub.drop_last() =~= bv.subrange(0, j as int));
        assert(sub.last() == y@);
        match find_entry(a, &k) {
            None => {
                r.push(ItemChange::Added(k, y.duplicate()));
                assert(change_views(r@) =~= change_views(before) + seq![
                    ChangeView::Added(y@.key, y@),
                ]);
            },
            Some(_) => {},
        }
        j = j + 1;
    }
    assert(bv.subrange(0, j as int) =~= bv);
    r
}

/// The keyed difference between the runtimes `a` (old) and `b` (new): first
/// the removed and changed pallets, in the order of `a`, then the added ones,
/// in the order of `b`. A pallet present in both is changed when at least one
/// of its item mappings differs, and then carries its item changes.
pub fn diff(a: &ReducedRuntime, b: &ReducedRuntime) -> (r: ChangeSet)
    requires
        a.wf(),
        b.wf(),
    ensures
        r@ == runtime_changes(a@, b@),
{
    let ghost av = a@;
    let ghost bv = b@;
    let mut r: Vec<PalletChange> = Vec::new();
    let mut i: usize = 0;
    while i < a.pallets.len()
        invariant
            i <= a.pallets.len(),
            av == a@,
            bv == b@,
            b.wf(),
            r@.map_values(|p: PalletChange| p@) == pallet_removals_and_changes(
                av.subrange(0, i as int),
                bv,
            ),
        decreases a.pallets.len() - i,
    {
        let ghost before = r@.map_values(|p: PalletChange| p@);
        let x = &a.pallets[i];
        let ghost sub = av.subrange(0, i as int + 1);
        assert(sub.drop_last() =~= av.subrange(0, i as int));
        assert(sub.last() == x@);
        match b.get_pallet_by_id(x.index) {
            None => {
                r.push(PalletChange::Removed(x.index));
                assert(r@.map_values(|p: PalletChange| p@) =~= before + opt_seq(
                    pallet_change_for(x@, bv),
                ));
            },
            Some(y) => {
                let xs = x.items();
                let ys = y.items();
                proof {
                    let j = crate::reduced::pallet_position(bv, x.index);
                    assert(0 <= j < bv.len() && bv[j].index == x.index);
                    b.pallets@[j].lemma_wf_items();
                }
                let cs = diff_items(&xs, &ys);
                if cs.len() == 0 {
                    assert(r@.map_values(|p: PalletChange| p@) =~= before + opt_seq(
                        pallet_change_for(x@, bv),
                    ));
                } else {
                    r.push(PalletChange::Changed(x.index, cs));
                    assert(r@.map_values(|p: PalletChange| p@) =~= before + opt_seq(
                        pallet_change_for(x@, bv),
                    ));
                }
            },
        }
        i = i + 1;
    }
    assert(av.subrange(0, i as int) =~= av);
    let ghost first = r@.map_values(|p: PalletChange| p@);
    let mut j: usize = 0;
    while j < b.pallets.len()
        invariant
            j <= b.pallets.len(),
            av == a@,
            bv == b@,
            a.wf(),
            first == pallet_removals_and_changes(av, bv),
            r@.map_values(|p: PalletChange| p@) == first + pallet_additions(
                av,
                bv.subrange(0, j as int),
            ),
        decreases b.pallets.len() - j,
    {
        let ghost before = r@.map_values(|p: PalletChange| p@);
        let y = &b.pallets[j];
        let ghost sub = bv.subrange(0, j as int + 1);
        assert(sub.drop_last() =~= bv.subrange(0, j as int));
        assert(sub.last() == y@);
        match a.get_pallet_by_id(y.index) {
            None => {
                r.push(PalletChange::Added(y.index, y.duplicate()));
                assert(r@.map_values(|p: PalletChange| p@) =~= before + seq![
                    PalletChangeView::Added(y@.index, y@),
                ]);
            },
            Some(_) => {},
        }
        j = j + 1;
    }
    assert(bv.subrange(0, j as int) =~= bv);
    ChangeSet { pallets: r }
}

/// Whether a change, or a set of changes, keeps two runtimes API compatible.
pub trait Compatible {
    spec fn compatible_spec(&self) -> bool;

    /// This reports whether the two runtimes' APIs are compatible. It helps to
    /// decide whether the runtime's transaction version must be bumped.
    fn compatible(&self) -> (r: bool)
        ensures
            r == self.compatible_spec(),
    ;
}

impl Compatible for ItemChange {
    open spec fn compatible_spec(&self) -> bool {
        item_change_compatible(self@)
    }

    fn compatible(&self) -> (r: bool) {
        match self {
            ItemChange::Added(_, _) => true,
            ItemChange::Removed(_) => false,
            ItemChange::Changed(k, _) => match k {
                ItemKey::Constant(_) => true,
                _ => false,
            },
        }
    }
}

/// Whether every change of `cs` keeps the API compatible.
pub fn all_compatible(cs: &Vec<ItemChange>) -> (r: bool)
    ensures
        r == changes_compatible(change_views(cs@)),
{
    let mut i: usize = 0;
    while i < cs.len()
        invariant
            i <= cs.len(),
            forall|j: int| 0 <= j < i ==> item_change_compatible(#[trigger] cs@[j]@),
        decreases cs.len() - i,
    {
        if !cs[i].compatible() {
            assert(!item_change_compatible(change_views(cs@)[i as int]));
            return false;
        }
        i = i + 1;
    }
    assert forall|j: int| 0 <= j < change_views(cs@).len() implies item_change_compatible(
        #[trigger] change_views(cs@)[j],
    ) by {
        assert(item_change_compatible(cs@[j]@));
    }
    true
}

impl Compatible for PalletChange {
    open spec fn compatible_spec(&self) -> bool {
        pallet_change_compatible(self@)
    }

    fn compatible(&self) -> (r: bool) {
        match self {
            PalletChange::Added(_, _) => true,
            PalletChange::Removed(_) => false,
            PalletChange::Changed(_, cs) => all_compatible(cs),
        }
    }
}

impl Compatible for ChangeSet {
    open spec fn compatible_spec(&self) -> bool {
        runtime_compatible(self@)
    }

    fn compatible(&self) -> (r: bool) {
        let mut i: usize = 0;
        while i < self.pallets.len()
            invariant
                i <= self.pallets.len(),
                forall|j: int| 0 <= j < i ==> pallet_change_compatible(#[trigger] self@[j]),
            decreases self.pallets.len() - i,
        {
            if !self.pallets[i].compatible() {
                assert(!pallet_change_compatible(self@[i as int]));
                return false;
            }
            i = i + 1;
        }
        true
    }
}

} // verus!
