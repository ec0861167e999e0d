use vstd::prelude::*;
use crate::diff::{
    additions, change_for, changes_compatible, item_change_compatible, item_changes,
    opt_seq, pallet_additions, pallet_change_compatible, pallet_change_for,
    pallet_change_id, pallet_removals_and_changes, removals_and_changes, runtime_changes,
    runtime_compatible,
    ChangeView, PalletChangeView,
};
use crate::keyed::{collect, has_key, key_position, keys_unique, lemma_lookup_at, lookup, upsert};
use crate::metadata::{PalletMetadata, ReducedRuntimeError, TypeRegistry};
use crate::model::{ItemView, KeyView};
use crate::normalize::{reduce_v14_pallet, reduce_v14_pallets};
use crate::reduced::{
    has_pallet, lemma_pallet_lookup_at, pallet_ids_unique, pallet_lookup, pallet_position,
    PalletView, ReducedPallet, ReducedRuntime,
};

verus! {

pub proof fn lemma_contains_concat<A>(s: Seq<A>, t: Seq<A>)
    ensures
        forall|c: A| #[trigger] (s + t).contains(c) <==> s.contains(c) || t.contains(c),
{
    assert forall|c: A| #[trigger] (s + t).contains(c) <==> s.contains(c) || t.contains(c) by {
        if (s + t).contains(c) {
            let i = choose|i: int| 0 <= i < (s + t).len() && (s + t)[i] == c;
            if i >= s.len() {
                assert(t[i - s.len()] == c);
            }
        }
        if s.contains(c) {
            let i = choose|i: int| 0 <= i < s.len() && s[i] == c;
            assert((s + t)[i] == c);
        }
        if t.contains(c) {
            let i = choose|i: int| 0 <= i < t.len() && t[i] == c;
            assert((s + t)[s.len() + i] == c);
        }
    }
}

proof fn lemma_nonempty_contains<A>(s: Seq<A>)
    requires
        s.len() > 0,
    ensures
        s.contains(s[0]),
{
}

/// What the removals and changes from `a` to `b` hold.
pub proof fn lemma_removals_char(a: Seq<ItemView>, b: Seq<ItemView>)
    ensures
        forall|c: ChangeView| #[trigger]
            removals_and_changes(a, b).contains(c) <==> exists|i: int|
                0 <= i < a.len() && change_for(a[i], b) == Some(c),
    decreases a.len(),
{
    if a.len() > 0 {
        let a0 = a.drop_last();
        lemma_removals_char(a0, b);
        lemma_contains_concat(removals_and_changes(a0, b), opt_seq(change_for(a.last(), b)));
        assert forall|c: ChangeView| #[trigger]
            removals_and_changes(a, b).contains(c) <==> exists|i: int|
                0 <= i < a.len() && change_for(a[i], b) == Some(c) by {
            if removals_and_changes(a0, b).contains(c) {
                let i = choose|i: int| 0 <= i < a0.len() && change_for(a0[i], b) == Some(c);
                assert(a[i] == a0[i]);
            }
            if opt_seq(change_for(a.last(), b)).contains(c) {
                assert(change_for(a[a.len() - 1], b) == Some(c));
            }
            if exists|i: int| 0 <= i < a.len() && change_for(a[i], b) == Some(c) {
                let i = choose|i: int| 0 <= i < a.len() && change_for(a[i], b) == Some(c);
                if i < a.len() - 1 {
                    assert(a0[i] == a[i]);
                } else {
                    assert(opt_seq(change_for(a.last(), b))[0] == c);
                }
            }
        }
    }
}

/// What the additions from `a` to `b` hold.
pub proof fn lemma_additions_char(a: Seq<ItemView>, b: Seq<ItemView>)
    ensures
        forall|c: ChangeView| #[trigger]
            additions(a, b).contains(c) <==> exists|j: int|
                0 <= j < b.len() && !has_key(a, b[j].key) && c == ChangeView::Added(
                    b[j].key,
                    b[j],
                ),
    decreases b.len(),
{
    if b.len() > 0 {
        let b0 = b.drop_last();
        let tail = if has_key(a, b.last().key) {
            Seq::empty()
        } else {
            seq![ChangeView::Added(b.last().key, b.last())]
        };
        lemma_additions_char(a, b0);
        lemma_contains_concat(additions(a, b0), tail);
        assert forall|c: ChangeView| #[trigger]
            additions(a, b).contains(c) <==> exists|j: int|
                0 <= j < b.len() && !has_key(a, b[j].key) && c == ChangeView::Added(
                    b[j].key,
                    b[j],
                ) by {
            if additions(a, b0).contains(c) {
                let j = choose|j: int|
                    0 <= j < b0.len() && !has_key(a, b0[j].key) && c == ChangeView::Added(
                        b0[j].key,
                        b0[j],
                    );
                assert(b[j] == b0[j]);
            }
            if tail.contains(c) {
                assert(c == ChangeView::Added(b[b.len() - 1].key, b[b.len() - 1]));
            }
            if exists|j: int|
                0 <= j < b.len() && !has_key(a, b[j].key) && c == ChangeView::Added(
                    b[j].key,
                    b[j],
                ) {
                let j = choose|j: int|
                    0 <= j < b.len() && !has_key(a, b[j].key) && c == ChangeView::Added(
                        b[j].key,
                        b[j],
                    );
                if j < b.len() - 1 {
                    assert(b0[j] == b[j]);
                } else {
                    assert(tail[0] == c);
                }
            }
        }
    }
}

/// What the item changes from `a` to `b` hold.
pub proof fn lemma_item_changes_char(a: Seq<ItemView>, b: Seq<ItemView>)
    ensures
        forall|c: ChangeView| #[trigger]
            item_changes(a, b).contains(c) <==> (exists|i: int|
                0 <= i < a.len() && change_for(a[i], b) == Some(c)) || (exists|j: int|
                0 <= j < b.len() && !has_key(a, b[j].key) && c == ChangeView::Added(
                    b[j].key,
                    b[j],
                )),
{
    lemma_removals_char(a, b);
    lemma_additions_char(a, b);
    lemma_contains_concat(removals_and_changes(a, b), additions(a, b));
}

proof fn lemma_compatible_contains(cs: Seq<ChangeView>)
    ensures
        changes_compatible(cs) <==> forall|c: ChangeView| #[trigger]
            cs.contains(c) ==> item_change_compatible(c),
{
    if changes_compatible(cs) {
        assert forall|c: ChangeView| #[trigger] cs.contains(c) implies item_change_compatible(c) by {
            let i = choose|i: int| 0 <= i < cs.len() && cs[i] == c;
        }
    }
    if forall|c: ChangeView| #[trigger] cs.contains(c) ==> item_change_compatible(c) {
        assert forall|i: int| 0 <= i < cs.len() implies item_change_compatible(#[trigger] cs[i]) by {
            assert(cs.contains(cs[i]));
        }
    }
}

/// Comparing an item mapping with itself finds no change.
pub proof fn lemma_item_changes_reflexive(s: Seq<ItemView>)
    requires
        keys_unique(s),
    ensures
        item_changes(s, s).len() == 0,
{
    lemma_item_changes_char(s, s);
    let cs = item_changes(s, s);
    if cs.len() > 0 {
        lemma_nonempty_contains(cs);
        let c = cs[0];
        if exists|i: int| 0 <= i < s.len() && change_for(s[i], s) == Some(c) {
            let i = choose|i: int| 0 <= i < s.len() && change_for(s[i], s) == Some(c);
            lemma_lookup_at(s, i);
        } else {
            let j = choose|j: int|
                0 <= j < s.len() && !has_key(s, s[j].key) && c == ChangeView::Added(
                    s[j].key,
                    s[j],
                );
            assert(has_key(s, s[j].key));
        }
    }
}

/// What the pallet removals and changes from `a` to `b` hold.
pub proof fn lemma_pallet_removals_char(a: Seq<PalletView>, b: Seq<PalletView>)
    ensures
        forall|c: PalletChangeView| #[trigger]
            pallet_removals_and_changes(a, b).contains(c) <==> exists|i: int|
                0 <= i < a.len() && pallet_change_for(a[i], b) == Some(c),
    decreases a.len(),
{
    if a.len() > 0 {
        let a0 = a.drop_last();
        lemma_pallet_removals_char(a0, b);
        lemma_contains_concat(
            pallet_removals_and_changes(a0, b),
            opt_seq(pallet_change_for(a.last(), b)),
        );
        assert forall|c: PalletChangeView| #[trigger]
            pallet_removals_and_changes(a, b).contains(c) <==> exists|i: int|
                0 <= i < a.len() && pallet_change_for(a[i], b) == Some(c) by {
            if pallet_removals_and_changes(a0, b).contains(c) {
                let i = choose|i: int|
                    0 <= i < a0.len() && pallet_change_for(a0[i], b) == Some(c);
                assert(a[i] == a0[i]);
            }
            if opt_seq(pallet_change_for(a.last(), b)).contains(c) {
                assert(pallet_change_for(a[a.len() - 1], b) == Some(c));
            }
            if exists|i: int| 0 <= i < a.len() && pallet_change_for(a[i], b) == Some(c) {
                let i = choose|i: int| 0 <= i < a.len() && pallet_change_for(a[i], b) == Some(c);
                if i < a.len() - 1 {
                    assert(a0[i] == a[i]);
                } else {
                    assert(opt_seq(pallet_change_for(a.last(), b))[0] == c);
                }
            }
        }
    }
}

/// What the pallet additions from `a` to `b` hold.
pub proof fn lemma_pallet_additions_char(a: Seq<PalletView>, b: Seq<PalletView>)
    ensures
        forall|c: PalletChangeView| #[trigger]
            pallet_additions(a, b).contains(c) <==> exists|j: int|
                0 <= j < b.len() && !has_pallet(a, b[j].index) && c == PalletChangeView::Added(
                    b[j].index,
                    b[j],
                ),
    decreases b.len(),
{
    if b.len() > 0 {
        let b0 = b.drop_last();
        let tail = if has_pallet(a, b.last().index) {
            Seq::empty()
        } else {
            seq![PalletChangeView::Added(b.last().index, b.last())]
        };
        lemma_pallet_additions_char(a, b0);
        lemma_contains_concat(pallet_additions(a, b0), tail);
        assert forall|c: PalletChangeView| #[trigger]
            pallet_additions(a, b).contains(c) <==> exists|j: int|
                0 <= j < b.len() && !has_pallet(a, b[j].index) && c == PalletChangeView::Added(
                    b[j].index,
                    b[j],
                ) by {
            if pallet_additions(a, b0).contains(c) {
                let j = choose|j: int|
                    0 <= j < b0.len() && !has_pallet(a, b0[j].index) && c
                        == PalletChangeView::Added(b0[j].index, b0[j]);
                assert(b[j] == b0[j]);
            }
            if tail.contains(c) {
                assert(c == PalletChangeView::Added(b[b.len() - 1].index, b[b.len() - 1]));
            }
            if exists|j: int|
                0 <= j < b.len() && !has_pallet(a, b[j].index) && c == PalletChangeView::Added(
                    b[j].index,
                    b[j],
                ) {
                let j = choose|j: int|
                    0 <= j < b.len() && !has_pallet(a, b[j].index) && c
                        == PalletChangeView::Added(b[j].index, b[j]);
                if j < b.len() - 1 {
                    assert(b0[j] == b[j]);
                } else {
                    assert(tail[0] == c);
                }
            }
        }
    }
}

/// What the changes between the runtimes `a` and `b` hold.
pub proof fn lemma_runtime_changes_char(a: Seq<PalletView>, b: Seq<PalletView>)
    ensures
        forall|c: PalletChangeView| #[trigger]
            runtime_changes(a, b).contains(c) <==> (exists|i: int|
                0 <= i < a.len() && pallet_change_for(a[i], b) == Some(c)) || (exists|j: int|
                0 <= j < b.len() && !has_pallet(a, b[j].index) && c == PalletChangeView::Added(
                    b[j].index,
                    b[j],
                )),
{
    lemma_pallet_removals_char(a, b);
    lemma_pallet_additions_char(a, b);
    lemma_contains_concat(pallet_removals_and_changes(a, b), pallet_additions(a, b));
}

proof fn lemma_runtime_compatible_contains(ps: Seq<PalletChangeView>)
    ensures
        runtime_compatible(ps) <==> forall|c: PalletChangeView| #[trigger]
            ps.contains(c) ==> pallet_change_compatible(c),
{
    if runtime_compatible(ps) {
        assert forall|c: PalletChangeView| #[trigger] ps.contains(c) implies pallet_change_compatible(
            c,
        ) by {
            let i = choose|i: int| 0 <= i < ps.len() && ps[i] == c;
        }
    }
    if forall|c: PalletChangeView| #[trigger] ps.contains(c) ==> pallet_change_compatible(c) {
        assert forall|i: int| 0 <= i < ps.len() implies pallet_change_compatible(#[trigger] ps[i]) by {
            assert(ps.contains(ps[i]));
        }
    }
}

/// Comparing a runtime with itself finds no change at any level, and the
/// verdict is compatible.
pub proof fn lemma_diff_reflexive(r: ReducedRuntime)
    requires
        r.wf(),
    ensures
        runtime_changes(r@, r@).len() == 0,
        runtime_compatible(runtime_changes(r@, r@)),
        forall|i: int| 0 <= i < r@.len() ==> item_changes(#[trigger] r@[i].items, r@[i].items).len() == 0,
{
    r.lemma_wf();
    let s = r@;
    assert forall|i: int| 0 <= i < s.len() implies item_changes(#[trigger] s[i].items, s[i].items).len() == 0 by {
        lemma_item_changes_reflexive(s[i].items);
    }
    lemma_runtime_changes_char(s, s);
    let cs = runtime_changes(s, s);
    if cs.len() > 0 {
        lemma_nonempty_contains(cs);
        let c = cs[0];
        if exists|i: int| 0 <= i < s.len() && pallet_change_for(s[i], s) == Some(c) {
            let i = choose|i: int| 0 <= i < s.len() && pallet_change_for(s[i], s) == Some(c);
            lemma_pallet_lookup_at(s, i);
            lemma_item_changes_reflexive(s[i].items);
        } else {
            let j = choose|j: int|
                0 <= j < s.len() && !has_pallet(s, s[j].index) && c == PalletChangeView::Added(
                    s[j].index,
                    s[j],
                );
            assert(has_pallet(s, s[j].index));
        }
    }
}

/// Between two pallets, an item added in one direction is an item removed
/// in the other, and the other way round.
pub proof fn lemma_item_diff_symmetric(p: ReducedPallet, q: ReducedPallet)
    ensures
        forall|k: KeyView|
            (exists|v: ItemView| #[trigger]
                item_changes(p@.items, q@.items).contains(ChangeView::Added(k, v)))
                <==> #[trigger] item_changes(q@.items, p@.items).contains(ChangeView::Removed(k)),
        forall|k: KeyView|
            (exists|v: ItemView| #[trigger]
                item_changes(q@.items, p@.items).contains(ChangeView::Added(k, v)))
                <==> #[trigger] item_changes(p@.items, q@.items).contains(ChangeView::Removed(k)),
{
    lemma_items_symmetric(p@.items, q@.items);
    lemma_items_symmetric(q@.items, p@.items);
}

proof fn lemma_items_symmetric(a: Seq<ItemView>, b: Seq<ItemView>)
    ensures
        forall|k: KeyView|
            (exists|v: ItemView| #[trigger] item_changes(a, b).contains(ChangeView::Added(k, v)))
                <==> #[trigger] item_changes(b, a).contains(ChangeView::Removed(k)),
{
    lemma_item_changes_char(a, b);
    lemma_item_changes_char(b, a);
    assert forall|k: KeyView|
        (exists|v: ItemView| #[trigger] item_changes(a, b).contains(ChangeView::Added(k, v)))
            <==> #[trigger] item_changes(b, a).contains(ChangeView::Removed(k)) by {
        if exists|v: ItemView| #[trigger] item_changes(a, b).contains(ChangeView::Added(k, v)) {
            let v = choose|v: ItemView| #[trigger]
                item_changes(a, b).contains(ChangeView::Added(k, v));
            let c = ChangeView::Added(k, v);
            assert(item_changes(a, b).contains(c));
            if exists|i: int| 0 <= i < a.len() && change_for(a[i], b) == Some(c) {
                let i = choose|i: int| 0 <= i < a.len() && change_for(a[i], b) == Some(c);
                assert(false);
            }
            let j = choose|j: int|
                0 <= j < b.len() && !has_key(a, b[j].key) && c == ChangeView::Added(
                    b[j].key,
                    b[j],
                );
            assert(change_for(b[j], a) == Some(ChangeView::Removed(k)));
        }
        if item_changes(b, a).contains(ChangeView::Removed(k)) {
            let c = ChangeView::Removed(k);
            let i = choose|i: int| 0 <= i < b.len() && change_for(b[i], a) == Some(c);
            assert(!has_key(a, b[i].key));
            let v = b[i];
            assert(item_changes(a, b).contains(ChangeView::Added(k, v)));
        }
    }
}

/// Between two runtimes, a pallet added in one direction is a pallet removed
/// in the other, and the other way round.
pub proof fn lemma_diff_symmetric(a: ReducedRuntime, b: ReducedRuntime)
    ensures
        forall|k: u32|
            (exists|v: PalletView| #[trigger]
                runtime_changes(a@, b@).contains(PalletChangeView::Added(k, v)))
                <==> #[trigger] runtime_changes(b@, a@).contains(PalletChangeView::Removed(k)),
        forall|k: u32|
            (exists|v: PalletView| #[trigger]
                runtime_changes(b@, a@).contains(PalletChangeView::Added(k, v)))
                <==> #[trigger] runtime_changes(a@, b@).contains(PalletChangeView::Removed(k)),
{
    lemma_pallets_symmetric(a@, b@);
    lemma_pallets_symmetric(b@, a@);
}

proof fn lemma_pallets_symmetric(a: Seq<PalletView>, b: Seq<PalletView>)
    ensures
        forall|k: u32|
            (exists|v: PalletView| #[trigger]
                runtime_changes(a, b).contains(PalletChangeView::Added(k, v)))
                <==> #[trigger] runtime_changes(b, a).contains(PalletChangeView::Removed(k)),
{
    lemma_runtime_changes_char(a, b);
    lemma_runtime_changes_char(b, a);
    assert forall|k: u32|
        (exists|v: PalletView| #[trigger]
            runtime_changes(a, b).contains(PalletChangeView::Added(k, v)))
            <==> #[trigger] runtime_changes(b, a).contains(PalletChangeView::Removed(k)) by {
        if exists|v: PalletView| #[trigger]
            runtime_changes(a, b).contains(PalletChangeView::Added(k, v)) {
            let v = choose|v: PalletView| #[trigger]
                runtime_changes(a, b).contains(PalletChangeView::Added(k, v));
            let c = PalletChangeView::Added(k, v);
            assert(runtime_changes(a, b).contains(c));
            if exists|i: int| 0 <= i < a.len() && pallet_change_for(a[i], b) == Some(c) {
                let i = choose|i: int| 0 <= i < a.len() && pallet_change_for(a[i], b) == Some(c);
                assert(false);
            }
            let j = choose|j: int|
                0 <= j < b.len() && !has_pallet(a, b[j].index) && c == PalletChangeView::Added(
                    b[j].index,
                    b[j],
                );
            assert(pallet_change_for(b[j], a) == Some(PalletChangeView::Removed(k)));
        }
        if runtime_changes(b, a).contains(PalletChangeView::Removed(k)) {
            let c = PalletChangeView::Removed(k);
            let i = choose|i: int| 0 <= i < b.len() && pallet_change_for(b[i], a) == Some(c);
            assert(!has_pallet(a, b[i].index));
            let v = b[i];
            assert(runtime_changes(a, b).contains(PalletChangeView::Added(k, v)));
        }
    }
}


proof fn lemma_insert_item(b: Seq<ItemView>, j: int, y: ItemView)
    requires
        keys_unique(b),
        !has_key(b, y.key),
        0 <= j <= b.len(),
    ensures
        keys_unique(b.insert(j, y)),
        forall|k: KeyView|
            k != y.key ==> (#[trigger] has_key(b.insert(j, y), k) == has_key(b, k)),
        forall|k: KeyView|
            k != y.key && has_key(b, k) ==> #[trigger] lookup(b.insert(j, y), k) == lookup(b, k),
{
    let u = b.insert(j, y);
    b.insert_ensures(j, y);
    assert forall|i: int| j < i < u.len() implies u[i] == b[i - 1] by {
        assert(u[(i - 1) + 1] == b[i - 1]);
    }
    assert forall|i: int, i2: int|
        0 <= i < u.len() && 0 <= i2 < u.len() && #[trigger] u[i].key == #[trigger] u[i2].key
        implies i == i2 by {
        if i == j && i2 != j {
            let q = if i2 < j { i2 } else { i2 - 1 };
            assert(b[q].key == y.key);
        } else if i2 == j && i != j {
            let q = if i < j { i } else { i - 1 };
            assert(b[q].key == y.key);
        } else if i != j && i2 != j {
            let q = if i < j { i } else { i - 1 };
            let q2 = if i2 < j { i2 } else { i2 - 1 };
            assert(b[q].key == b[q2].key);
        }
    }
    assert forall|k: KeyView|
        k != y.key && has_key(b, k) implies #[trigger] lookup(u, k) == lookup(b, k) by {
        let p = key_position(b, k);
        let q = if p < j { p } else { p + 1 };
        assert(u[q] == b[p]);
        lemma_lookup_at(u, q);
    }
    assert forall|k: KeyView| k != y.key implies #[trigger] has_key(u, k) == has_key(b, k) by {
        if has_key(b, k) {
            let p = key_position(b, k);
            let q = if p < j { p } else { p + 1 };
            assert(u[q] == b[p]);
        }
        if has_key(u, k) {
            let i = choose|i: int| 0 <= i < u.len() && u[i].key == k;
            let q = if i < j { i } else { i - 1 };
            assert(b[q].key == k);
        }
    }
}

proof fn lemma_items_add_compatible(a: Seq<ItemView>, b: Seq<ItemView>, j: int, y: ItemView)
    requires
        keys_unique(b),
        !has_key(b, y.key),
        0 <= j <= b.len(),
        changes_compatible(item_changes(a, b)),
    ensures
        changes_compatible(item_changes(a, b.insert(j, y))),
{
    let u = b.insert(j, y);
    lemma_insert_item(b, j, y);
    lemma_item_changes_char(a, b);
    lemma_item_changes_char(a, u);
    lemma_compatible_contains(item_changes(a, b));
    lemma_compatible_contains(item_changes(a, u));
    assert forall|c: ChangeView| #[trigger]
        item_changes(a, u).contains(c) implies item_change_compatible(c) by {
        if exists|i: int| 0 <= i < a.len() && change_for(a[i], u) == Some(c) {
            let i = choose|i: int| 0 <= i < a.len() && change_for(a[i], u) == Some(c);
            if a[i].key == y.key {
                assert(change_for(a[i], b) == Some(ChangeView::Removed(a[i].key)));
                assert(item_changes(a, b).contains(ChangeView::Removed(a[i].key)));
            } else {
                assert(change_for(a[i], u) == change_for(a[i], b));
                assert(item_changes(a, b).contains(c));
            }
        }
    }
}

/// Adding a new pallet to the newer runtime never turns a compatible
/// comparison into an incompatible one.
pub proof fn lemma_add_pallet_keeps_compatible(
    a: ReducedRuntime,
    b: ReducedRuntime,
    j: int,
    p: ReducedPallet,
)
    requires
        b.wf(),
        !has_pallet(b@, p@.index),
        0 <= j <= b@.len(),
        runtime_compatible(runtime_changes(a@, b@)),
    ensures
        runtime_compatible(runtime_changes(a@, b@.insert(j, p@))),
{
    let bv = b@;
    let u = bv.insert(j, p@);
    bv.insert_ensures(j, p@);
    assert forall|i: int| j < i < u.len() implies u[i] == bv[i - 1] by {
        assert(u[(i - 1) + 1] == bv[i - 1]);
    }
    assert forall|i: int, i2: int|
        0 <= i < u.len() && 0 <= i2 < u.len() && #[trigger] u[i].index == #[trigger] u[i2].index
        implies i == i2 by {
        if i == j && i2 != j {
            let q = if i2 < j { i2 } else { i2 - 1 };
            assert(bv[q].index == p@.index);
        } else if i2 == j && i != j {
            let q = if i < j { i } else { i - 1 };
            assert(bv[q].index == p@.index);
        } else if i != j && i2 != j {
            let q = if i < j { i } else { i - 1 };
            let q2 = if i2 < j { i2 } else { i2 - 1 };
            assert(bv[q].index == bv[q2].index);
        }
    }
    lemma_runtime_changes_char(a@, bv);
    lemma_runtime_changes_char(a@, u);
    lemma_runtime_compatible_contains(runtime_changes(a@, bv));
    lemma_runtime_compatible_contains(runtime_changes(a@, u));
    assert forall|c: PalletChangeView| #[trigger]
        runtime_changes(a@, u).contains(c) implies pallet_change_compatible(c) by {
        if exists|i: int| 0 <= i < a@.len() && pallet_change_for(a@[i], u) == Some(c) {
            let i = choose|i: int| 0 <= i < a@.len() && pallet_change_for(a@[i], u) == Some(c);
            let x = a@[i];
            if x.index == p@.index {
                assert(pallet_change_for(x, bv) == Some(PalletChangeView::Removed(x.index)));
                assert(runtime_changes(a@, bv).contains(PalletChangeView::Removed(x.index)));
            } else {
                if has_pallet(bv, x.index) {
                    let q = pallet_position(bv, x.index);
                    let q2 = if q < j { q } else { q + 1 };
                    assert(u[q2] == bv[q]);
                    lemma_pallet_lookup_at(u, q2);
                }
                if has_pallet(u, x.index) {
                    let q = choose|q: int| 0 <= q < u.len() && u[q].index == x.index;
                    let q2 = if q < j { q } else { q - 1 };
                    assert(bv[q2].index == x.index);
                }
                assert(pallet_change_for(x, u) == pallet_change_for(x, bv));
                assert(runtime_changes(a@, bv).contains(c));
            }
        }
    }
}

/// The pallet `p` with `y` inserted among its items at position `m`.
pub open spec fn with_item(p: PalletView, m: int, y: ItemView) -> PalletView {
    PalletView { index: p.index, name: p.name, items: p.items.insert(m, y) }
}

/// The pallet `p` without its item at position `m`.
pub open spec fn without_item(p: PalletView, m: int) -> PalletView {
    PalletView { index: p.index, name: p.name, items: p.items.remove(m) }
}

/// Replacing a pallet by one with the same index keeps the pallet identities.
proof fn lemma_replace_pallet(b: Seq<PalletView>, j: int, q: PalletView)
    requires
        pallet_ids_unique(b),
        0 <= j < b.len(),
        q.index == b[j].index,
    ensures
        pallet_ids_unique(b.update(j, q)),
        forall|k: u32| #[trigger] has_pallet(b.update(j, q), k) == has_pallet(b, k),
        forall|k: u32|
            k != q.index && has_pallet(b, k) ==> #[trigger] pallet_lookup(b.update(j, q), k)
                == pallet_lookup(b, k),
        has_pallet(b, q.index),
        pallet_lookup(b, q.index) == b[j],
        pallet_lookup(b.update(j, q), q.index) == q,
{
    let u = b.update(j, q);
    assert forall|i: int, i2: int|
        0 <= i < u.len() && 0 <= i2 < u.len() && #[trigger] u[i].index == #[trigger] u[i2].index
        implies i == i2 by {
        assert(b[i].index == b[i2].index);
    }
    assert forall|k: u32| #[trigger] has_pallet(u, k) == has_pallet(b, k) by {
        if has_pallet(b, k) {
            let i = choose|i: int| 0 <= i < b.len() && b[i].index == k;
            assert(u[i].index == k);
        }
        if has_pallet(u, k) {
            let i = choose|i: int| 0 <= i < u.len() && u[i].index == k;
            assert(b[i].index == k);
        }
    }
    assert forall|k: u32|
        k != q.index && has_pallet(b, k) implies #[trigger] pallet_lookup(u, k) == pallet_lookup(
            b,
            k,
        ) by {
        let p = pallet_position(b, k);
        assert(u[p] == b[p]);
        lemma_pallet_lookup_at(u, p);
    }
    lemma_pallet_lookup_at(b, j);
    lemma_pallet_lookup_at(u, j);
}

/// Adding a new call, event, error, storage entry or constant to a pallet of
/// the newer runtime never turns a compatible comparison into an
/// incompatible one.
pub proof fn lemma_add_item_keeps_compatible(
    a: ReducedRuntime,
    b: ReducedRuntime,
    j: int,
    m: int,
    y: ItemView,
)
    requires
        b.wf(),
        0 <= j < b@.len(),
        0 <= m <= b@[j].items.len(),
        !has_key(b@[j].items, y.key),
        runtime_compatible(runtime_changes(a@, b@)),
    ensures
        runtime_compatible(runtime_changes(a@, b@.update(j, with_item(b@[j], m, y)))),
{
    let bv = b@;
    b.lemma_wf();
    let q = with_item(bv[j], m, y);
    let u = bv.update(j, q);
    lemma_replace_pallet(bv, j, q);
    lemma_runtime_changes_char(a@, bv);
    lemma_runtime_changes_char(a@, u);
    lemma_runtime_compatible_contains(runtime_changes(a@, bv));
    lemma_runtime_compatible_contains(runtime_changes(a@, u));
    assert forall|c: PalletChangeView| #[trigger]
        runtime_changes(a@, u).contains(c) implies pallet_change_compatible(c) by {
        if exists|i: int| 0 <= i < a@.len() && pallet_change_for(a@[i], u) == Some(c) {
            let i = choose|i: int| 0 <= i < a@.len() && pallet_change_for(a@[i], u) == Some(c);
            let x = a@[i];
            if x.index != q.index {
                assert(pallet_change_for(x, u) == pallet_change_for(x, bv));
                assert(runtime_changes(a@, bv).contains(c));
            } else {
                let cs = item_changes(x.items, bv[j].items);
                if cs.len() != 0 {
                    assert(pallet_change_for(x, bv) == Some(PalletChangeView::Changed(x.index, cs)));
                    assert(runtime_changes(a@, bv).contains(PalletChangeView::Changed(x.index, cs)));
                }
                lemma_items_add_compatible(x.items, bv[j].items, m, y);
            }
        }
    }
}

/// Removing an existing call, event, error, storage entry or constant from a
/// pallet makes the comparison incompatible.
pub proof fn lemma_remove_item_breaks(a: ReducedRuntime, j: int, m: int)
    requires
        a.wf(),
        0 <= j < a@.len(),
        0 <= m < a@[j].items.len(),
    ensures
        !runtime_compatible(runtime_changes(a@, a@.update(j, without_item(a@[j], m)))),
{
    let av = a@;
    a.lemma_wf();
    let x = av[j];
    let q = without_item(x, m);
    let u = av.update(j, q);
    lemma_replace_pallet(av, j, q);
    lemma_pallet_lookup_at(av, j);
    let y = x.items[m];
    x.items.remove_ensures(m);
    assert forall|i: int| 0 <= i < q.items.len() implies q.items[i].key != y.key by {
        if i < m {
            assert(x.items[i].key != x.items[m].key);
        } else {
            assert(q.items[i] == x.items[i + 1]);
            assert(x.items[i + 1].key != x.items[m].key);
        }
    }
    assert(change_for(y, q.items) == Some(ChangeView::Removed(y.key)));
    let cs = item_changes(x.items, q.items);
    lemma_item_changes_char(x.items, q.items);
    assert(cs.contains(ChangeView::Removed(y.key)));
    lemma_compatible_contains(cs);
    assert(pallet_change_for(x, u) == Some(PalletChangeView::Changed(x.index, cs)));
    lemma_runtime_changes_char(av, u);
    assert(runtime_changes(av, u).contains(PalletChangeView::Changed(x.index, cs)));
    lemma_runtime_compatible_contains(runtime_changes(av, u));
}

/// Removing an existing pallet makes the comparison incompatible.
pub proof fn lemma_remove_pallet_breaks(a: ReducedRuntime, j: int)
    requires
        a.wf(),
        0 <= j < a@.len(),
    ensures
        !runtime_compatible(runtime_changes(a@, a@.remove(j))),
{
    let av = a@;
    let u = av.remove(j);
    let x = av[j];
    av.remove_ensures(j);
    assert forall|i: int| 0 <= i < u.len() implies u[i].index != x.index by {
        if i < j {
            assert(av[i].index != av[j].index);
        } else {
            assert(u[i] == av[i + 1]);
            assert(av[i + 1].index != av[j].index);
        }
    }
    assert(pallet_change_for(x, u) == Some(PalletChangeView::Removed(x.index)));
    lemma_runtime_changes_char(av, u);
    assert(runtime_changes(av, u).contains(PalletChangeView::Removed(x.index)));
    lemma_runtime_compatible_contains(runtime_changes(av, u));
}

/// `y` is `x`, or `x` is a constant and `y` the same constant with another
/// value.
pub open spec fn same_but_constant_value(x: ItemView, y: ItemView) -> bool {
    x == y || (x.key is Constant && y.key == x.key && y.name == x.name && y.args == x.args && y.ty
        == x.ty)
}

/// The pallets `p` and `q` hold the same items in the same order, but for
/// the values of constants.
pub open spec fn same_pallet_but_constant_values(p: PalletView, q: PalletView) -> bool {
    &&& p.index == q.index
    &&& p.items.len() == q.items.len()
    &&& forall|m: int| 0 <= m < p.items.len() ==> same_but_constant_value(p.items[m], q.items[m])
}

proof fn lemma_items_constant_values(xs: Seq<ItemView>, ys: Seq<ItemView>)
    requires
        keys_unique(ys),
        xs.len() == ys.len(),
        forall|m: int| 0 <= m < xs.len() ==> same_but_constant_value(xs[m], ys[m]),
    ensures
        changes_compatible(item_changes(xs, ys)),
{
    lemma_item_changes_char(xs, ys);
    lemma_compatible_contains(item_changes(xs, ys));
    assert forall|c: ChangeView| #[trigger]
        item_changes(xs, ys).contains(c) implies item_change_compatible(c) by {
        if exists|i: int| 0 <= i < xs.len() && change_for(xs[i], ys) == Some(c) {
            let i = choose|i: int| 0 <= i < xs.len() && change_for(xs[i], ys) == Some(c);
            assert(ys[i].key == xs[i].key);
            lemma_lookup_at(ys, i);
        } else {
            let j = choose|j: int|
                0 <= j < ys.len() && !has_key(xs, ys[j].key) && c == ChangeView::Added(
                    ys[j].key,
                    ys[j],
                );
            assert(xs[j].key == ys[j].key);
        }
    }
}

/// Two runtimes that differ only in documentation (which the views leave
/// out) and in the values of constants are compatible.
pub proof fn lemma_constant_values_keep_compatible(a: ReducedRuntime, b: ReducedRuntime)
    requires
        b.wf(),
        a@.len() == b@.len(),
        forall|i: int| 0 <= i < a@.len() ==> same_pallet_but_constant_values(a@[i], b@[i]),
    ensures
        runtime_compatible(runtime_changes(a@, b@)),
{
    let av = a@;
    let bv = b@;
    b.lemma_wf();
    lemma_runtime_changes_char(av, bv);
    lemma_runtime_compatible_contains(runtime_changes(av, bv));
    assert forall|c: PalletChangeView| #[trigger]
        runtime_changes(av, bv).contains(c) implies pallet_change_compatible(c) by {
        if exists|i: int| 0 <= i < av.len() && pallet_change_for(av[i], bv) == Some(c) {
            let i = choose|i: int| 0 <= i < av.len() && pallet_change_for(av[i], bv) == Some(c);
            assert(bv[i].index == av[i].index);
            lemma_pallet_lookup_at(bv, i);
            lemma_items_constant_values(av[i].items, bv[i].items);
        } else {
            let j = choose|j: int|
                0 <= j < bv.len() && !has_pallet(av, bv[j].index) && c == PalletChangeView::Added(
                    bv[j].index,
                    bv[j],
                );
            assert(av[j].index == bv[j].index);
        }
    }
}

proof fn lemma_items_permuted(xs: Seq<ItemView>, ys: Seq<ItemView>)
    requires
        keys_unique(xs),
        keys_unique(ys),
        xs.to_multiset() == ys.to_multiset(),
    ensures
        item_changes(xs, ys).len() == 0,
{
    xs.to_multiset_ensures();
    ys.to_multiset_ensures();
    lemma_item_changes_char(xs, ys);
    let cs = item_changes(xs, ys);
    if cs.len() > 0 {
        lemma_nonempty_contains(cs);
        let c = cs[0];
        if exists|i: int| 0 <= i < xs.len() && change_for(xs[i], ys) == Some(c) {
            let i = choose|i: int| 0 <= i < xs.len() && change_for(xs[i], ys) == Some(c);
            assert(xs.contains(xs[i]));
            assert(ys.to_multiset().count(xs[i]) > 0);
            let q = choose|q: int| 0 <= q < ys.len() && ys[q] == xs[i];
            lemma_lookup_at(ys, q);
        } else {
            let j = choose|j: int|
                0 <= j < ys.len() && !has_key(xs, ys[j].key) && c == ChangeView::Added(
                    ys[j].key,
                    ys[j],
                );
            assert(ys.contains(ys[j]));
            assert(xs.to_multiset().count(ys[j]) > 0);
            let q = choose|q: int| 0 <= q < xs.len() && xs[q] == ys[j];
            assert(has_key(xs, xs[q].key));
        }
    }
}

/// Declaration order does not matter: two runtimes with the same pallets,
/// in any order, each holding the same items in any order, show no change.
pub proof fn lemma_order_independent(a: ReducedRuntime, b: ReducedRuntime)
    requires
        a.wf(),
        b.wf(),
        forall|k: u32| #[trigger] has_pallet(a@, k) == has_pallet(b@, k),
        forall|i: int|
            0 <= i < a@.len() ==> (#[trigger] a@[i]).items.to_multiset() == pallet_lookup(
                b@,
                a@[i].index,
            ).items.to_multiset(),
    ensures
        runtime_changes(a@, b@).len() == 0,
{
    let av = a@;
    let bv = b@;
    a.lemma_wf();
    b.lemma_wf();
    lemma_runtime_changes_char(av, bv);
    let cs = runtime_changes(av, bv);
    if cs.len() > 0 {
        lemma_nonempty_contains(cs);
        let c = cs[0];
        if exists|i: int| 0 <= i < av.len() && pallet_change_for(av[i], bv) == Some(c) {
            let i = choose|i: int| 0 <= i < av.len() && pallet_change_for(av[i], bv) == Some(c);
            assert(has_pallet(av, av[i].index));
            assert(has_pallet(bv, av[i].index));
            let q = pallet_position(bv, av[i].index);
            lemma_items_permuted(av[i].items, bv[q].items);
        } else {
            let j = choose|j: int|
                0 <= j < bv.len() && !has_pallet(av, bv[j].index) && c == PalletChangeView::Added(
                    bv[j].index,
                    bv[j],
                );
            assert(has_pallet(bv, bv[j].index));
        }
    }
}

/// No two pallets of `ps` share an index.
pub open spec fn pallet_indices_distinct(ps: Seq<PalletMetadata>) -> bool {
    forall|i: int, j: int|
        0 <= i < ps.len() && 0 <= j < ps.len() && #[trigger] ps[i].index == #[trigger] ps[j].index
            ==> i == j
}

/// The canonical form of a pallet that reduces without error.
pub open spec fn reduced_pallet(p: PalletMetadata, reg: TypeRegistry) -> PalletView {
    match reduce_v14_pallet(p, reg) {
        Ok(v) => v,
        Err(_) => PalletView { index: 0, name: Seq::empty(), items: Seq::empty() },
    }
}

/// With distinct indices, reducing a snapshot reduces each pallet in turn.
proof fn lemma_reduce_distinct(ps: Seq<PalletMetadata>, reg: TypeRegistry, s: Seq<PalletView>)
    requires
        pallet_indices_distinct(ps),
        reduce_v14_pallets(ps, reg) == Ok::<Seq<PalletView>, ReducedRuntimeError>(s),
    ensures
        s == ps.map_values(|p: PalletMetadata| reduced_pallet(p, reg)),
        forall|i: int| 0 <= i < ps.len() ==> #[trigger] reduce_v14_pallet(ps[i], reg) is Ok,
    decreases ps.len(),
{
    if ps.len() > 0 {
        let ps0 = ps.drop_last();
        assert(pallet_indices_distinct(ps0)) by {
            assert forall|i: int, j: int|
                0 <= i < ps0.len() && 0 <= j < ps0.len() && #[trigger] ps0[i].index
                    == #[trigger] ps0[j].index implies i == j by {
                assert(ps[i].index == ps[j].index);
            }
        }
        let acc = match reduce_v14_pallets(ps0, reg) {
            Ok(a) => a,
            Err(_) => Seq::empty(),
        };
        lemma_reduce_distinct(ps0, reg, acc);
        let p = reduced_pallet(ps.last(), reg);
        assert(p.index == ps.last().index as u32);
        assert(!has_pallet(acc, p.index)) by {
            if has_pallet(acc, p.index) {
                let i = choose|i: int| 0 <= i < acc.len() && acc[i].index == p.index;
                assert(acc[i] == reduced_pallet(ps0[i], reg));
                assert(ps[i].index == ps[ps.len() - 1].index);
            }
        }
        assert(s =~= ps.map_values(|p: PalletMetadata| reduced_pallet(p, reg)));
        assert forall|i: int| 0 <= i < ps.len() implies #[trigger] reduce_v14_pallet(ps[i], reg) is Ok by {
            if i < ps.len() - 1 {
                assert(ps0[i] == ps[i]);
            }
        }
    }
}

/// Declaration order does not matter to normalization either: reducing a
/// registry-based snapshot and the same snapshot with its pallets in another
/// order (indices distinct in both) gives runtimes with no change between
/// them.
pub proof fn lemma_v14_pallet_order_independent(
    ps: Seq<PalletMetadata>,
    ps2: Seq<PalletMetadata>,
    reg: TypeRegistry,
    a: ReducedRuntime,
    b: ReducedRuntime,
)
    requires
        pallet_indices_distinct(ps),
        pallet_indices_distinct(ps2),
        ps2.to_multiset() == ps.to_multiset(),
        a.wf(),
        b.wf(),
        reduce_v14_pallets(ps, reg) == Ok::<Seq<PalletView>, ReducedRuntimeError>(a@),
        reduce_v14_pallets(ps2, reg) == Ok::<Seq<PalletView>, ReducedRuntimeError>(b@),
    ensures
        runtime_changes(a@, b@).len() == 0,
{
    lemma_reduce_distinct(ps, reg, a@);
    lemma_reduce_distinct(ps2, reg, b@);
    ps.to_multiset_ensures();
    ps2.to_multiset_ensures();
    let av = a@;
    let bv = b@;
    assert forall|k: u32| #[trigger] has_pallet(av, k) == has_pallet(bv, k) by {
        if has_pallet(av, k) {
            let i = choose|i: int| 0 <= i < av.len() && av[i].index == k;
            assert(ps.contains(ps[i]));
            assert(ps2.to_multiset().count(ps[i]) > 0);
            let j = choose|j: int| 0 <= j < ps2.len() && ps2[j] == ps[i];
            assert(bv[j] == reduced_pallet(ps2[j], reg));
            assert(reduce_v14_pallet(ps[i], reg) is Ok);
            assert(bv[j].index == k);
        }
        if has_pallet(bv, k) {
            let j = choose|j: int| 0 <= j < bv.len() && bv[j].index == k;
            assert(ps2.contains(ps2[j]));
            assert(ps.to_multiset().count(ps2[j]) > 0);
            let i = choose|i: int| 0 <= i < ps.len() && ps[i] == ps2[j];
            assert(av[i] == reduced_pallet(ps[i], reg));
            assert(reduce_v14_pallet(ps2[j], reg) is Ok);
            assert(av[i].index == k);
        }
    }
    assert forall|i: int|
        0 <= i < av.len() implies (#[trigger] av[i]).items.to_multiset() == pallet_lookup(
        bv,
        av[i].index,
    ).items.to_multiset() by {
        assert(has_pallet(av, av[i].index));
        assert(has_pallet(bv, av[i].index));
        let q = pallet_position(bv, av[i].index);
        assert(ps2.contains(ps2[q]));
        assert(ps.to_multiset().count(ps2[q]) > 0);
        let r = choose|r: int| 0 <= r < ps.len() && ps[r] == ps2[q];
        assert(reduce_v14_pallet(ps2[q], reg) is Ok);
        assert(reduce_v14_pallet(ps[i], reg) is Ok);
        assert(ps[r].index == ps[i].index);
        assert(r == i);
    }
    lemma_order_independent(a, b);
}

proof fn lemma_item_changes_mirror_nonempty(x: Seq<ItemView>, y: Seq<ItemView>)
    requires
        keys_unique(x),
        keys_unique(y),
        item_changes(x, y).len() > 0,
    ensures
        item_changes(y, x).len() > 0,
{
    lemma_item_changes_char(x, y);
    lemma_item_changes_char(y, x);
    let cs = item_changes(x, y);
    lemma_nonempty_contains(cs);
    let c = cs[0];
    if exists|m: int| 0 <= m < x.len() && change_for(x[m], y) == Some(c) {
        let m = choose|m: int| 0 <= m < x.len() && change_for(x[m], y) == Some(c);
        let key = x[m].key;
        lemma_lookup_at(x, m);
        if !has_key(y, key) {
            assert(item_changes(y, x).contains(ChangeView::Added(key, x[m])));
        } else {
            let p = key_position(y, key);
            lemma_lookup_at(y, p);
            assert(change_for(y[p], x) is Some);
            let d = change_for(y[p], x)->Some_0;
            assert(item_changes(y, x).contains(d));
        }
    } else {
        let j = choose|j: int|
            0 <= j < y.len() && !has_key(x, y[j].key) && c == ChangeView::Added(y[j].key, y[j]);
        assert(item_changes(y, x).contains(ChangeView::Removed(y[j].key)));
    }
}

/// A pallet changed from `a` to `b` is changed from `b` to `a` too, and
/// inside it an item added in one direction is an item removed in the
/// other, and the other way round.
pub proof fn lemma_changed_pallets_symmetric(a: ReducedRuntime, b: ReducedRuntime)
    requires
        a.wf(),
        b.wf(),
    ensures
        forall|k: u32, cs1: Seq<ChangeView>| #[trigger]
            runtime_changes(a@, b@).contains(PalletChangeView::Changed(k, cs1)) ==> exists|
                cs2: Seq<ChangeView>,
            |
                #[trigger] runtime_changes(b@, a@).contains(PalletChangeView::Changed(k, cs2)) && (
                forall|j: KeyView|
                    (exists|v: ItemView| #[trigger] cs1.contains(ChangeView::Added(j, v)))
                        <==> #[trigger] cs2.contains(ChangeView::Removed(j))) && (forall|
                    j: KeyView,
                |
                    (exists|v: ItemView| #[trigger] cs2.contains(ChangeView::Added(j, v)))
                        <==> #[trigger] cs1.contains(ChangeView::Removed(j))),
{
    a.lemma_wf();
    b.lemma_wf();
    let av = a@;
    let bv = b@;
    lemma_runtime_changes_char(av, bv);
    lemma_runtime_changes_char(bv, av);
    assert forall|k: u32, cs1: Seq<ChangeView>| #[trigger]
        runtime_changes(av, bv).contains(PalletChangeView::Changed(k, cs1)) implies exists|
            cs2: Seq<ChangeView>,
        |
            #[trigger] runtime_changes(bv, av).contains(PalletChangeView::Changed(k, cs2)) && (
            forall|j: KeyView|
                (exists|v: ItemView| #[trigger] cs1.contains(ChangeView::Added(j, v)))
                    <==> #[trigger] cs2.contains(ChangeView::Removed(j))) && (forall|j: KeyView|
                (exists|v: ItemView| #[trigger] cs2.contains(ChangeView::Added(j, v)))
                    <==> #[trigger] cs1.contains(ChangeView::Removed(j))) by {
        let c = PalletChangeView::Changed(k, cs1);
        if exists|i: int| 0 <= i < av.len() && pallet_change_for(av[i], bv) == Some(c) {
            let i = choose|i: int| 0 <= i < av.len() && pallet_change_for(av[i], bv) == Some(c);
            let q = pallet_position(bv, k);
            lemma_pallet_lookup_at(bv, q);
            lemma_pallet_lookup_at(av, i);
            let x = av[i].items;
            let y = bv[q].items;
            assert(cs1 == item_changes(x, y));
            lemma_item_changes_mirror_nonempty(x, y);
            let cs2 = item_changes(y, x);
            assert(pallet_change_for(bv[q], av) == Some(PalletChangeView::Changed(k, cs2)));
            assert(runtime_changes(bv, av).contains(PalletChangeView::Changed(k, cs2)));
            lemma_items_symmetric(x, y);
            lemma_items_symmetric(y, x);
        } else {
            let j = choose|j: int|
                0 <= j < bv.len() && !has_pallet(av, bv[j].index) && c == PalletChangeView::Added(
                    bv[j].index,
                    bv[j],
                );
        }
    }
}

/// Collecting items whose keys are distinct keeps them as they are.
proof fn lemma_collect_distinct(xs: Seq<ItemView>)
    requires
        keys_unique(xs),
    ensures
        collect(xs) == xs,
    decreases xs.len(),
{
    if xs.len() > 0 {
        let xs0 = xs.drop_last();
        assert(keys_unique(xs0)) by {
            assert forall|i: int, j: int|
                0 <= i < xs0.len() && 0 <= j < xs0.len() && #[trigger] xs0[i].key
                    == #[trigger] xs0[j].key implies i == j by {
                assert(xs[i].key == xs[j].key);
            }
        }
        lemma_collect_distinct(xs0);
        assert(!has_key(xs0, xs.last().key)) by {
            if has_key(xs0, xs.last().key) {
                let i = choose|i: int| 0 <= i < xs0.len() && xs0[i].key == xs.last().key;
                assert(xs[i].key == xs[xs.len() - 1].key);
            }
        }
        assert(upsert(xs0, xs.last()) =~= xs);
    }
}

/// Declaration order inside a section does not matter: calls, events and
/// errors are collected by discriminant, storage entries and constants by
/// name, so two orders of the same declarations (keys distinct) give
/// mappings with no change between them.
pub proof fn lemma_collect_order_independent(xs: Seq<ItemView>, ys: Seq<ItemView>)
    requires
        keys_unique(xs),
        keys_unique(ys),
        ys.to_multiset() == xs.to_multiset(),
    ensures
        item_changes(collect(xs), collect(ys)).len() == 0,
{
    lemma_collect_distinct(xs);
    lemma_collect_distinct(ys);
    lemma_items_permuted(xs, ys);
}

/// No two entries of `cs` concern the same pallet.
pub open spec fn change_ids_distinct(cs: Seq<PalletChangeView>) -> bool {
    forall|p: int, q: int|
        0 <= p < cs.len() && 0 <= q < cs.len() && #[trigger] pallet_change_id(cs[p])
            == #[trigger] pallet_change_id(cs[q]) ==> p == q
}

proof fn lemma_removal_ids(a: Seq<PalletView>, b: Seq<PalletView>)
    requires
        pallet_ids_unique(a),
    ensures
        change_ids_distinct(pallet_removals_and_changes(a, b)),
        forall|p: int|
            0 <= p < pallet_removals_and_changes(a, b).len() ==> has_pallet(
                a,
                #[trigger] pallet_change_id(pallet_removals_and_changes(a, b)[p]),
            ),
    decreases a.len(),
{
    if a.len() > 0 {
        let a0 = a.drop_last();
        assert(pallet_ids_unique(a0)) by {
            assert forall|i: int, j: int|
                0 <= i < a0.len() && 0 <= j < a0.len() && #[trigger] a0[i].index
                    == #[trigger] a0[j].index implies i == j by {
                assert(a[i].index == a[j].index);
            }
        }
        lemma_removal_ids(a0, b);
        let s0 = pallet_removals_and_changes(a0, b);
        let t = opt_seq(pallet_change_for(a.last(), b));
        let s = pallet_removals_and_changes(a, b);
        assert(s == s0 + t);
        assert forall|p: int| 0 <= p < t.len() implies #[trigger] pallet_change_id(t[p])
            == a.last().index by {}
        assert forall|p: int| 0 <= p < s0.len() implies #[trigger] pallet_change_id(s0[p])
            != a.last().index by {
            let i = choose|i: int| 0 <= i < a0.len() && a0[i].index == pallet_change_id(s0[p]);
            assert(a[i].index == a0[i].index);
        }
        assert forall|p: int| 0 <= p < s.len() implies has_pallet(
            a,
            #[trigger] pallet_change_id(s[p]),
        ) by {
            if p < s0.len() {
                assert(s[p] == s0[p]);
                let i = choose|i: int| 0 <= i < a0.len() && a0[i].index == pallet_change_id(s0[p]);
                assert(a[i].index == a0[i].index);
            } else {
                assert(s[p] == t[p - s0.len()]);
                assert(a[a.len() - 1].index == a.last().index);
            }
        }
        assert forall|p: int, q: int|
            0 <= p < s.len() && 0 <= q < s.len() && #[trigger] pallet_change_id(s[p])
                == #[trigger] pallet_change_id(s[q]) implies p == q by {
            if p < s0.len() && q < s0.len() {
                assert(s[p] == s0[p] && s[q] == s0[q]);
            } else if p < s0.len() {
                assert(s[p] == s0[p] && s[q] == t[q - s0.len()]);
            } else if q < s0.len() {
                assert(s[q] == s0[q] && s[p] == t[p - s0.len()]);
            }
        }
    }
}

proof fn lemma_addition_ids(a: Seq<PalletView>, b: Seq<PalletView>)
    requires
        pallet_ids_unique(b),
    ensures
        change_ids_distinct(pallet_additions(a, b)),
        forall|p: int|
            0 <= p < pallet_additions(a, b).len() ==> has_pallet(
                b,
                #[trigger] pallet_change_id(pallet_additions(a, b)[p]),
            ) && !has_pallet(a, pallet_change_id(pallet_additions(a, b)[p])),
    decreases b.len(),
{
    if b.len() > 0 {
        let b0 = b.drop_last();
        assert(pallet_ids_unique(b0)) by {
            assert forall|i: int, j: int|
                0 <= i < b0.len() && 0 <= j < b0.len() && #[trigger] b0[i].index
                    == #[trigger] b0[j].index implies i == j by {
                assert(b[i].index == b[j].index);
            }
        }
        lemma_addition_ids(a, b0);
        let s0 = pallet_additions(a, b0);
        let t = if has_pallet(a, b.last().index) {
            Seq::empty()
        } else {
            seq![PalletChangeView::Added(b.last().index, b.last())]
        };
        let s = pallet_additions(a, b);
        assert(s == s0 + t);
        assert forall|p: int| 0 <= p < s0.len() implies #[trigger] pallet_change_id(s0[p])
            != b.last().index by {
            let i = choose|i: int| 0 <= i < b0.len() && b0[i].index == pallet_change_id(s0[p]);
            assert(b[i].index == b0[i].index);
        }
        assert forall|p: int| 0 <= p < s.len() implies has_pallet(
            b,
            #[trigger] pallet_change_id(s[p]),
        ) && !has_pallet(a, pallet_change_id(s[p])) by {
            if p < s0.len() {
                assert(s[p] == s0[p]);
                let i = choose|i: int| 0 <= i < b0.len() && b0[i].index == pallet_change_id(s0[p]);
                assert(b[i].index == b0[i].index);
            } else {
                assert(s[p] == t[p - s0.len()]);
                assert(b[b.len() - 1].index == b.last().index);
            }
        }
        assert forall|p: int, q: int|
            0 <= p < s.len() && 0 <= q < s.len() && #[trigger] pallet_change_id(s[p])
                == #[trigger] pallet_change_id(s[q]) implies p == q by {
            if p < s0.len() && q < s0.len() {
                assert(s[p] == s0[p] && s[q] == s0[q]);
            } else if p < s0.len() {
                assert(s[p] == s0[p] && s[q] == t[q - s0.len()]);
            } else if q < s0.len() {
                assert(s[q] == s0[q] && s[p] == t[p - s0.len()]);
            }
        }
    }
}

/// Between two runtimes, each pallet has at most one entry in the change
/// list, so the first change of a pallet is its only one.
pub proof fn lemma_change_ids_distinct(a: ReducedRuntime, b: ReducedRuntime)
    requires
        a.wf(),
        b.wf(),
    ensures
        change_ids_distinct(runtime_changes(a@, b@)),
{
    let s = pallet_removals_and_changes(a@, b@);
    let t = pallet_additions(a@, b@);
    lemma_removal_ids(a@, b@);
    lemma_addition_ids(a@, b@);
    let u = runtime_changes(a@, b@);
    assert(u == s + t);
    assert forall|p: int, q: int|
        0 <= p < u.len() && 0 <= q < u.len() && #[trigger] pallet_change_id(u[p])
            == #[trigger] pallet_change_id(u[q]) implies p == q by {
        if p < s.len() && q < s.len() {
            assert(u[p] == s[p] && u[q] == s[q]);
        } else if p < s.len() {
            assert(u[p] == s[p] && u[q] == t[q - s.len()]);
        } else if q < s.len() {
            assert(u[q] == s[q] && u[p] == t[p - s.len()]);
        } else {
            assert(u[p] == t[p - s.len()] && u[q] == t[q - s.len()]);
        }
    }
}

} // verus!
