use vstd::prelude::*;
use crate::model::{Entry, ItemKey, ItemView, KeyView, PalletItem};

verus! {

/// Whether some item of `s` has the key `k`.
pub open spec fn has_key(s: Seq<ItemView>, k: KeyView) -> bool {
    exists|i: int| 0 <= i < s.len() && s[i].key == k
}

/// A position of `s` that holds an item with key `k`.
pub open spec fn key_position(s: Seq<ItemView>, k: KeyView) -> int {
    choose|i: int| 0 <= i < s.len() && s[i].key == k
}

/// The item of `s` with key `k` (meaningful where `has_key(s, k)`).
pub open spec fn lookup(s: Seq<ItemView>, k: KeyView) -> ItemView {
    s[key_position(s, k)]
}

/// No two items of `s` share a key: `s` is a keyed mapping.
pub open spec fn keys_unique(s: Seq<ItemView>) -> bool {
    forall|i: int, j: int|
        0 <= i < s.len() && 0 <= j < s.len() && #[trigger] s[i].key == #[trigger] s[j].key ==> i
            == j
}

/// Inserting `x` into the mapping `s`: it replaces the item with the same key,
/// in its place, or comes last.
pub open spec fn upsert(s: Seq<ItemView>, x: ItemView) -> Seq<ItemView> {
    if has_key(s, x.key) {
        s.update(key_position(s, x.key), x)
    } else {
        s.push(x)
    }
}

/// The mapping that inserting the items of `xs` one after the other builds;
/// of two items with one key, the later one stays.
pub open spec fn collect(xs: Seq<ItemView>) -> Seq<ItemView>
    decreases xs.len(),
{
    if xs.len() == 0 {
        Seq::empty()
    } else {
        upsert(collect(xs.drop_last()), xs.last())
    }
}

pub open spec fn entry_views<T: Entry>(s: Seq<T>) -> Seq<ItemView> {
    s.map_values(|x: T| x.entry_view())
}

/// The documentation of each entry of `s`.
pub open spec fn docs_views<T: Entry>(s: Seq<T>) -> Seq<Seq<Seq<char>>> {
    s.map_values(|x: T| x.entry_docs())
}

/// The documentation that goes with the mapping `s` once `x`, documented by
/// `xd`, is inserted into it: `d` holds the documentation of the items of
/// `s`, position by position.
pub open spec fn upsert_docs(
    s: Seq<ItemView>,
    d: Seq<Seq<Seq<char>>>,
    x: ItemView,
    xd: Seq<Seq<char>>,
) -> Seq<Seq<Seq<char>>> {
    if has_key(s, x.key) {
        d.update(key_position(s, x.key), xd)
    } else {
        d.push(xd)
    }
}

/// The documentation that goes with `collect(xs)`, where `ds` documents the
/// items of `xs`, position by position.
pub open spec fn collect_docs(xs: Seq<ItemView>, ds: Seq<Seq<Seq<char>>>) -> Seq<Seq<Seq<char>>>
    decreases xs.len(),
{
    if xs.len() == 0 {
        Seq::empty()
    } else {
        upsert_docs(
            collect(xs.drop_last()),
            collect_docs(xs.drop_last(), ds.drop_last()),
            xs.last(),
            ds.last(),
        )
    }
}

pub proof fn lemma_lookup_at(s: Seq<ItemView>, i: int)
    requires
        keys_unique(s),
        0 <= i < s.len(),
    ensures
        has_key(s, s[i].key),
        key_position(s, s[i].key) == i,
        lookup(s, s[i].key) == s[i],
{
    assert(has_key(s, s[i].key));
    let p = key_position(s, s[i].key);
    assert(s[p].key == s[i].key);
}

pub proof fn lemma_upsert(s: Seq<ItemView>, x: ItemView)
    requires
        keys_unique(s),
    ensures
        keys_unique(upsert(s, x)),
        has_key(upsert(s, x), x.key),
        forall|k: KeyView| #[trigger]
            has_key(upsert(s, x), k) == (has_key(s, k) || k == x.key),
{
    let u = upsert(s, x);
    if has_key(s, x.key) {
        let p = key_position(s, x.key);
        assert(u[p].key == x.key);
        assert forall|k: KeyView| #[trigger] has_key(u, k) == (has_key(s, k) || k == x.key) by {
            if has_key(s, k) {
                let i = choose|i: int| 0 <= i < s.len() && s[i].key == k;
                assert(u[i].key == k);
            }
            if has_key(u, k) {
                let i = choose|i: int| 0 <= i < u.len() && u[i].key == k;
                if i != p {
                    assert(s[i].key == k);
                }
            }
        }
    } else {
        assert(u[s.len() as int].key == x.key);
        assert forall|k: KeyView| #[trigger] has_key(u, k) == (has_key(s, k) || k == x.key) by {
            if has_key(s, k) {
                let i = choose|i: int| 0 <= i < s.len() && s[i].key == k;
                assert(u[i].key == k);
            }
            if has_key(u, k) {
                let i = choose|i: int| 0 <= i < u.len() && u[i].key == k;
                if i < s.len() {
                    assert(s[i].key == k);
                }
            }
        }
        assert forall|i: int, j: int|
            0 <= i < u.len() && 0 <= j < u.len() && #[trigger] u[i].key == #[trigger] u[j].key
            implies i == j by {
            if i < s.len() && j == s.len() {
                assert(s[i].key == x.key);
            }
            if j < s.len() && i == s.len() {
                assert(s[j].key == x.key);
            }
        }
    }
}

/// The position in `v` of the entry with key `k`, if there is one.
pub fn find_entry<T: Entry>(v: &Vec<T>, k: &ItemKey) -> (r: Option<usize>)
    ensures
        match r {
            Some(i) => i < v.len() && entry_views(v@)[i as int].key == k@,
            None => !has_key(entry_views(v@), k@),
        },
{
    let mut i: usize = 0;
    while i < v.len()
        invariant
            i <= v.len(),
            forall|j: int| 0 <= j < i ==> entry_views(v@)[j].key != k@,
        decreases v.len() - i,
    {
        if v[i].key().same(k) {
            return Some(i);
        }
        i = i + 1;
    }
    None
}

/// Inserts `x` into the mapping `v`, replacing the entry with the same key.
pub fn insert_entry<T: Entry>(v: &mut Vec<T>, x: T)
    requires
        keys_unique(entry_views(old(v)@)),
    ensures
        entry_views(final(v)@) == upsert(entry_views(old(v)@), x.entry_view()),
        docs_views(final(v)@) == upsert_docs(
            entry_views(old(v)@),
            docs_views(old(v)@),
            x.entry_view(),
            x.entry_docs(),
        ),
        keys_unique(entry_views(final(v)@)),
{
    let ghost s = entry_views(v@);
    let ghost xv = x.entry_view();
    let ghost d = docs_views(v@);
    let ghost xd = x.entry_docs();
    proof {
        lemma_upsert(s, xv);
    }
    let k = x.key();
    match find_entry(v, &k) {
        Some(i) => {
            proof {
                lemma_lookup_at(s, i as int);
            }
            v.set(i, x);
            assert(entry_views(v@) =~= s.update(i as int, xv));
            assert(docs_views(v@) =~= d.update(i as int, xd));
        },
        None => {
            v.push(x);
            assert(entry_views(v@) =~= s.push(xv));
            assert(docs_views(v@) =~= d.push(xd));
        },
    }
}

/// Appends the items of `v` to `out`.
pub fn append_items<T: Entry>(v: &Vec<T>, out: &mut Vec<PalletItem>)
    ensures
        entry_views(final(out)@) == entry_views(old(out)@) + entry_views(v@),
{
    let ghost start = entry_views(out@);
    let ghost n = out.len();
    let mut i: usize = 0;
    while i < v.len()
        invariant
            i <= v.len(),
            n == start.len(),
            out.len() == n + i,
            forall|j: int| 0 <= j < n ==> #[trigger] out@[j]@ == start[j],
            forall|j: int| 0 <= j < i ==> #[trigger] out@[n + j]@ == v@[j].entry_view(),
        decreases v.len() - i,
    {
        let it = v[i].to_item();
        out.push(it);
        i = i + 1;
        assert(out@[n + i - 1]@ == v@[i - 1].entry_view());
    }
    assert forall|j: int| n <= j < out.len() implies out@[j]@ == v@[j - n].entry_view() by {
        assert(out@[n + (j - n)]@ == v@[j - n].entry_view());
    }
    assert(entry_views(out@) =~= start + entry_views(v@));
}

/// Copies the entries of `v`.
pub fn duplicate_entries<T: Entry>(v: &Vec<T>) -> (r: Vec<T>)
    ensures
        entry_views(r@) == entry_views(v@),
{
    let mut r: Vec<T> = Vec::new();
    let mut i: usize = 0;
    while i < v.len()
        invariant
            i <= v.len(),
            r.len() == i,
            forall|j: int| 0 <= j < i ==> r@[j].entry_view() == v@[j].entry_view(),
        decreases v.len() - i,
    {
        r.push(v[i].duplicate());
        i = i + 1;
    }
    assert(entry_views(r@) =~= entry_views(v@));
    r
}

} // verus!
