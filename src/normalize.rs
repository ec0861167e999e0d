use vstd::prelude::*;
use crate::keyed::{collect, collect_docs, docs_views, entry_views, insert_entry, keys_unique};
use crate::metadata::{
    ConstantMetadata, Field, LegacyItem, ModuleMetadata, PalletMetadata, ReducedRuntimeError,
    RuntimeMetadata, RuntimeMetadataV13, RuntimeMetadataV14, StorageEntryMetadata, TypeDef,
    TypeRegistry, Variant,
};
use crate::model::{
    args_view, copy_texts, indexed_view, texts, Arg, Call, Constant, Entry, Error, Event, Indexed,
    ItemKind, ItemView, KeyView, Storage,
};
use crate::reduced::{
    has_pallet, pallet_position, upsert_pallet, PalletView, ReducedPallet, ReducedRuntime,
};

verus! {

/// The argument that a variant's field becomes: a missing name or type name
/// is empty.
pub open spec fn field_arg(f: Field) -> (Seq<char>, Seq<char>) {
    (
        match f.name {
            Some(n) => n@,
            None => Seq::empty(),
        },
        match f.ty_name {
            Some(t) => t@,
            None => Seq::empty(),
        },
    )
}

/// The item of kind `kind` that the variant `v` becomes: its identity is the
/// declared discriminant, not its position.
pub open spec fn variant_item(kind: ItemKind, v: Variant) -> ItemView {
    indexed_view(kind, v.index as u32, v.name@, v.fields@.map_values(|f: Field| field_arg(f)))
}

pub open spec fn variant_items(kind: ItemKind, vs: Seq<Variant>) -> Seq<ItemView> {
    vs.map_values(|v: Variant| variant_item(kind, v))
}

/// The documentation of each variant.
pub open spec fn variant_docs(vs: Seq<Variant>) -> Seq<Seq<Seq<char>>> {
    vs.map_values(|v: Variant| texts(v.docs@))
}

/// The documentation of the items that `section_items` gives, position by
/// position (none where it gives an error).
pub open spec fn section_docs(kind: ItemKind, id: Option<u32>, reg: TypeRegistry) -> Seq<
    Seq<Seq<char>>,
> {
    match id {
        Some(id) => match resolve(reg, id) {
            Some(TypeDef::Variant(vs)) => collect_docs(variant_items(kind, vs@), variant_docs(vs@)),
            _ => Seq::empty(),
        },
        None => Seq::empty(),
    }
}

/// The documentation of the items that `storage_items` gives.
pub open spec fn storage_docs(s: Option<Vec<StorageEntryMetadata>>) -> Seq<Seq<Seq<char>>> {
    match s {
        Some(v) => collect_docs(
            v@.map_values(|e: StorageEntryMetadata| storage_item(e)),
            v@.map_values(|e: StorageEntryMetadata| texts(e.docs@)),
        ),
        None => Seq::empty(),
    }
}

/// The documentation of the items that `constant_items` gives.
pub open spec fn constant_docs(cs: Seq<ConstantMetadata>) -> Seq<Seq<Seq<char>>> {
    collect_docs(
        cs.map_values(|c: ConstantMetadata| constant_item(c)),
        cs.map_values(|c: ConstantMetadata| texts(c.docs@)),
    )
}

/// The type with id `id`, if the registry has one.
pub open spec fn resolve(reg: TypeRegistry, id: u32) -> Option<TypeDef> {
    if id < reg.types.len() {
        Some(reg.types@[id as int])
    } else {
        None
    }
}

/// The items of kind `kind` that a calls, events or errors section gives: an
/// absent section gives none; a present one must reference a variant type.
pub open spec fn section_items(kind: ItemKind, id: Option<u32>, reg: TypeRegistry) -> Result<
    Seq<ItemView>,
    ReducedRuntimeError,
> {
    match id {
        None => Ok(Seq::empty()),
        Some(id) => match resolve(reg, id) {
            Some(TypeDef::Variant(vs)) => Ok(collect(variant_items(kind, vs@))),
            _ => Err(ReducedRuntimeError::UnexpectedTypeShape(id)),
        },
    }
}

pub open spec fn storage_item(e: StorageEntryMetadata) -> ItemView {
    ItemView {
        key: KeyView::Storage(e.name@),
        name: e.name@,
        args: Seq::empty(),
        ty: e.ty@,
        value: e.default@,
    }
}

/// The storage items of a section, keyed by name; an absent section gives none.
pub open spec fn storage_items(s: Option<Vec<StorageEntryMetadata>>) -> Seq<ItemView> {
    match s {
        Some(v) => collect(v@.map_values(|e: StorageEntryMetadata| storage_item(e))),
        None => Seq::empty(),
    }
}

pub open spec fn constant_item(c: ConstantMetadata) -> ItemView {
    ItemView {
        key: KeyView::Constant(c.name@),
        name: c.name@,
        args: Seq::empty(),
        ty: Seq::empty(),
        value: c.value@,
    }
}

/// The constants, keyed by name.
pub open spec fn constant_items(cs: Seq<ConstantMetadata>) -> Seq<ItemView> {
    collect(cs.map_values(|c: ConstantMetadata| constant_item(c)))
}

/// The canonical form of a pallet of the registry-based generation, or the
/// error of its first section (calls, then events, then errors) that does
/// not reference a variant type.
pub open spec fn reduce_v14_pallet(p: PalletMetadata, reg: TypeRegistry) -> Result<
    PalletView,
    ReducedRuntimeError,
> {
    match section_items(ItemKind::Call, p.calls, reg) {
        Err(e) => Err(e),
        Ok(calls) => match section_items(ItemKind::Event, p.event, reg) {
            Err(e) => Err(e),
            Ok(events) => match section_items(ItemKind::Error, p.error, reg) {
                Err(e) => Err(e),
                Ok(errors) => Ok(
                    PalletView {
                        index: p.index as u32,
                        name: p.name@,
                        items: calls + events + errors + storage_items(p.storage) + constant_items(
                            p.constants@,
                        ),
                    },
                ),
            },
        },
    }
}

/// The canonical pallets of a registry-based snapshot, keyed by index (of
/// two pallets with one index, the later one stays), or the error of the
/// first pallet that cannot be reduced.
pub open spec fn reduce_v14_pallets(ps: Seq<PalletMetadata>, reg: TypeRegistry) -> Result<
    Seq<PalletView>,
    ReducedRuntimeError,
>
    decreases ps.len(),
{
    if ps.len() == 0 {
        Ok(Seq::empty())
    } else {
        match reduce_v14_pallets(ps.drop_last(), reg) {
            Err(e) => Err(e),
            Ok(acc) => match reduce_v14_pallet(ps.last(), reg) {
                Err(e) => Err(e),
                Ok(p) => Ok(upsert_pallet(acc, p)),
            },
        }
    }
}

/// The items of kind `kind` of the older generation: each one's identity is
/// its position.
pub open spec fn legacy_items(kind: ItemKind, items: Seq<LegacyItem>) -> Seq<ItemView> {
    Seq::new(
        items.len(),
        |i: int| indexed_view(kind, i as u32, items[i].name@, args_view(items[i].args@)),
    )
}

pub open spec fn optional_legacy_items(kind: ItemKind, items: Option<Vec<LegacyItem>>) -> Seq<
    ItemView,
> {
    match items {
        Some(v) => legacy_items(kind, v@),
        None => Seq::empty(),
    }
}

/// The documentation of each item of the older generation.
pub open spec fn legacy_docs(items: Seq<LegacyItem>) -> Seq<Seq<Seq<char>>> {
    items.map_values(|it: LegacyItem| texts(it.docs@))
}

pub open spec fn optional_legacy_docs(items: Option<Vec<LegacyItem>>) -> Seq<Seq<Seq<char>>> {
    match items {
        Some(v) => legacy_docs(v@),
        None => Seq::empty(),
    }
}

/// The canonical form of a module of the older generation.
pub open spec fn reduce_v13_module(m: ModuleMetadata) -> PalletView {
    PalletView {
        index: m.index as u32,
        name: m.name@,
        items: optional_legacy_items(ItemKind::Call, m.calls) + optional_legacy_items(
            ItemKind::Event,
            m.events,
        ) + legacy_items(ItemKind::Error, m.errors@) + storage_items(m.storage) + constant_items(
            m.constants@,
        ),
    }
}

/// The canonical pallets of an older snapshot, keyed by index (of two
/// modules with one index, the later one stays).
pub open spec fn reduce_v13_modules(ms: Seq<ModuleMetadata>) -> Seq<PalletView>
    decreases ms.len(),
{
    if ms.len() == 0 {
        Seq::empty()
    } else {
        upsert_pallet(reduce_v13_modules(ms.drop_last()), reduce_v13_module(ms.last()))
    }
}

pub open spec fn legacy_fits(items: Seq<LegacyItem>) -> bool {
    items.len() <= u32::MAX + 1
}

/// Positions of the items of each kind fit the index type.
pub open spec fn v13_within_limits(m: RuntimeMetadataV13) -> bool {
    forall|i: int|
        0 <= i < m.modules.len() ==> {
            let md = #[trigger] m.modules@[i];
            &&& (md.calls matches Some(c) ==> legacy_fits(c@))
            &&& (md.events matches Some(e) ==> legacy_fits(e@))
            &&& legacy_fits(md.errors@)
        }
}

/// The canonical form of a metadata tree of either recognized generation.
pub open spec fn normalized(m: RuntimeMetadata) -> Result<Seq<PalletView>, ReducedRuntimeError> {
    match m {
        RuntimeMetadata::V13(v13) => Ok(reduce_v13_modules(v13.modules@)),
        RuntimeMetadata::V14(v14) => reduce_v14_pallets(v14.pallets@, v14.types),
        RuntimeMetadata::Unsupported(v) => Err(ReducedRuntimeError::UnsupportedSchemaVersion(v)),
    }
}

fn optional_text(s: &Option<String>) -> (r: String)
    ensures
        r@ == match s {
            Some(t) => t@,
            None => Seq::<char>::empty(),
        },
{
    match s {
        Some(t) => t.clone(),
        None => String::new(),
    }
}

fn field_to_arg(f: &Field) -> (r: Arg)
    ensures
        r@ == field_arg(*f),
{
    Arg { name: optional_text(&f.name), ty: optional_text(&f.ty_name) }
}

fn variant_to_entry<T: Indexed>(v: &Variant) -> (r: T)
    ensures
        r.entry_view() == variant_item(T::item_kind(), *v),
        r.entry_docs() == texts(v.docs@),
{
    let mut args: Vec<Arg> = Vec::new();
    let mut i: usize = 0;
    while i < v.fields.len()
        invariant
            i <= v.fields.len(),
            args.len() == i,
            forall|j: int| 0 <= j < i ==> args@[j]@ == field_arg(v.fields@[j]),
        decreases v.fields.len() - i,
    {
        args.push(field_to_arg(&v.fields[i]));
        i = i + 1;
    }
    assert(args_view(args@) =~= v.fields@.map_values(|f: Field| field_arg(f)));
    T::from_parts(v.index as u32, v.name.clone(), args, copy_texts(&v.docs))
}

fn variants_to_entries<T: Indexed>(vs: &Vec<Variant>) -> (r: Vec<T>)
    ensures
        entry_views(r@) == collect(variant_items(T::item_kind(), vs@)),
        docs_views(r@) == collect_docs(variant_items(T::item_kind(), vs@), variant_docs(vs@)),
        keys_unique(entry_views(r@)),
{
    let ghost kind = T::item_kind();
    let mut r: Vec<T> = Vec::new();
    let mut i: usize = 0;
    assert(variant_items(kind, vs@.subrange(0, 0)) =~= Seq::<ItemView>::empty());
    assert(entry_views(r@) =~= Seq::<ItemView>::empty());
    assert(docs_views(r@) =~= Seq::<Seq<Seq<char>>>::empty());
    while i < vs.len()
        invariant
            i <= vs.len(),
            kind == T::item_kind(),
            entry_views(r@) == collect(variant_items(kind, vs@.subrange(0, i as int))),
            docs_views(r@) == collect_docs(
                variant_items(kind, vs@.subrange(0, i as int)),
                variant_docs(vs@.subrange(0, i as int)),
            ),
            keys_unique(entry_views(r@)),
        decreases vs.len() - i,
    {
        let x: T = variant_to_entry(&vs[i]);
        insert_entry(&mut r, x);
        let ghost next = variant_items(kind, vs@.subrange(0, i as int + 1));
        assert(next.drop_last() =~= variant_items(kind, vs@.subrange(0, i as int)));
        assert(variant_docs(vs@.subrange(0, i as int + 1)).drop_last() =~= variant_docs(
            vs@.subrange(0, i as int),
        ));
        i = i + 1;
    }
    assert(vs@.subrange(0, i as int) =~= vs@);
    r
}

/// One item per variant, in the order of the variants.
fn variants_in_order<T: Indexed>(vs: &Vec<Variant>) -> (r: Vec<T>)
    ensures
        entry_views(r@) == variant_items(T::item_kind(), vs@),
        docs_views(r@) == variant_docs(vs@),
{
    let mut r: Vec<T> = Vec::new();
    let mut i: usize = 0;
    while i < vs.len()
        invariant
            i <= vs.len(),
            r.len() == i,
            forall|j: int|
                0 <= j < i ==> #[trigger] r@[j].entry_view() == variant_item(
                    T::item_kind(),
                    vs@[j],
                ),
            forall|j: int| 0 <= j < i ==> #[trigger] r@[j].entry_docs() == texts(vs@[j].docs@),
        decreases vs.len() - i,
    {
        let x: T = variant_to_entry(&vs[i]);
        r.push(x);
        i = i + 1;
    }
    assert(entry_views(r@) =~= variant_items(T::item_kind(), vs@));
    assert(docs_views(r@) =~= variant_docs(vs@));
    r
}

/// The calls that the variants of a call type describe: one per variant, in
/// order, each identified by its discriminant.
pub fn variant_to_calls(vs: &Vec<Variant>) -> (r: Vec<Call>)
    ensures
        entry_views(r@) == variant_items(ItemKind::Call, vs@),
        docs_views(r@) == variant_docs(vs@),
{
    variants_in_order(vs)
}

/// The events that the variants of an event type describe: one per variant,
/// in order, each identified by its discriminant.
pub fn variant_to_events(vs: &Vec<Variant>) -> (r: Vec<Event>)
    ensures
        entry_views(r@) == variant_items(ItemKind::Event, vs@),
        docs_views(r@) == variant_docs(vs@),
{
    variants_in_order(vs)
}

/// The errors that the variants of an error type describe: one per variant,
/// in order, each identified by its discriminant.
pub fn variant_to_errors(vs: &Vec<Variant>) -> (r: Vec<Error>)
    ensures
        entry_views(r@) == variant_items(ItemKind::Error, vs@),
        docs_views(r@) == variant_docs(vs@),
{
    variants_in_order(vs)
}

fn section<T: Indexed>(id: Option<u32>, reg: &TypeRegistry) -> (r: Result<
    Vec<T>,
    ReducedRuntimeError,
>)
    ensures
        match r {
            Ok(v) => keys_unique(entry_views(v@)) && section_items(T::item_kind(), id, *reg) == Ok::<
                Seq<ItemView>,
                ReducedRuntimeError,
            >(entry_views(v@)) && docs_views(v@) == section_docs(T::item_kind(), id, *reg),
            Err(e) => section_items(T::item_kind(), id, *reg) == Err::<
                Seq<ItemView>,
                ReducedRuntimeError,
            >(e),
        },
{
    match id {
        None => {
            let v: Vec<T> = Vec::new();
            assert(entry_views(v@) =~= Seq::<ItemView>::empty());
            assert(docs_views(v@) =~= Seq::<Seq<Seq<char>>>::empty());
            Ok(v)
        },
        Some(id) => {
            if (id as usize) < reg.types.len() {
                match &reg.types[id as usize] {
                    TypeDef::Variant(vs) => Ok(variants_to_entries(vs)),
                    _ => Err(ReducedRuntimeError::UnexpectedTypeShape(id)),
                }
            } else {
                Err(ReducedRuntimeError::UnexpectedTypeShape(id))
            }
        },
    }
}

fn storages_of(s: &Option<Vec<StorageEntryMetadata>>) -> (r: Vec<Storage>)
    ensures
        entry_views(r@) == storage_items(*s),
        docs_views(r@) == storage_docs(*s),
        keys_unique(entry_views(r@)),
{
    let mut r: Vec<Storage> = Vec::new();
    assert(entry_views(r@) =~= Seq::<ItemView>::empty());
    assert(docs_views(r@) =~= Seq::<Seq<Seq<char>>>::empty());
    match s {
        None => r,
        Some(es) => {
            let ghost src = es@.map_values(|e: StorageEntryMetadata| storage_item(e));
            let ghost dsrc = es@.map_values(|e: StorageEntryMetadata| texts(e.docs@));
            let mut i: usize = 0;
            assert(src.subrange(0, 0) =~= Seq::<ItemView>::empty());
            while i < es.len()
                invariant
                    i <= es.len(),
                    src == es@.map_values(|e: StorageEntryMetadata| storage_item(e)),
                    dsrc == es@.map_values(|e: StorageEntryMetadata| texts(e.docs@)),
                    entry_views(r@) == collect(src.subrange(0, i as int)),
                    docs_views(r@) == collect_docs(
                        src.subrange(0, i as int),
                        dsrc.subrange(0, i as int),
                    ),
                    keys_unique(entry_views(r@)),
                decreases es.len() - i,
            {
                let e = &es[i];
                let x = Storage {
                    name: e.name.clone(),
                    ty: e.ty.clone(),
                    default_value: crate::model::copy_bytes(&e.default),
                    docs: copy_texts(&e.docs),
                };
                insert_entry(&mut r, x);
                assert(src.subrange(0, i as int + 1).drop_last() =~= src.subrange(0, i as int));
                assert(dsrc.subrange(0, i as int + 1).drop_last() =~= dsrc.subrange(0, i as int));
                i = i + 1;
            }
            assert(src.subrange(0, i as int) =~= src);
            assert(dsrc.subrange(0, i as int) =~= dsrc);
            r
        },
    }
}

fn constants_of(cs: &Vec<ConstantMetadata>) -> (r: Vec<Constant>)
    ensures
        entry_views(r@) == constant_items(cs@),
        docs_views(r@) == constant_docs(cs@),
        keys_unique(entry_views(r@)),
{
    let ghost src = cs@.map_values(|c: ConstantMetadata| constant_item(c));
    let ghost dsrc = cs@.map_values(|c: ConstantMetadata| texts(c.docs@));
    let mut r: Vec<Constant> = Vec::new();
    assert(entry_views(r@) =~= Seq::<ItemView>::empty());
    assert(docs_views(r@) =~= Seq::<Seq<Seq<char>>>::empty());
    assert(src.subrange(0, 0) =~= Seq::<ItemView>::empty());
    let mut i: usize = 0;
    while i < cs.len()
        invariant
            i <= cs.len(),
            src == cs@.map_values(|c: ConstantMetadata| constant_item(c)),
            dsrc == cs@.map_values(|c: ConstantMetadata| texts(c.docs@)),
            entry_views(r@) == collect(src.subrange(0, i as int)),
            docs_views(r@) == collect_docs(src.subrange(0, i as int), dsrc.subrange(0, i as int)),
            keys_unique(entry_views(r@)),
        decreases cs.len() - i,
    {
        let c = &cs[i];
        let x = Constant {
            name: c.name.clone(),
            value: crate::model::copy_bytes(&c.value),
            docs: copy_texts(&c.docs),
        };
        insert_entry(&mut r, x);
        assert(src.subrange(0, i as int + 1).drop_last() =~= src.subrange(0, i as int));
        assert(dsrc.subrange(0, i as int + 1).drop_last() =~= dsrc.subrange(0, i as int));
        i = i + 1;
    }
    assert(src.subrange(0, i as int) =~= src);
    assert(dsrc.subrange(0, i as int) =~= dsrc);
    r
}

fn legacy_to_entries<T: Indexed>(items: &Vec<LegacyItem>) -> (r: Vec<T>)
    requires
        legacy_fits(items@),
    ensures
        entry_views(r@) == legacy_items(T::item_kind(), items@),
        docs_views(r@) == legacy_docs(items@),
        keys_unique(entry_views(r@)),
{
    let ghost kind = T::item_kind();
    let mut r: Vec<T> = Vec::new();
    let mut i: usize = 0;
    while i < items.len()
        invariant
            i <= items.len(),
            legacy_fits(items@),
            kind == T::item_kind(),
            r.len() == i,
            forall|j: int|
                0 <= j < i ==> #[trigger] r@[j].entry_view() == legacy_items(kind, items@)[j],
            forall|j: int| 0 <= j < i ==> #[trigger] r@[j].entry_docs() == texts(items@[j].docs@),
        decreases items.len() - i,
    {
        let it = &items[i];
        let mut args: Vec<Arg> = Vec::new();
        let mut j: usize = 0;
        while j < it.args.len()
            invariant
                j <= it.args.len(),
                args.len() == j,
                forall|m: int| 0 <= m < j ==> args@[m]@ == it.args@[m]@,
            decreases it.args.len() - j,
        {
            args.push(it.args[j].duplicate());
            j = j + 1;
        }
        assert(args_view(args@) =~= args_view(it.args@));
        let x = T::from_parts(i as u32, it.name.clone(), args, copy_texts(&it.docs));
        r.push(x);
        i = i + 1;
    }
    let ghost v = entry_views(r@);
    assert(v =~= legacy_items(kind, items@));
    assert(docs_views(r@) =~= legacy_docs(items@));
    assert forall|a: int, b: int|
        0 <= a < v.len() && 0 <= b < v.len() && #[trigger] v[a].key == #[trigger] v[b].key
        implies a == b by {
        assert(v[a].key == indexed_key_of(kind, a));
        assert(v[b].key == indexed_key_of(kind, b));
    }
    r
}

spec fn indexed_key_of(kind: ItemKind, i: int) -> KeyView {
    crate::model::indexed_key(kind, i as u32)
}

fn optional_legacy_to_entries<T: Indexed>(items: &Option<Vec<LegacyItem>>) -> (r: Vec<T>)
    requires
        items matches Some(v) ==> legacy_fits(v@),
    ensures
        entry_views(r@) == optional_legacy_items(T::item_kind(), *items),
        docs_views(r@) == optional_legacy_docs(*items),
        keys_unique(entry_views(r@)),
{
    match items {
        Some(v) => legacy_to_entries(v),
        None => {
            let r: Vec<T> = Vec::new();
            assert(entry_views(r@) =~= Seq::<ItemView>::empty());
            assert(docs_views(r@) =~= Seq::<Seq<Seq<char>>>::empty());
            r
        },
    }
}

impl ReducedPallet {
    /// Each item carries the documentation that the module `m` gives it.
    pub open spec fn docs_match_v13(&self, m: ModuleMetadata) -> bool {
        &&& docs_views(self.calls@) == optional_legacy_docs(m.calls)
        &&& docs_views(self.events@) == optional_legacy_docs(m.events)
        &&& docs_views(self.errors@) == legacy_docs(m.errors@)
        &&& docs_views(self.storages@) == storage_docs(m.storage)
        &&& docs_views(self.constants@) == constant_docs(m.constants@)
    }

    /// Each item carries the documentation that `p` gives it.
    pub open spec fn docs_match_v14(&self, p: PalletMetadata, reg: TypeRegistry) -> bool {
        &&& docs_views(self.calls@) == section_docs(ItemKind::Call, p.calls, reg)
        &&& docs_views(self.events@) == section_docs(ItemKind::Event, p.event, reg)
        &&& docs_views(self.errors@) == section_docs(ItemKind::Error, p.error, reg)
        &&& docs_views(self.storages@) == storage_docs(p.storage)
        &&& docs_views(self.constants@) == constant_docs(p.constants@)
    }
}

/// `q` carries the documentation that the last of the first `n` pallets of
/// `ps` with its index gives.
pub open spec fn docs_from_v14(
    q: ReducedPallet,
    ps: Seq<PalletMetadata>,
    n: int,
    reg: TypeRegistry,
) -> bool {
    exists|j: int|
        0 <= j < n && ps[j].index as u32 == q.index && (forall|j2: int|
            j < j2 < n ==> ps[j2].index != ps[j].index) && #[trigger] q.docs_match_v14(ps[j], reg)
}

proof fn lemma_docs_after_insert_v14(
    before: ReducedRuntime,
    after: ReducedRuntime,
    q: ReducedPallet,
    ps: Seq<PalletMetadata>,
    i: int,
    reg: TypeRegistry,
)
    requires
        before.wf(),
        0 <= i < ps.len(),
        q.index == ps[i].index as u32,
        q.docs_match_v14(ps[i], reg),
        forall|k: int|
            0 <= k < before.pallets.len() ==> docs_from_v14(#[trigger] before.pallets@[k], ps, i, reg),
        after.pallets@ == if has_pallet(before@, q@.index) {
            before.pallets@.update(pallet_position(before@, q@.index), q)
        } else {
            before.pallets@.push(q)
        },
    ensures
        forall|k: int|
            0 <= k < after.pallets.len() ==> docs_from_v14(#[trigger] after.pallets@[k], ps, i + 1, reg),
{
    let bv = before@;
    assert forall|k: int| 0 <= k < after.pallets.len() implies docs_from_v14(
        #[trigger] after.pallets@[k],
        ps,
        i + 1,
        reg,
    ) by {
        let fresh = if has_pallet(bv, q.index) {
            k == pallet_position(bv, q.index)
        } else {
            k == before.pallets.len()
        };
        if fresh {
            assert(after.pallets@[k] == q);
            assert(after.pallets@[k].docs_match_v14(ps[i], reg));
        } else {
            let old_k = before.pallets@[k];
            assert(after.pallets@[k] == old_k);
            assert(docs_from_v14(old_k, ps, i, reg));
            let j = choose|j: int|
                0 <= j < i && ps[j].index as u32 == old_k.index && (forall|j2: int|
                    j < j2 < i ==> ps[j2].index != ps[j].index) && #[trigger] old_k.docs_match_v14(
                    ps[j],
                    reg,
                );
            assert(bv[k].index == old_k.index);
            if ps[i].index == ps[j].index {
                assert(has_pallet(bv, q.index));
                let pos = pallet_position(bv, q.index);
                assert(bv[pos].index == bv[k].index);
            }
            assert(forall|j2: int| j < j2 < i + 1 ==> ps[j2].index != ps[j].index);
            assert(old_k.docs_match_v14(ps[j], reg));
        }
    }
}

/// `q` carries the documentation that the last of the first `n` modules of
/// `ms` with its index gives.
pub open spec fn docs_from_v13(
    q: ReducedPallet,
    ms: Seq<ModuleMetadata>,
    n: int,
) -> bool {
    exists|j: int|
        0 <= j < n && ms[j].index as u32 == q.index && (forall|j2: int|
            j < j2 < n ==> ms[j2].index != ms[j].index) && #[trigger] q.docs_match_v13(ms[j])
}

proof fn lemma_docs_after_insert_v13(
    before: ReducedRuntime,
    after: ReducedRuntime,
    q: ReducedPallet,
    ms: Seq<ModuleMetadata>,
    i: int,
)
    requires
        before.wf(),
        0 <= i < ms.len(),
        q.index == ms[i].index as u32,
        q.docs_match_v13(ms[i]),
        forall|k: int|
            0 <= k < before.pallets.len() ==> docs_from_v13(#[trigger] before.pallets@[k], ms, i),
        after.pallets@ == if has_pallet(before@, q@.index) {
            before.pallets@.update(pallet_position(before@, q@.index), q)
        } else {
            before.pallets@.push(q)
        },
    ensures
        forall|k: int|
            0 <= k < after.pallets.len() ==> docs_from_v13(#[trigger] after.pallets@[k], ms, i + 1),
{
    let bv = before@;
    assert forall|k: int| 0 <= k < after.pallets.len() implies docs_from_v13(
        #[trigger] after.pallets@[k],
        ms,
        i + 1,
    ) by {
        let fresh = if has_pallet(bv, q.index) {
            k == pallet_position(bv, q.index)
        } else {
            k == before.pallets.len()
        };
        if fresh {
            assert(after.pallets@[k] == q);
            assert(after.pallets@[k].docs_match_v13(ms[i]));
        } else {
            let old_k = before.pallets@[k];
            assert(after.pallets@[k] == old_k);
            assert(docs_from_v13(old_k, ms, i));
            let j = choose|j: int|
                0 <= j < i && ms[j].index as u32 == old_k.index && (forall|j2: int|
                    j < j2 < i ==> ms[j2].index != ms[j].index) && #[trigger] old_k.docs_match_v13(ms[j]);
            assert(bv[k].index == old_k.index);
            if ms[i].index == ms[j].index {
                assert(has_pallet(bv, q.index));
                let pos = pallet_position(bv, q.index);
                assert(bv[pos].index == bv[k].index);
            }
            assert(forall|j2: int| j < j2 < i + 1 ==> ms[j2].index != ms[j].index);
            assert(old_k.docs_match_v13(ms[j]));
        }
    }
}

impl ReducedRuntime {
    /// Reduces a pallet of the registry-based generation: calls, events and
    /// errors come from the variants of the types that their sections
    /// reference, storage entries and constants from the pallet itself.
    pub fn get_reduced_pallet_from_v14_pallet(p: &PalletMetadata, registry: &TypeRegistry) -> (r:
        Result<ReducedPallet, ReducedRuntimeError>)
        ensures
            match r {
                Ok(q) => q.wf() && reduce_v14_pallet(*p, *registry) == Ok::<
                    PalletView,
                    ReducedRuntimeError,
                >(q@) && q.docs_match_v14(*p, *registry),
                Err(e) => reduce_v14_pallet(*p, *registry) == Err::<
                    PalletView,
                    ReducedRuntimeError,
                >(e),
            },
    {
        let calls: Vec<Call> = match section(p.calls, registry) {
            Ok(v) => v,
            Err(e) => {
                return Err(e);
            },
        };
        let events: Vec<Event> = match section(p.event, registry) {
            Ok(v) => v,
            Err(e) => {
                return Err(e);
            },
        };
        let errors: Vec<Error> = match section(p.error, registry) {
            Ok(v) => v,
            Err(e) => {
                return Err(e);
            },
        };
        let storages = storages_of(&p.storage);
        let constants = constants_of(&p.constants);
        let q = ReducedPallet {
            index: p.index as u32,
            name: p.name.clone(),
            calls,
            events,
            errors,
            storages,
            constants,
        };
        Ok(q)
    }

    /// Reduces a snapshot of the registry-based generation. A pallet index
    /// that occurs twice keeps its later pallet.
    pub fn from_v14(v14: &RuntimeMetadataV14) -> (r: Result<ReducedRuntime, ReducedRuntimeError>)
        ensures
            match r {
                Ok(rt) => rt.wf() && reduce_v14_pallets(v14.pallets@, v14.types) == Ok::<
                    Seq<PalletView>,
                    ReducedRuntimeError,
                >(rt@) && forall|k: int|
                    0 <= k < rt.pallets.len() ==> docs_from_v14(
                        #[trigger] rt.pallets@[k],
                        v14.pallets@,
                        v14.pallets@.len() as int,
                        v14.types,
                    ),
                Err(e) => reduce_v14_pallets(v14.pallets@, v14.types) == Err::<
                    Seq<PalletView>,
                    ReducedRuntimeError,
                >(e),
            },
    {
        let ghost ps = v14.pallets@;
        let ghost reg = v14.types;
        let mut rt = ReducedRuntime::new();
        let mut i: usize = 0;
        assert(ps.subrange(0, 0) =~= Seq::<PalletMetadata>::empty());
        while i < v14.pallets.len()
            invariant
                i <= v14.pallets.len(),
                ps == v14.pallets@,
                reg == v14.types,
                rt.wf(),
                reduce_v14_pallets(ps.subrange(0, i as int), reg) == Ok::<
                    Seq<PalletView>,
                    ReducedRuntimeError,
                >(rt@),
                forall|k: int|
                    0 <= k < rt.pallets.len() ==> docs_from_v14(
                        #[trigger] rt.pallets@[k],
                        ps,
                        i as int,
                        reg,
                    ),
            decreases v14.pallets.len() - i,
        {
            assert(ps.subrange(0, i as int + 1).drop_last() =~= ps.subrange(0, i as int));
            match ReducedRuntime::get_reduced_pallet_from_v14_pallet(&v14.pallets[i], &v14.types) {
                Ok(q) => {
                    let ghost before = rt;
                    let ghost qq = q;
                    rt.insert(q);
                    proof {
                        lemma_docs_after_insert_v14(before, rt, qq, ps, i as int, reg);
                    }
                },
                Err(e) => {
                    proof {
                        lemma_v14_error_stays(ps, reg, i as int + 1);
                    }
                    return Err(e);
                },
            }
            i = i + 1;
        }
        assert(ps.subrange(0, i as int) =~= ps);
        Ok(rt)
    }

    /// Reduces a snapshot of the older generation, where calls, events and
    /// errors are identified by position. A module index that occurs twice
    /// keeps its later module.
    pub fn from_v13(v13: &RuntimeMetadataV13) -> (r: ReducedRuntime)
        requires
            v13_within_limits(*v13),
        ensures
            r.wf(),
            r@ == reduce_v13_modules(v13.modules@),
            forall|k: int|
                0 <= k < r.pallets.len() ==> docs_from_v13(
                    #[trigger] r.pallets@[k],
                    v13.modules@,
                    v13.modules@.len() as int,
                ),
    {
        let ghost ms = v13.modules@;
        let mut rt = ReducedRuntime::new();
        let mut i: usize = 0;
        assert(ms.subrange(0, 0) =~= Seq::<ModuleMetadata>::empty());
        while i < v13.modules.len()
            invariant
                i <= v13.modules.len(),
                ms == v13.modules@,
                v13_within_limits(*v13),
                rt.wf(),
                rt@ == reduce_v13_modules(ms.subrange(0, i as int)),
                forall|k: int|
                    0 <= k < rt.pallets.len() ==> docs_from_v13(
                        #[trigger] rt.pallets@[k],
                        ms,
                        i as int,
                    ),
            decreases v13.modules.len() - i,
        {
            let m = &v13.modules[i];
            assert(ms[i as int] == *m);
            let q = ReducedPallet {
                index: m.index as u32,
                name: m.name.clone(),
                calls: optional_legacy_to_entries(&m.calls),
                events: optional_legacy_to_entries(&m.events),
                errors: legacy_to_entries(&m.errors),
                storages: storages_of(&m.storage),
                constants: constants_of(&m.constants),
            };
            assert(q@ == reduce_v13_module(*m));
            assert(q.docs_match_v13(ms[i as int]));
            let ghost before = rt;
            let ghost qq = q;
            rt.insert(q);
            proof {
                lemma_docs_after_insert_v13(before, rt, qq, ms, i as int);
            }
            assert(ms.subrange(0, i as int + 1).drop_last() =~= ms.subrange(0, i as int));
            i = i + 1;
        }
        assert(ms.subrange(0, i as int) =~= ms);
        rt
    }
}

proof fn lemma_v14_error_stays(ps: Seq<PalletMetadata>, reg: TypeRegistry, n: int)
    requires
        0 <= n <= ps.len(),
        reduce_v14_pallets(ps.subrange(0, n), reg) is Err,
    ensures
        reduce_v14_pallets(ps, reg) == reduce_v14_pallets(ps.subrange(0, n), reg),
    decreases ps.len() - n,
{
    if n == ps.len() {
        assert(ps.subrange(0, n) =~= ps);
    } else {
        assert(ps.subrange(0, n + 1).drop_last() =~= ps.subrange(0, n));
        lemma_v14_error_stays(ps, reg, n + 1);
    }
}

/// Each pallet of `rt` carries the documentation that the last pallet (or
/// module) of `m` with its index gives.
pub open spec fn normalized_docs(rt: ReducedRuntime, m: RuntimeMetadata) -> bool {
    match m {
        RuntimeMetadata::V13(v13) => forall|k: int|
            0 <= k < rt.pallets.len() ==> docs_from_v13(
                #[trigger] rt.pallets@[k],
                v13.modules@,
                v13.modules@.len() as int,
            ),
        RuntimeMetadata::V14(v14) => forall|k: int|
            0 <= k < rt.pallets.len() ==> docs_from_v14(
                #[trigger] rt.pallets@[k],
                v14.pallets@,
                v14.pallets@.len() as int,
                v14.types,
            ),
        RuntimeMetadata::Unsupported(_) => false,
    }
}

/// Converts a decoded metadata tree of either recognized generation into its
/// canonical form; any other schema version is refused.
pub fn normalize(metadata: &RuntimeMetadata) -> (r: Result<ReducedRuntime, ReducedRuntimeError>)
    requires
        metadata matches RuntimeMetadata::V13(v13) ==> v13_within_limits(*v13),
    ensures
        match r {
            Ok(rt) => rt.wf() && normalized(*metadata) == Ok::<
                Seq<PalletView>,
                ReducedRuntimeError,
            >(rt@) && normalized_docs(rt, *metadata),
            Err(e) => normalized(*metadata) == Err::<Seq<PalletView>, ReducedRuntimeError>(e),
        },
{
    match metadata {
        RuntimeMetadata::V13(v13) => Ok(ReducedRuntime::from_v13(v13)),
        RuntimeMetadata::V14(v14) => ReducedRuntime::from_v14(v14),
        RuntimeMetadata::Unsupported(v) => Err(ReducedRuntimeError::UnsupportedSchemaVersion(*v)),
    }
}

} // verus!
