use substrate_differ::{
    diff, Arg, Call, Compatible, Constant, DiffAnalyzer, Error, Event, FieldChange, ItemChange,
    ItemKey, PalletChange, PalletItem, ReducedPallet, ReducedRuntime, Signature, Storage,
};

fn sig(args: &[(&str, &str)]) -> Signature {
    Signature {
        args: args.iter().map(|(n, t)| Arg { name: n.to_string(), ty: t.to_string() }).collect(),
    }
}

fn call(index: u32, name: &str, args: &[(&str, &str)]) -> Call {
    Call { index, name: name.to_string(), signature: sig(args), docs: vec![] }
}

fn event(index: u32, name: &str, args: &[(&str, &str)]) -> Event {
    Event { index, name: name.to_string(), signature: sig(args), docs: vec![] }
}

fn error(index: u32, name: &str) -> Error {
    Error { index, name: name.to_string(), signature: sig(&[]), docs: vec![] }
}

fn storage(name: &str, ty: &str, default: &[u8]) -> Storage {
    Storage { name: name.to_string(), ty: ty.to_string(), default_value: default.to_vec(), docs: vec![] }
}

fn constant(name: &str, value: &[u8]) -> Constant {
    Constant { name: name.to_string(), value: value.to_vec(), docs: vec![] }
}

fn system() -> ReducedPallet {
    let mut p = ReducedPallet::new(0, "System".to_string());
    p.add_call(call(0, "remark", &[("remark", "Vec<u8>")]));
    p.add_call(call(1, "set_heap_pages", &[("pages", "u64")]));
    p.add_event(event(0, "ExtrinsicSuccess", &[("dispatch_info", "DispatchInfo")]));
    p.add_error(error(0, "InvalidSpecName"));
    p.add_storage(storage("Account", "Map(AccountId -> AccountInfo)", &[0, 0]));
    p.add_constant(constant("Version", &[1, 2, 3]));
    p.add_constant(constant("BlockHashCount", &[0, 1]));
    p
}

fn balances() -> ReducedPallet {
    let mut p = ReducedPallet::new(4, "Balances".to_string());
    p.add_call(call(0, "transfer", &[("dest", "MultiAddress"), ("value", "Balance")]));
    p.add_call(call(1, "set_balance", &[("who", "MultiAddress"), ("new_free", "Balance")]));
    p.add_event(event(0, "Endowed", &[("account", "AccountId"), ("free_balance", "Balance")]));
    p.add_error(error(0, "VestingBalance"));
    p.add_storage(storage("TotalIssuance", "Plain(Balance)", &[0; 16]));
    p.add_constant(constant("ExistentialDeposit", &[0, 228]));
    p
}

fn runtime(pallets: Vec<ReducedPallet>) -> ReducedRuntime {
    let mut r = ReducedRuntime::new();
    for p in pallets {
        r.insert(p);
    }
    r
}

fn base() -> ReducedRuntime {
    runtime(vec![system(), balances()])
}

#[test]
fn same_runtime_has_no_change() {
    let a = base();
    let b = base();
    let changes = diff(&a, &b);
    assert!(changes.pallets.is_empty());
    assert!(changes.compatible());
    assert!(DiffAnalyzer::compare(&a, &a).compatible());
}

#[test]
fn added_and_removed_pallets_are_mirrored() {
    let a = runtime(vec![system()]);
    let b = runtime(vec![system(), balances()]);
    let ab = diff(&a, &b);
    assert_eq!(ab.pallets.len(), 1);
    assert!(matches!(&ab.pallets[0], PalletChange::Added(4, p) if p.name == "Balances"));
    assert!(ab.compatible());
    let ba = diff(&b, &a);
    assert_eq!(ba.pallets.len(), 1);
    assert!(matches!(ba.pallets[0], PalletChange::Removed(4)));
    assert!(!ba.compatible());
}

#[test]
fn added_and_removed_items_are_mirrored() {
    let a = runtime(vec![system()]);
    let mut p = system();
    p.add_call(call(7, "kill_storage", &[("keys", "Vec<Key>")]));
    p.add_storage(storage("Digest", "Plain(Digest)", &[0]));
    let b = runtime(vec![p]);
    let ab = diff(&a, &b);
    let ba = diff(&b, &a);
    match (&ab.pallets[0], &ba.pallets[0]) {
        (PalletChange::Changed(0, added), PalletChange::Changed(0, removed)) => {
            assert_eq!(added.len(), 2);
            assert_eq!(removed.len(), 2);
            assert!(matches!(&added[0], ItemChange::Added(ItemKey::Call(7), PalletItem::Call(c)) if c.name == "kill_storage"));
            assert!(matches!(&added[1], ItemChange::Added(ItemKey::Storage(n), _) if n == "Digest"));
            assert!(matches!(removed[0], ItemChange::Removed(ItemKey::Call(7))));
            assert!(matches!(&removed[1], ItemChange::Removed(ItemKey::Storage(n)) if n == "Digest"));
        }
        _ => panic!("both directions should show a changed pallet"),
    }
    assert!(ab.compatible());
    assert!(!ba.compatible());
}

#[test]
fn adding_items_keeps_compatibility() {
    let a = base();
    let mut p = balances();
    p.add_call(call(2, "force_transfer", &[("source", "MultiAddress")]));
    p.add_event(event(1, "DustLost", &[]));
    p.add_error(error(1, "LiquidityRestrictions"));
    p.add_storage(storage("Locks", "Map(AccountId -> Vec<Lock>)", &[0]));
    p.add_constant(constant("MaxLocks", &[50, 0, 0, 0]));
    let mut extra = ReducedPallet::new(9, "Treasury".to_string());
    extra.add_call(call(0, "propose_spend", &[]));
    let b = runtime(vec![system(), p, extra]);
    let changes = diff(&a, &b);
    assert_eq!(changes.pallets.len(), 2);
    assert!(changes.compatible());
}

fn removal_breaks(edit: impl Fn(&mut ReducedPallet)) {
    let a = base();
    let mut p = balances();
    edit(&mut p);
    let b = runtime(vec![system(), p]);
    let changes = diff(&a, &b);
    assert_eq!(changes.pallets.len(), 1);
    assert!(!changes.compatible());
}

#[test]
fn removing_a_call_breaks_compatibility() {
    removal_breaks(|p| {
        p.calls.retain(|c| c.index != 1);
    });
}

#[test]
fn removing_an_event_breaks_compatibility() {
    removal_breaks(|p| p.events.clear());
}

#[test]
fn removing_an_error_breaks_compatibility() {
    removal_breaks(|p| p.errors.clear());
}

#[test]
fn removing_a_storage_entry_breaks_compatibility() {
    removal_breaks(|p| p.storages.clear());
}

#[test]
fn removing_a_constant_breaks_compatibility() {
    removal_breaks(|p| p.constants.clear());
}

#[test]
fn documentation_and_constant_values_keep_compatibility() {
    let a = base();
    let mut p = system();
    p.calls[0].docs = vec!["Make some on-chain remark.".to_string()];
    p.storages[0].docs = vec!["The full account information.".to_string()];
    p.constants[0].value = vec![9, 9, 9, 9];
    let b = runtime(vec![p, balances()]);
    let changes = diff(&a, &b);
    assert_eq!(changes.pallets.len(), 1);
    match &changes.pallets[0] {
        PalletChange::Changed(0, items) => {
            assert_eq!(items.len(), 1);
            assert!(matches!(&items[0], ItemChange::Changed(ItemKey::Constant(n), f) if n == "Version" && f == &vec![FieldChange::Value]));
        }
        _ => panic!("the system pallet should have changed"),
    }
    assert!(changes.compatible());
}

#[test]
fn storage_default_change_breaks_compatibility() {
    let a = base();
    let mut p = balances();
    p.storages[0].default_value = vec![1; 16];
    let b = runtime(vec![system(), p]);
    let changes = diff(&a, &b);
    match &changes.pallets[0] {
        PalletChange::Changed(4, items) => {
            assert!(matches!(&items[0], ItemChange::Changed(ItemKey::Storage(_), f) if f == &vec![FieldChange::Value]));
        }
        _ => panic!("the balances pallet should have changed"),
    }
    assert!(!changes.compatible());
}

#[test]
fn storage_type_change_breaks_compatibility() {
    let a = base();
    let mut p = balances();
    p.storages[0].ty = "Plain(u64)".to_string();
    let b = runtime(vec![system(), p]);
    let changes = diff(&a, &b);
    match &changes.pallets[0] {
        PalletChange::Changed(4, items) => {
            assert!(matches!(&items[0], ItemChange::Changed(ItemKey::Storage(_), f) if f == &vec![FieldChange::Type]));
        }
        _ => panic!("the balances pallet should have changed"),
    }
    assert!(!changes.compatible());
}

#[test]
fn argument_order_is_part_of_the_signature() {
    let a = base();
    let mut p = balances();
    p.calls[0] = call(0, "transfer", &[("value", "Balance"), ("dest", "MultiAddress")]);
    let b = runtime(vec![system(), p]);
    let changes = diff(&a, &b);
    match &changes.pallets[0] {
        PalletChange::Changed(4, items) => {
            assert_eq!(items.len(), 1);
            assert!(matches!(&items[0], ItemChange::Changed(ItemKey::Call(0), f) if f == &vec![FieldChange::Signature]));
            assert!(!items[0].compatible());
        }
        _ => panic!("the balances pallet should have changed"),
    }
    assert!(!changes.compatible());
}

#[test]
fn renamed_event_is_changed() {
    let a = base();
    let mut p = balances();
    p.events[0].name = "Funded".to_string();
    let b = runtime(vec![system(), p]);
    let changes = diff(&a, &b);
    match &changes.pallets[0] {
        PalletChange::Changed(4, items) => {
            assert!(matches!(&items[0], ItemChange::Changed(ItemKey::Event(0), f) if f == &vec![FieldChange::Name]));
        }
        _ => panic!("the balances pallet should have changed"),
    }
    assert!(!changes.compatible());
}

#[test]
fn declaration_order_does_not_matter() {
    let a = base();
    let mut s = ReducedPallet::new(0, "System".to_string());
    s.add_constant(constant("BlockHashCount", &[0, 1]));
    s.add_constant(constant("Version", &[1, 2, 3]));
    s.add_storage(storage("Account", "Map(AccountId -> AccountInfo)", &[0, 0]));
    s.add_error(error(0, "InvalidSpecName"));
    s.add_event(event(0, "ExtrinsicSuccess", &[("dispatch_info", "DispatchInfo")]));
    s.add_call(call(1, "set_heap_pages", &[("pages", "u64")]));
    s.add_call(call(0, "remark", &[("remark", "Vec<u8>")]));
    let b = runtime(vec![balances(), s]);
    let changes = diff(&a, &b);
    assert!(changes.pallets.is_empty());
    assert!(changes.compatible());
}

#[test]
fn index_and_name_keys_never_meet() {
    let mut a = ReducedPallet::new(1, "P".to_string());
    a.add_call(call(0, "zero", &[]));
    let mut b = ReducedPallet::new(1, "P".to_string());
    b.add_storage(storage("0", "Plain(u8)", &[]));
    let ra = runtime(vec![a]);
    let rb = runtime(vec![b]);
    match &diff(&ra, &rb).pallets[0] {
        PalletChange::Changed(1, items) => {
            assert_eq!(items.len(), 2);
            assert!(matches!(items[0], ItemChange::Removed(ItemKey::Call(0))));
            assert!(matches!(&items[1], ItemChange::Added(ItemKey::Storage(n), _) if n == "0"));
        }
        _ => panic!("pallet 1 should have changed"),
    }
}

#[test]
fn system_constant_and_balances_call_changes() {
    let a = base();
    let mut s = system();
    s.constants[0].value = vec![4, 5, 6];
    let mut p = balances();
    p.calls[1] = call(1, "set_balance", &[("who", "MultiAddress"), ("new_free", "Balance"), ("new_reserved", "Balance")]);
    let b = runtime(vec![s, p]);
    let da = DiffAnalyzer::compare(&a, &b);

    match da.get_pallet_changes(0).unwrap() {
        PalletChange::Changed(k, changes) => {
            assert_eq!(&0, k);
            assert_eq!(1, changes.len());
            assert!(changes[0].compatible());
        }
        _ => panic!("Unexpected change in the system pallet"),
    }
    match da.get_pallet_changes(4).unwrap() {
        PalletChange::Changed(k, changes) => {
            assert_eq!(&4, k);
            assert_eq!(1, changes.len());
            assert!(!changes[0].compatible());
        }
        _ => panic!("Unexpected change in the balances pallet"),
    }
    assert!(da.get_pallet_changes(7).is_none());
    assert!(!da.compatible());
}

#[test]
fn analyzer_keeps_the_changes_it_is_given() {
    let a = runtime(vec![system()]);
    let b = base();
    let da = DiffAnalyzer::new(diff(&a, &b));
    assert_eq!(da.changes.pallets.len(), 1);
    assert!(da.get_pallet_changes(4).unwrap().compatible());
    assert!(da.compatible());
}

#[test]
fn later_pallet_with_same_index_replaces_earlier() {
    let mut other = ReducedPallet::new(0, "Other".to_string());
    other.add_call(call(3, "x", &[]));
    let r = runtime(vec![system(), balances(), other]);
    assert_eq!(r.pallets.len(), 2);
    assert_eq!(r.get_pallet_by_id(0).unwrap().name, "Other");
    assert_eq!(r.pallets[0].name, "Other");
}

#[test]
fn pallets_are_found_by_id_and_name() {
    let r = base();
    assert_eq!(r.get_pallet_by_name("System").unwrap().index, 0);
    assert_eq!(r.get_pallet_by_name("Balances").unwrap().index, 4);
    assert!(r.get_pallet_by_name("Scheduler").is_none());
    assert_eq!(r.get_pallet_by_id(4).unwrap().name, "Balances");
    assert!(r.get_pallet_by_id(1).is_none());
}

#[test]
fn items_are_listed_kind_after_kind() {
    let p = system();
    let items = p.items();
    assert_eq!(items.len(), 7);
    assert!(matches!(items[0], PalletItem::Call(_)));
    assert!(matches!(items[2], PalletItem::Event(_)));
    assert!(matches!(items[3], PalletItem::Error(_)));
    assert!(matches!(items[4], PalletItem::Storage(_)));
    assert!(matches!(items[6], PalletItem::Constant(_)));
}

#[test]
fn adding_an_item_with_a_known_key_replaces_it() {
    let mut p = system();
    p.add_call(call(0, "remark_with_event", &[]));
    assert_eq!(p.calls.len(), 2);
    assert_eq!(p.calls[0].name, "remark_with_event");
    p.add_constant(constant("Version", &[7]));
    assert_eq!(p.constants.len(), 2);
    assert_eq!(p.constants[0].value, vec![7]);
}

#[test]
fn empty_runtimes_have_no_change() {
    let changes = diff(&ReducedRuntime::new(), &ReducedRuntime::new());
    assert!(changes.pallets.is_empty());
    assert!(changes.compatible());
}

#[test]
fn renamed_pallet_with_same_items_is_unchanged() {
    let a = base();
    let mut p = balances();
    p.name = "Currency".to_string();
    let b = runtime(vec![system(), p]);
    assert!(diff(&a, &b).pallets.is_empty());
}

#[test]
fn items_have_a_text_form() {
    let c = PalletItem::Call(call(12, "transfer", &[("dest", "AccountId"), ("value", "Balance")]));
    assert_eq!(c.text(), "Call     : [12] transfer ( dest: AccountId, value: Balance )");
    let e = event(3, "Endowed", &[("account", "AccountId")]);
    assert_eq!(e.text(), "[ 3] Endowed ( account: AccountId )");
    assert_eq!(PalletItem::Event(e).text(), "Event    : [ 3] Endowed ( account: AccountId )");
    assert_eq!(PalletItem::Error(error(0, "VestingBalance")).text(), "Error    : [ 0] VestingBalance (  )");
    let s = PalletItem::Storage(storage("Account", "Map(AccountId -> AccountInfo)", &[0]));
    assert_eq!(s.text(), "Storage  : Account ( Map(AccountId -> AccountInfo) )");
    assert_eq!(PalletItem::Constant(constant("Version", &[1])).text(), "Constant : Version");
    assert_eq!(sig(&[("a", "u8"), ("b", "u16"), ("c", "u32")]).text(), "a: u8, b: u16, c: u32");
    assert_eq!(substrate_differ::model::decimal_text(4_294_967_295), "4294967295");
}
