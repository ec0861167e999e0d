use substrate_differ::{
    normalize, variant_to_calls, variant_to_events, Arg, ConstantMetadata, Field, LegacyItem,
    ModuleMetadata, PalletMetadata, ReducedRuntime, ReducedRuntimeError, RuntimeMetadata,
    RuntimeMetadataV13, RuntimeMetadataV14, StorageEntryMetadata, TypeDef, TypeRegistry, Variant,
};

fn field(name: Option<&str>, ty: &str) -> Field {
    Field { name: name.map(|n| n.to_string()), ty_name: Some(ty.to_string()) }
}

fn variant(index: u8, name: &str, fields: Vec<Field>) -> Variant {
    Variant { name: name.to_string(), index, fields, docs: vec!["docs".to_string()] }
}

fn registry() -> TypeRegistry {
    TypeRegistry {
        types: vec![
            TypeDef::Primitive,
            TypeDef::Variant(vec![
                variant(5, "transfer", vec![field(Some("dest"), "AccountId"), field(Some("value"), "Balance")]),
                variant(2, "burn", vec![field(None, "Balance")]),
            ]),
            TypeDef::Variant(vec![variant(0, "Transfer", vec![field(None, "AccountId")])]),
            TypeDef::Composite,
        ],
    }
}

fn pallet(index: u8, name: &str, calls: Option<u32>, event: Option<u32>) -> PalletMetadata {
    PalletMetadata {
        name: name.to_string(),
        index,
        calls,
        event,
        error: None,
        storage: Some(vec![StorageEntryMetadata {
            name: "TotalIssuance".to_string(),
            ty: "Plain(Balance)".to_string(),
            default: vec![0, 0],
            docs: vec!["Total issuance.".to_string()],
        }]),
        constants: vec![ConstantMetadata {
            name: "Deposit".to_string(),
            value: vec![1],
            docs: vec!["The deposit.".to_string()],
        }],
    }
}

#[test]
fn registry_snapshot_is_reduced() {
    let meta = RuntimeMetadata::V14(RuntimeMetadataV14 {
        pallets: vec![pallet(4, "Balances", Some(1), Some(2)), pallet(0, "System", None, None)],
        types: registry(),
    });
    let r = normalize(&meta).unwrap();
    assert_eq!(r.pallets.len(), 2);
    let b = r.get_pallet_by_id(4).unwrap();
    assert_eq!(b.name, "Balances");
    assert_eq!(b.calls.len(), 2);
    assert_eq!(b.calls[0].index, 5);
    assert_eq!(b.calls[0].name, "transfer");
    assert_eq!(b.calls[0].signature.args.len(), 2);
    assert_eq!(b.calls[0].signature.args[1].name, "value");
    assert_eq!(b.calls[0].signature.args[1].ty, "Balance");
    assert_eq!(b.calls[1].index, 2);
    assert_eq!(b.calls[1].signature.args[0].name, "");
    assert_eq!(b.events.len(), 1);
    assert!(b.errors.is_empty());
    assert_eq!(b.storages[0].name, "TotalIssuance");
    assert_eq!(b.storages[0].default_value, vec![0, 0]);
    assert_eq!(b.constants[0].value, vec![1]);
    let s = r.get_pallet_by_name("System").unwrap();
    assert!(s.calls.is_empty());
    assert!(s.events.is_empty());
}

#[test]
fn missing_storage_section_is_empty() {
    let mut p = pallet(1, "Timestamp", None, None);
    p.storage = None;
    let r = ReducedRuntime::from_v14(&RuntimeMetadataV14 { pallets: vec![p], types: registry() }).unwrap();
    assert!(r.pallets[0].storages.is_empty());
}

#[test]
fn section_of_another_shape_is_refused() {
    let meta = RuntimeMetadata::V14(RuntimeMetadataV14 {
        pallets: vec![pallet(0, "System", None, None), pallet(4, "Balances", Some(1), Some(3))],
        types: registry(),
    });
    assert!(matches!(normalize(&meta), Err(ReducedRuntimeError::UnexpectedTypeShape(3))));
}

#[test]
fn section_with_unknown_type_is_refused() {
    let reg = registry();
    let r = ReducedRuntime::get_reduced_pallet_from_v14_pallet(&pallet(4, "Balances", Some(17), None), &reg);
    assert!(matches!(r, Err(ReducedRuntimeError::UnexpectedTypeShape(17))));
    let r = ReducedRuntime::get_reduced_pallet_from_v14_pallet(&pallet(4, "Balances", Some(0), None), &reg);
    assert!(matches!(r, Err(ReducedRuntimeError::UnexpectedTypeShape(0))));
}

#[test]
fn unsupported_version_is_refused() {
    assert!(matches!(
        normalize(&RuntimeMetadata::Unsupported(12)),
        Err(ReducedRuntimeError::UnsupportedSchemaVersion(12))
    ));
}

#[test]
fn each_variant_becomes_one_item() {
    let vs = vec![variant(3, "a", vec![]), variant(1, "b", vec![]), variant(3, "c", vec![])];
    let calls = variant_to_calls(&vs);
    assert_eq!(calls.len(), 3);
    assert_eq!(calls[0].index, 3);
    assert_eq!(calls[0].name, "a");
    assert_eq!(calls[2].index, 3);
    assert_eq!(calls[2].name, "c");
    let events = variant_to_events(&vs);
    assert_eq!(events.len(), 3);
    assert_eq!(events[1].name, "b");
    assert_eq!(events[1].index, 1);
}

#[test]
fn sections_are_keyed_by_discriminant() {
    let reg = TypeRegistry {
        types: vec![TypeDef::Variant(vec![variant(3, "a", vec![]), variant(1, "b", vec![]), variant(3, "c", vec![])])],
    };
    let p = ReducedRuntime::get_reduced_pallet_from_v14_pallet(&pallet(2, "P", Some(0), None), &reg).unwrap();
    assert_eq!(p.calls.len(), 2);
    assert_eq!(p.calls[0].index, 3);
    assert_eq!(p.calls[0].name, "c");
    assert_eq!(p.calls[1].index, 1);
}

fn legacy(name: &str, args: &[(&str, &str)]) -> LegacyItem {
    LegacyItem {
        name: name.to_string(),
        args: args.iter().map(|(n, t)| Arg { name: n.to_string(), ty: t.to_string() }).collect(),
        docs: vec![],
    }
}

#[test]
fn legacy_snapshot_is_keyed_by_position() {
    let m = ModuleMetadata {
        name: "Balances".to_string(),
        index: 5,
        calls: Some(vec![legacy("transfer", &[("dest", "Address")]), legacy("set_balance", &[])]),
        events: None,
        errors: vec![legacy("VestingBalance", &[])],
        storage: None,
        constants: vec![],
    };
    let r = normalize(&RuntimeMetadata::V13(RuntimeMetadataV13 { modules: vec![m] })).unwrap();
    let p = r.get_pallet_by_id(5).unwrap();
    assert_eq!(p.calls.len(), 2);
    assert_eq!(p.calls[0].index, 0);
    assert_eq!(p.calls[1].index, 1);
    assert_eq!(p.calls[1].name, "set_balance");
    assert_eq!(p.calls[0].signature.args[0].ty, "Address");
    assert!(p.events.is_empty());
    assert_eq!(p.errors[0].index, 0);
}

#[test]
fn same_snapshot_normalized_twice_has_no_change() {
    let build = || RuntimeMetadata::V14(RuntimeMetadataV14 {
        pallets: vec![pallet(4, "Balances", Some(1), Some(2))],
        types: registry(),
    });
    let a = normalize(&build()).unwrap();
    let b = normalize(&build()).unwrap();
    assert!(substrate_differ::diff(&a, &b).pallets.is_empty());
}

#[test]
fn items_keep_their_documentation() {
    let meta = RuntimeMetadata::V14(RuntimeMetadataV14 {
        pallets: vec![pallet(4, "Balances", Some(1), Some(2))],
        types: registry(),
    });
    let r = normalize(&meta).unwrap();
    let b = r.get_pallet_by_id(4).unwrap();
    assert_eq!(b.calls[0].docs, vec!["docs".to_string()]);
    assert_eq!(b.events[0].docs, vec!["docs".to_string()]);
    assert_eq!(b.storages[0].docs, vec!["Total issuance.".to_string()]);
    assert_eq!(b.constants[0].docs, vec!["The deposit.".to_string()]);
    let mut item = legacy("transfer", &[]);
    item.docs = vec!["Moves funds.".to_string()];
    let m = ModuleMetadata {
        name: "Balances".to_string(),
        index: 5,
        calls: Some(vec![item]),
        events: None,
        errors: vec![],
        storage: None,
        constants: vec![],
    };
    let r = normalize(&RuntimeMetadata::V13(RuntimeMetadataV13 { modules: vec![m] })).unwrap();
    assert_eq!(r.pallets[0].calls[0].docs, vec!["Moves funds.".to_string()]);
}
