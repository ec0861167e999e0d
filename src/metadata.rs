use vstd::prelude::*;
use crate::model::Arg;

verus! {

/// A field of a variant in the type registry; anonymous fields have no name.
#[derive(Debug)]
pub struct Field {
    pub name: Option<String>,
    pub ty_name: Option<String>,
}

/// One alternative of a variant (tagged union) type, with its declared
/// discriminant.
#[derive(Debug)]
pub struct Variant {
    pub name: String,
    pub index: u8,
    pub fields: Vec<Field>,
    pub docs: Vec<String>,
}

/// The shape of a type in the registry. Only variant types carry what the
/// comparison reads.
#[derive(Debug)]
pub enum TypeDef {
    Composite,
    Variant(Vec<Variant>),
    Sequence,
    Array,
    Tuple,
    Primitive,
    Compact,
    BitSequence,
}

/// The type registry shared by the pallets of a registry-based snapshot: the
/// type with id `n` is the `n`-th one.
#[derive(Debug)]
pub struct TypeRegistry {
    pub types: Vec<TypeDef>,
}

/// A storage entry as the metadata declares it; `ty` renders its key and
/// value types as text.
#[derive(Debug)]
pub struct StorageEntryMetadata {
    pub name: String,
    pub ty: String,
    pub default: Vec<u8>,
    pub docs: Vec<String>,
}

/// A constant as the metadata declares it, with its encoded value.
#[derive(Debug)]
pub struct ConstantMetadata {
    pub name: String,
    pub value: Vec<u8>,
    pub docs: Vec<String>,
}

/// A pallet of a registry-based snapshot. Calls, events and errors are
/// references (type ids) into the registry; a missing section is `None`.
#[derive(Debug)]
pub struct PalletMetadata {
    pub name: String,
    pub index: u8,
    pub calls: Option<u32>,
    pub event: Option<u32>,
    pub error: Option<u32>,
    pub storage: Option<Vec<StorageEntryMetadata>>,
    pub constants: Vec<ConstantMetadata>,
}

/// A snapshot of the newer, registry-based generation.
#[derive(Debug)]
pub struct RuntimeMetadataV14 {
    pub pallets: Vec<PalletMetadata>,
    pub types: TypeRegistry,
}

/// A call, an event or an error of the older generation, which declares no
/// discriminant: its position is its identity.
#[derive(Debug)]
pub struct LegacyItem {
    pub name: String,
    pub args: Vec<Arg>,
    pub docs: Vec<String>,
}

/// A module (pallet) of the older, positional generation.
#[derive(Debug)]
pub struct ModuleMetadata {
    pub name: String,
    pub index: u8,
    pub calls: Option<Vec<LegacyItem>>,
    pub events: Option<Vec<LegacyItem>>,
    pub errors: Vec<LegacyItem>,
    pub storage: Option<Vec<StorageEntryMetadata>>,
    pub constants: Vec<ConstantMetadata>,
}

/// A snapshot of the older, positional generation.
#[derive(Debug)]
pub struct RuntimeMetadataV13 {
    pub modules: Vec<ModuleMetadata>,
}

/// A decoded metadata tree, tagged with its schema version.
#[derive(Debug)]
pub enum RuntimeMetadata {
    V13(RuntimeMetadataV13),
    V14(RuntimeMetadataV14),
    /// Any other schema version, by its number.
    Unsupported(u32),
}

/// Why a metadata tree could not be normalized.
#[derive(Clone, Copy, Debug, PartialEq, Eq, Structural)]
pub enum ReducedRuntimeError {
    /// The tree's schema version is neither of the two recognized ones.
    UnsupportedSchemaVersion(u32),
    /// The type with this id, referenced by a calls, events or errors
    /// section, is not a variant type of the registry.
    UnexpectedTypeShape(u32),
}

} // verus!
