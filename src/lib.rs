//! Compares the metadata of two snapshots of a Substrate runtime: normalizes
//! either schema generation into one canonical model, diffs two models by key,
//! and decides whether the newer one keeps the API of the older one.

pub mod analyzer;
pub mod diff;
pub mod error;
pub mod keyed;
pub mod laws;
pub mod metadata;
pub mod model;
pub mod normalize;
pub mod opts;
pub mod raw;
pub mod reduced;

pub use analyzer::DiffAnalyzer;
pub use diff::{diff, ChangeSet, Compatible, ItemChange, PalletChange};
pub use error::WasmLoaderError;
pub use metadata::{
    ConstantMetadata, Field, LegacyItem, ModuleMetadata, PalletMetadata, ReducedRuntimeError,
    RuntimeMetadata, RuntimeMetadataV13, RuntimeMetadataV14, StorageEntryMetadata, TypeDef,
    TypeRegistry, Variant,
};
pub use model::{
    Arg, Call, Constant, Error, Event, FieldChange, Index, ItemKey, ItemKind, PalletId,
    PalletItem, Signature, Storage,
};
pub use normalize::{normalize, variant_to_calls, variant_to_errors, variant_to_events};
pub use opts::{DiffOpts, MetaOpts};
pub use reduced::{ReducedPallet, ReducedRuntime};
