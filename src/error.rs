use vstd::prelude::*;

verus! {

/// Why a runtime could not be fetched or loaded.
#[derive(Debug)]
pub enum WasmLoaderError {
    EndpointParsing(String),
    OnchainBlockParsing(String),
    NotSupported(String),
    CompressionError(),
    DecompressionFailed(),
    HttpClient(String),
    WsClient(String),
}

} // verus!
