use vstd::prelude::*;

verus! {

/// Options of the command that prints a runtime's metadata.
#[derive(Debug)]
pub struct MetaOpts {
    /// A runtime file, or the url of a node.
    pub source: String,
}

/// Options of the command that compares two runtimes.
#[derive(Debug)]
pub struct DiffOpts {
    /// The older runtime: a file, or the url of a node.
    pub a: String,
    /// The newer runtime: a file, or the url of a node.
    pub b: String,
}

} // verus!
