//! Build-time conversion engine for foreign-function declaration trees.
//!
//! The crate takes a tree of raw, mechanically generated declarations that
//! describe a native API surface and rewrites it into a form suitable for a
//! safety-checked interop bridge: types are classified as trivially copyable
//! or opaque, raw pointers become references, by-value crossings of opaque
//! types are routed through synthesized shim requests, and the emitted names
//! are folded into a namespace-shaped re-export tree.  A small runtime state
//! machine gives exactly-once-populate semantics for passing owned values
//! into native calls by move.

pub mod ast;
pub mod classify;
pub mod convert;
pub mod emit;
pub mod fnconv;
pub mod name;
pub mod reexport;
pub mod rvalue;
pub mod tyconv;

pub use classify::Classification;
pub use classify::Classifier;
pub use convert::BridgeConverter;
pub use convert::ConvertError;
pub use emit::AuxiliaryNeed;
pub use emit::BridgeConversionResults;
pub use name::Namespace;
pub use name::QualifiedName;
pub use rvalue::RValueParam;
pub use rvalue::RValueParamHandler;
pub use rvalue::UniqueHandle;
