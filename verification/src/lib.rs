//! Core of a hermetic code-generation tool: scripts are executed in a
//! sandboxed engine and their returned values are written to disk as
//! JSON or YAML artifacts.  This library holds the verified logic of that
//! pipeline: the path sandbox that keeps imports and outputs inside their
//! configured roots, module resolution and media classification, the
//! structured-output extraction protocol, deterministic serialization,
//! output-destination computation, and the bookkeeping state machine of
//! the concurrent worker pool.

pub mod engine;
pub mod errors;
pub mod extract;
pub mod json;
pub mod loader;
pub mod outputs;
pub mod paths;
pub mod pool;
pub mod requests;
pub mod text;
pub mod value;
pub mod yaml;
