//! The error taxonomy of the pipeline.  Every failure a task can hit
//! surfaces as one of these kinds; the host around the library attaches
//! the offending input path when it logs them.

use vstd::prelude::*;

verus! {

/// What went wrong while resolving, loading, running a script, or
/// extracting and placing its output.
///
/// - `OutOfBounds`: a resolved import target or a computed output
///   destination escaped its configured root.
/// - `UnresolvedImport`: a bare dependency import with no dependency
///   root configured.
/// - `UnsupportedPackage`: a dependency whose manifest is missing,
///   unreadable, or lacks an ESM entry field.
/// - `FileNotFound`: an extensionless import where neither sibling
///   candidate file exists.
/// - `UnsupportedMediaType`: a file whose extension names no loadable
///   media kind.
/// - `MissingEntryPoint`: the evaluated module exports no callable
///   `main` binding.
/// - `Execution`: the script (or loading one of its modules) failed.
/// - `ConflictingOutputTarget`: an output descriptor sets both an
///   output path and an output extension.
/// - `UnsupportedFormat`: an output descriptor names an unknown
///   serialization format.
#[derive(Clone, Copy, Debug, PartialEq, Eq, Structural)]
pub enum SencError {
    OutOfBounds,
    UnresolvedImport,
    UnsupportedPackage,
    FileNotFound,
    UnsupportedMediaType,
    MissingEntryPoint,
    Execution,
    ConflictingOutputTarget,
    UnsupportedFormat,
}

} // verus!
