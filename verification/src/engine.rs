//! The execution protocol around the embedded script engine.
//!
//! Per task the host builds one isolated engine context, loads the
//! task's file as the main module, and looks up an exported binding
//! named `main`.  The engine itself is outside this library; the
//! protocol's decision — when that lookup constitutes a runnable entry
//! point — is here.

use vstd::prelude::*;

use crate::errors::SencError;

verus! {

/// The entry-point rule: the evaluated module must export a binding
/// named `main`, and it must be callable; anything else refuses the
/// task before it runs.
pub fn validate_entry_point(has_main: bool, callable: bool) -> (r: Result<(), SencError>)
    ensures
        r is Ok <==> (has_main && callable),
        r is Err ==> r == Result::<(), SencError>::Err(SencError::MissingEntryPoint),
{
    if has_main && callable {
        Ok(())
    } else {
        Err(SencError::MissingEntryPoint)
    }
}

} // verus!
