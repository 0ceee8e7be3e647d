//! Habits: shortcuts to frequently used action files.
use vstd::prelude::*;

use crate::error::PhronesisError;
use crate::text::{concat, copy_str};
use crate::types::HabitResult;

verus! {

/// The answer to a request for a habit shortcut `shortcut` to the action file `source`,
/// once it is known whether the source exists: the shortcut is made only for an existing
/// source, and a missing one is reported as not found.
pub fn habit_result(source: &str, shortcut: &str, source_exists: bool) -> (r: Result<HabitResult, PhronesisError>)
    ensures
        r is Ok <==> source_exists,
        r matches Ok(h) ==> h.source@ == source@ && h.shortcut@ == shortcut@,
        r matches Err(e) ==> e == PhronesisError::NotFound(e->NotFound_0)
            && e->NotFound_0@ == "Source not found: "@ + source@,
{
    if !source_exists {
        return Err(PhronesisError::NotFound(concat("Source not found: ", source)));
    }
    Ok(HabitResult { source: copy_str(source), shortcut: copy_str(shortcut) })
}

} // verus!
