use vstd::prelude::*;
use vstd::string::*;

use crate::registry::{aws_regions, is_valid_region, valid_aws_regions};
use crate::registry_modules::{with_error, LibraryObj};
use crate::text::{concat3, debug_list_text, debug_str, debug_str_text, debug_string_list};

verus! {

/// The message for a region that is not known.
pub open spec fn invalid_region_message(r: Seq<char>) -> Seq<char> {
    "Invalid region code "@ + debug_str_text(r) + "\nMust be one of "@ + debug_list_text(
        aws_regions(),
    )
}

/// Whether `r` is a known region; reports a compiler error when it is not.
pub fn verify_region(obj: &mut LibraryObj, r: &str) -> (b: bool)
    ensures
        b == aws_regions().contains(r@),
        final(obj).compiler_error_message@ == (if b {
            old(obj).compiler_error_message@
        } else {
            with_error(old(obj).compiler_error_message@, invalid_region_message(r@))
        }),
        final(obj).shared_output_data@ == old(obj).shared_output_data@,
        final(obj).add_code_after@ == old(obj).add_code_after@,
        final(obj).user_data == old(obj).user_data,
{
    if !is_valid_region(r) {
        let d = debug_str(r);
        let mut m = concat3("Invalid region code ", d.as_str(), "\nMust be one of ");
        let regions = valid_aws_regions();
        let l = debug_string_list(&regions);
        m.append(l.as_str());
        obj.compiler_error(m.as_str());
        return false;
    }
    true
}

/// The settings of this module, which has none.
pub struct NotUsed {}

/// This module does nothing when applied: it only offers region checks.
pub fn wasm_entrypoint(_obj: &mut LibraryObj, _cb: impl FnOnce(&mut NotUsed))
    ensures
        *final(_obj) == *old(_obj),
{
}

} // verus!
