//! Deleting a VM: the confirmation asked for first.
use vstd::prelude::*;
use vstd::string::*;
use crate::text::{trim, trim_str};

verus! {

/// The question asked before deleting the VM `name`.
pub fn confirm_prompt(name: &str) -> (r: String)
    ensures
        r@ == "Type '"@ + name@ + "' to confirm deletion: "@,
{
    let mut s = String::from_str("Type '");
    s.append(name);
    s.append("' to confirm deletion: ");
    s
}

/// Whether the answer `line` confirms deleting `name`: once trimmed, it is the name.
pub fn confirms_deletion(line: &str, name: &str) -> (r: bool)
    ensures
        r == (trim(line@) == name@),
{
    let t = trim_str(line);
    let n = String::from_str(name);
    t == n
}

} // verus!
