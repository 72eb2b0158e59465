//! Choosing a hardware-monitoring device by its name.
//!
//! Every device carries a name descriptor: a short text, usually ended by a
//! line feed. A device is the wanted one if its descriptor, without the
//! whitespace around it, holds the wanted name. Of several such devices the
//! first one is chosen.

use crate::text::{chars_of, contains, contains_text, trim, trim_bounds};
use vstd::prelude::*;
use vstd::slice::slice_subrange;

verus! {

/// Whether the name descriptor `content` names the device `device_name`.
pub open spec fn name_matches(content: Seq<char>, device_name: Seq<char>) -> bool {
    contains(trim(content), device_name)
}

/// Tells whether a name descriptor names the wanted device.
pub fn device_matches(content: &str, device_name: &str) -> (matches: bool)
    ensures
        matches == name_matches(content@, device_name@),
{
    let text = chars_of(content);
    let wanted = chars_of(device_name);
    let (from, to) = trim_bounds(text.as_slice());
    let name = slice_subrange(text.as_slice(), from, to);
    contains_text(name, wanted.as_slice())
}

/// Finds the first device whose name descriptor names the wanted device, and
/// gives its position in `names`; gives nothing if there is no such device.
pub fn find_hwmon_device(names: &[String], device_name: &str) -> (found: Option<usize>)
    ensures
        match found {
            Some(at) => {
                &&& at < names@.len()
                &&& name_matches(names@[at as int]@, device_name@)
                &&& forall|i: int| 0 <= i < at ==> !name_matches(names@[i]@, device_name@)
            },
            None => forall|i: int| 0 <= i < names@.len() ==> !name_matches(
                names@[i]@,
                device_name@,
            ),
        },
{
    let n = names.len();
    let mut at: usize = 0;
    while at < n
        invariant
            at <= n,
            n == names@.len(),
            forall|i: int| 0 <= i < at ==> !name_matches(names@[i]@, device_name@),
        decreases n - at,
    {
        if device_matches(names[at].as_str(), device_name) {
            return Some(at);
        }
        at += 1;
    }
    None
}

} // verus!
