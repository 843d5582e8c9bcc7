//! Error messages.

use vstd::prelude::*;
use vstd::string::*;

verus! {

/// The message of an error: the text itself.
pub fn err(str: &str) -> (r: String)
    ensures
        r@ == str@,
{
    String::from_str(str)
}

} // verus!
