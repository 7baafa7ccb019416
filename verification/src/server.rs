//! The greeting of the server component.

use vstd::prelude::*;

verus! {

/// The greeting.
pub fn hello() -> (r: &'static str)
    ensures
        r@ == "Hello from sheila-core!"@,
{
    "Hello from sheila-core!"
}

} // verus!
