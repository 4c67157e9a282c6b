use vstd::prelude::*;
use vstd::string::StringExecFns;

verus! {

/// The greeting for `name`.
pub fn greet(name: &str) -> (g: String)
    ensures
        g@ == "Hello, "@ + name@ + "! You've been greeted from Rust!"@,
{
    "Hello, ".to_owned().concat(name).concat("! You've been greeted from Rust!")
}

} // verus!
