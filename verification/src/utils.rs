//! Small decision helpers for the application shell.

use vstd::prelude::*;

verus! {

/// The decision at the heart of the key-release wait: the application shell
/// polls the keyboard and calls this with whether the key is still held;
/// the poll loop ends exactly when this answers true.
pub fn wait_till_released(key_down: bool) -> (done: bool)
    ensures
        done == !key_down,
{
    !key_down
}

} // verus!
