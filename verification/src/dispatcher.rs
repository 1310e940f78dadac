//! The command dispatch protocol.
//!
//! Every component capable of owning focus implements this one capability;
//! the root router can then route a resolved command to the right component
//! without knowing its internals.

use vstd::prelude::*;
use crate::command::Command;

verus! {

/// The single entry point a focus-owning component exposes: receive a
/// resolved command and report whether it was consumed.  An unconsumed
/// command is not an error, just a no-op for that target.
pub trait CommandDispatcher {
    fn dispatch(&mut self, command: Command) -> bool;
}

} // verus!
