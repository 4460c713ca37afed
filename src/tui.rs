//! Events of the terminal front end.
use vstd::prelude::*;

verus! {

/// A request from the terminal.
#[derive(Debug, Clone, Copy, PartialEq, Eq, Structural)]
pub enum Event {
    Quit,
}

} // verus!
