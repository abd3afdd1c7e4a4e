//! The help pane.
use vstd::prelude::*;

verus! {

/// The pane that lists the key bindings.
#[derive(Debug, Clone, Copy)]
pub struct HelpPane;

} // verus!
