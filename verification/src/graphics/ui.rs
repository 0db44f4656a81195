//! The overlay renderer.
use vstd::prelude::*;
use crate::compute::SimError;

verus! {

/// Draws the overlay. It keeps no state of its own: what it shows it
/// reads from the state it is handed.
#[derive(Debug, Clone, Copy, PartialEq, Eq, Structural)]
pub struct UiRenderer {
}

impl UiRenderer {
    /// A renderer; creating one does not fail.
    pub fn new() -> (r: Result<Self, SimError>)
        ensures
            r == Ok::<UiRenderer, SimError>(UiRenderer {  }),
    {
        Ok(UiRenderer {  })
    }
}

} // verus!
