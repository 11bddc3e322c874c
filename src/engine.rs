use vstd::prelude::*;

verus! {

/// The size of the window an engine opens, in screen coordinates.
#[derive(Clone, Copy, Debug, PartialEq, Eq, Structural)]
pub struct EngineConfig {
    pub window_width: u32,
    pub window_height: u32,
}

} // verus!
