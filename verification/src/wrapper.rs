//! Handles on an engine state, as the two API surfaces of the engine see it.

use vstd::prelude::*;

verus! {

/// A handle on an engine state, for the core API.
pub struct LuaWrapper {
    /// The address of the engine state.
    pub state: usize,
}

/// A handle on an engine state, for the auxiliary API.
pub struct LuaAuxiliaryWrapper {
    /// The address of the engine state.
    pub state: usize,
}

/// A handle on a string buffer of the auxiliary API.
pub struct LuaBuffer {
    /// The address of the buffer.
    pub buffer: usize,
}

impl LuaWrapper {
    /// The auxiliary handle on the same engine state.
    pub fn get_auxiliary_wrapper(&self) -> (aux: LuaAuxiliaryWrapper)
        ensures
            aux.state == self.state,
    {
        LuaAuxiliaryWrapper { state: self.state }
    }
}

impl LuaAuxiliaryWrapper {
    /// The core handle on the same engine state.
    pub fn get_standard_wrapper(&self) -> (std_wrapper: LuaWrapper)
        ensures
            std_wrapper.state == self.state,
    {
        LuaWrapper { state: self.state }
    }
}

/// Going from a core handle to the auxiliary one and back gives a handle on
/// the same engine state.
pub proof fn lemma_handles_share_state(w: LuaWrapper, aux: LuaAuxiliaryWrapper, back: LuaWrapper)
    requires
        aux.state == w.state,
        back.state == aux.state,
    ensures
        back == w,
{
}

} // verus!
