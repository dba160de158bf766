//! The physical-device collaborator: an interface placeholder whose real
//! control loop lives outside this core.

use vstd::prelude::*;

verus! {

/// Handle to the measuring machine.
pub struct Hardware {}

impl Hardware {
    /// Opens the device; opening cannot fail here.
    pub fn new() -> (r: Result<Hardware, String>)
        ensures
            r is Ok,
    {
        Ok(Hardware {  })
    }

    /// Starts the device loop; the placeholder changes nothing.
    pub fn start(&mut self) -> (r: ())
        ensures
            *final(self) == *old(self),
    {
    }
}

} // verus!
