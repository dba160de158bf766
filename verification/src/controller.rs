//! The device-control collaborator's boundary: the decision core of the
//! control loop.  The loop itself — channels, scheduling, the await on the
//! next message — runs at the process edge and asks this core what each
//! message means.

use crate::message::ControlMessage;
use crate::server::Webserver;
use crate::storage::ArrowDB;
use vstd::prelude::*;

verus! {

/// Owns the gateway state on behalf of the device-control loop.
pub struct Controller<D: ArrowDB> {
    pub server: Webserver<D>,
}

impl<D: ArrowDB> Controller<D> {
    /// Wraps the gateway for the control loop; construction cannot fail.
    pub fn new(server: Webserver<D>) -> (r: Result<Controller<D>, String>)
        ensures
            r matches Ok(c) && c.server == server,
    {
        Ok(Controller { server })
    }

    /// What one control message means: whether the loop stops.
    pub fn should_stop(msg: &ControlMessage) -> (r: bool)
        ensures
            r == (msg is Terminate),
    {
        match msg {
            ControlMessage::Terminate => true,
        }
    }
}

} // verus!
