use vstd::prelude::*;

verus! {

/// Where a component's executor loop runs.
#[derive(Clone, Copy, Debug, PartialEq, Eq, Structural)]
pub enum ComponentRuntime {
    /// As a task on the caller's shared runtime.
    Inherit,
    /// On a private single-threaded runtime on its own thread.
    Dedicated,
}

/// A unit of exclusively owned state, reachable only through its mailbox.
pub trait Component {
    /// A name used for diagnostics only.
    fn get_name(&self) -> String;

    /// Mailbox capacity, read once when the component starts.
    fn queue_size(&self) -> usize;

    /// Placement of the executor loop, read once when the component starts.
    fn runtime(&self) -> ComponentRuntime;

    /// Called on the executor after a handler failed catastrophically, with the
    /// failure's diagnostic message.
    fn on_handler_panic(&mut self, message: String);
}

/// The operation bound to one message type of a component. `Err` carries the
/// diagnostic of a catastrophic failure of the invocation.
pub trait Handler<M, R>: Component {
    fn handle(&mut self, message: M) -> Result<R, String>;
}

} // verus!
