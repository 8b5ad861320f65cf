//! A component (actor) runtime: bounded mailboxes, a serial executor loop with
//! failure containment, cooperative cancellation, a supervision registry and a
//! stream bridge, each written as a verified state machine.

pub mod mailbox;
pub mod component;
pub mod executor;
pub mod system;
pub mod stream;
pub mod operator;
