//! A multi-client chat relay: message values, the peer registry with its
//! fan-out and eviction rules, and the per-connection session state machine.

pub mod message;
pub mod registry;
pub mod session;

pub use message::Message;
pub use registry::{pick_targets, recipients, Delivery, Fanout, Inbox, Mailbox, State, MAILBOX_CAPACITY};
pub use session::{Input, Session, Step, USERNAME_PROMPT};
