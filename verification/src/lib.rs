//! Core of an edge-side IoT agent: typed bounded mailboxes, the persistent
//! MQTT session protocol, and the command lifecycle with its topic router.
//!
//! Everything that decides or computes lives here, verified; connecting the
//! session state machine to a real broker and spawning actors on a runtime is
//! left to the thin executable layer around this crate.

pub mod apt;
pub mod board;
pub mod c8y;
pub mod config_location;
pub mod entity;
pub mod file_transfer;
pub mod health;
pub mod mailbox;
pub mod operation;
pub mod payload;
pub mod router;
pub mod session;
pub mod status;
pub mod text;
pub mod topic;
