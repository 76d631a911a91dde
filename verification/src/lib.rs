//! Verified core of a binding to the LXC container library.
//!
//! The native library is reached through calls that only the embedding
//! program can make. This crate decides which call comes next, marshals its
//! arguments, and turns every raw reply into a result of the closed error
//! taxonomy. Each operation is a small state machine: it starts as a
//! [`Step`] that names one [`Call`], and its [`Stage`] is resumed with the
//! [`Reply`] to that call until the operation is done.
//!
//! ```text
//! let mut step = Container::get("/var/lib/lxc", "fromage");
//! loop {
//!     match step {
//!         Step::Done(ending) => break ending,
//!         Step::Call(call, stage) => step = stage.resume(perform(call)),
//!     }
//! }
//! ```
//!
//! What is proved of every operation, whatever the native side replies:
//! the step that follows each reply ([`operation::next`]), that no native
//! resource is lost or given back twice ([`custody`]), and when lookups,
//! creations and reads succeed ([`laws`]).

pub mod boundary;
pub mod container;
pub mod custody;
pub mod error;
pub mod laws;
pub mod marshal;
pub mod operation;
pub mod snapshot;
pub mod template;

pub use boundary::{Call, RawContainer, RawSnapshot, Reply, Resource, Token};
pub use container::{get_version, Container};
pub use error::Error;
pub use marshal::CText;
pub use operation::{Outcome, Stage, Step};
pub use snapshot::Snapshot;
pub use template::Template;
