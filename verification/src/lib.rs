//! Package-manager abstraction and privilege-escalation layer of a fuzzy
//! package selector.
//!
//! The crate decides which native package manager a host offers, which
//! commands list, install, remove and query packages with it, how the text
//! such a command prints becomes a list of package names, and how a command
//! is rewritten to run under a privilege-escalation program. Running the
//! commands is left to the caller.

pub mod command;
pub mod distro;
pub mod err;
pub mod lines;
pub mod linux;
pub mod lookup;
pub mod normalize;
pub mod os_release;
pub mod pkg;
pub mod sorted;
pub mod sudo;
pub mod text;
