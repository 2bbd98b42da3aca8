//! Verified core of a tiling-window-manager command dispatcher.
//!
//! The library walks a snapshot of the manager's window tree to extract
//! selectable candidates, searches the tree for marks, parses the line an
//! external selection prompt hands back, resolves a workspace name to a
//! working directory through a small key/value mapping, and builds the
//! command strings that are sent back to the manager.  All I/O (the IPC
//! socket, the prompt process, configuration files) lives outside this
//! crate; the functions here are pure and carry full contracts.

pub mod commands;
pub mod dispatch;
pub mod mapping;
pub mod selection;
pub mod strings;
pub mod tree;
