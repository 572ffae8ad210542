//! Placing a new workspace right before or right after another one, for tiling
//! window managers that only ever append workspaces.
//!
//! From a snapshot of the window manager's state, each strategy computes the
//! batch of commands that puts the new workspace in place; `command` joins the
//! batch into one request, and `util::check_reply` reads the reply.
pub mod command;
pub mod focus;
pub mod insert_workspace_rename;
pub mod insert_workspace_swap;
pub mod tree;
pub mod util;
