//! Host side of a bridge that lets a sandboxed guest talk to a terminal
//! through two in-memory byte pipes: keystrokes go in as encoded lines,
//! text comes out and is rendered for a raw-mode terminal.
pub mod pipe;
pub mod render;
pub mod keys;
pub mod cycle;
pub mod lifecycle;
