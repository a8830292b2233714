//! What holds of every install, uninstall and reconfiguration.
//!
//! `files` and `run` state the laws. The other modules prove what they rest
//! on: which paths belong to which subsystem (`site`, `outside`), how a plan
//! falls into blocks (`blocks`, `parts`), what a block does to its own files
//! (`effects`), and why a second deploy changes nothing (`repeat`).

pub mod blocks;
pub mod effects;
pub mod files;
pub mod outside;
pub mod parts;
pub mod repeat;
pub mod run;
pub mod site;
