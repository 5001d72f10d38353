//! Manipulation engine of a terminal file manager.
//!
//! The library models filesystem entries as [`item::ItemInfo`] values and
//! paths as sequences of components.  It builds sorted directory listings,
//! plans trash-based deletion and collision-free pasting as explicit
//! operation lists, and keeps a reversible log of manipulations with
//! undo/redo semantics.  Actual disk access (enumeration, copying,
//! removal) is performed by the caller, which executes the returned plans.

pub mod errors;
pub mod fspath;
pub mod fsio;
pub mod item;
pub mod list;
pub mod manip;
pub mod names;
pub mod plan;
pub mod sort;
pub mod state;
pub mod text;
pub mod trash;
