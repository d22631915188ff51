//! Core of a runtime inspector for an entity-component world: a registry from
//! type handles to inspector functions, a generic value renderer that
//! dispatches through it, a traversal of entities and their storage groups,
//! the persisted expand/collapse state of component rows, and the per-tick
//! decisions of the inspector surfaces.

pub mod expansion;
pub mod inspector;
pub mod plugin;
pub mod registry;
pub mod render;
pub mod traversal;
