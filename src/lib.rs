//! Authoring a multi-service compose file: the wizard that drives the authoring flow, the
//! project model it commits into, and the repository resolution and tag ranking it relies on.

pub mod text;
pub mod ranking;
pub mod resolution;
pub mod registry;
pub mod project;
pub mod tab;
pub mod wizard;
pub mod view;
