//! Planning, naming and reporting logic of the forge media toolkit.

pub mod text;
pub mod size;
pub mod naming;
pub mod command;
pub mod paths;
pub mod plan;
pub mod presets;
pub mod probe;
pub mod report;
pub mod transcribe;
pub mod workflow;
