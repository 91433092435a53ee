//! Supervision of externally launched applications: a registry of running
//! processes, the classification of their termination, a store of launch
//! configurations and icon resolution.

pub mod types;
pub mod exit;
pub mod id_map;
pub mod registry;
pub mod configs;
pub mod icons;
