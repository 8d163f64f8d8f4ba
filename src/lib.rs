//! Dependency acquisition and integrity engine of the `lal` component manager.

pub mod cache;
pub mod configure;
pub mod errors;
pub mod install;
pub mod lockfile;
pub mod manifest;
pub mod numbers;
pub mod text;
pub mod verify;
