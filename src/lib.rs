//! Manifest compiler: turns a loosely typed project descriptor and the
//! project's file layout into a normalized build plan of targets, resolved
//! profiles and dependency records.

pub mod compile;
pub mod config;
pub mod decode;
pub mod dependency;
pub mod keys;
pub mod laws;
pub mod layout;
pub mod manifest;
pub mod normalize;
pub mod outside;
pub mod path;
pub mod profile;
pub mod target;
