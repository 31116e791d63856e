//! Verified core of tierfs: configuration parsing, size strings, tier
//! accounting, tier placement, the ad-hoc command protocol and the
//! open-file bookkeeping of the FUSE layer.

pub mod text;
pub mod decimal;
pub mod tier;
pub mod strategy;
pub mod config;
pub mod tools;
pub mod open_files;
pub mod engine;
