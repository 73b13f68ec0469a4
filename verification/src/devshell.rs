//! Devshell control: the lifecycle of a container whose environment is cached
//! per devshell below the project root, with direnv saying whether the cache
//! still stands.

pub mod config;
pub mod expand;
pub mod run;
pub mod tools;
