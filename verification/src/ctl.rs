//! Control side (`ncap-ctl`): the project's lifecycle on the host, from the
//! `NCAP_*` variables to the container.

pub mod clean;
pub mod config;
pub mod digest;
pub mod error;
pub mod expand;
pub mod flow;
pub mod fs_error;
pub mod names;
pub mod nix;
pub mod options;
pub mod paths;
pub mod runtime;
pub mod shell;
pub mod stamp;
pub mod version;
