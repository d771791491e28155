//! Planning and reporting core of a toolchain benchmarking tool.
//!
//! Given a configuration of patched compiler toolchains, build profiles and
//! programs, the library derives where every build lives on disk, which steps
//! a build or a timed run consists of, and how raw timings are folded into
//! report rows. Nothing here touches the file system or starts a process: a
//! caller carries out the steps and hands the measurements back.

pub mod action;
pub mod bootstrap;
pub mod build_crate;
pub mod build_toolchain;
pub mod config;
pub mod error;
pub mod init;
pub mod output;
pub mod paths;
pub mod report;
pub mod run;
pub mod stats;
pub mod text;
pub mod utils;
